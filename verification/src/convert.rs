//! The linear model that turns cycles into nanoseconds.
//!
//! The slope is a fixed-point number: `ns_per_tsc` counts units of
//! `1 / SLOPE_ONE` nanoseconds per cycle, so `SLOPE_ONE` itself means one
//! nanosecond per cycle. With `SLOPE_ONE == 2^53` every slope that a `u64`
//! can hold is below 2048 ns per cycle, and a span of up to `2^53` cycles
//! is converted without leaving `u64`.
use vstd::prelude::*;

verus! {

/// The slope of one nanosecond per cycle: `2^53`.
pub const SLOPE_ONE: u64 = 0x20_0000_0000_0000;

/// The longest span of cycles whose conversion is sure to fit `u64`: `2^53`.
pub const SAFE_SPAN_CYCLES: u64 = 0x20_0000_0000_0000;

/// The three numbers a reader needs: a cycle count, the nanosecond value
/// that the clock shows at that count, and the slope from there on.
#[derive(Clone, Copy, Debug, PartialEq, Eq, Structural)]
pub struct Params {
    pub base_tsc: u64,
    pub base_ns: u64,
    pub ns_per_tsc: u64,
}

/// Cycles gone by since `base_tsc`; none when `cycles` lies before it.
pub open spec fn cycles_since(base_tsc: u64, cycles: u64) -> nat {
    if cycles >= base_tsc {
        (cycles - base_tsc) as nat
    } else {
        0
    }
}

/// Nanoseconds that `span` cycles last at the given slope, rounded down.
pub open spec fn span_nanos(span: nat, ns_per_tsc: u64) -> nat {
    ((span * ns_per_tsc) / (SLOPE_ONE as int)) as nat
}

/// What the clock shows at `cycles`: the base value plus the nanoseconds
/// that the cycles since the base last, held at `u64::MAX` where the sum
/// would pass it.
pub open spec fn nanos_at(p: Params, cycles: u64) -> u64 {
    let ns = p.base_ns + span_nanos(cycles_since(p.base_tsc, cycles), p.ns_per_tsc);
    if ns > u64::MAX {
        u64::MAX
    } else {
        ns as u64
    }
}

/// A longer span never lasts fewer nanoseconds.
pub proof fn lemma_span_nanos_grows(a: nat, b: nat, ns_per_tsc: u64)
    requires
        a <= b,
    ensures
        span_nanos(a, ns_per_tsc) <= span_nanos(b, ns_per_tsc),
{
    assert(a * ns_per_tsc <= b * ns_per_tsc) by (nonlinear_arith)
        requires
            a <= b,
    ;
    vstd::arithmetic::div_mod::lemma_div_is_ordered(
        (a * ns_per_tsc) as int,
        (b * ns_per_tsc) as int,
        SLOPE_ONE as int,
    );
}

/// A span of at most `2^53` cycles converts to a value that fits `u64`,
/// whatever the slope.
pub proof fn lemma_safe_span_fits(span: nat, ns_per_tsc: u64)
    requires
        span <= SAFE_SPAN_CYCLES,
    ensures
        span_nanos(span, ns_per_tsc) <= u64::MAX,
{
    assert(span * ns_per_tsc <= (SLOPE_ONE as nat) * ns_per_tsc) by (nonlinear_arith)
        requires
            span <= SLOPE_ONE,
    ;
    vstd::arithmetic::div_mod::lemma_div_is_ordered(
        (span * ns_per_tsc) as int,
        ((SLOPE_ONE as nat) * ns_per_tsc) as int,
        SLOPE_ONE as int,
    );
    vstd::arithmetic::div_mod::lemma_div_multiples_vanish(ns_per_tsc as int, SLOPE_ONE as int);
    assert((SLOPE_ONE as nat) * ns_per_tsc == ns_per_tsc * (SLOPE_ONE as nat)) by (nonlinear_arith);
}

/// At its own base cycle the clock shows the base value.
pub proof fn lemma_nanos_at_base(p: Params)
    ensures
        nanos_at(p, p.base_tsc) == p.base_ns,
{
    assert(0nat * p.ns_per_tsc == 0) by (nonlinear_arith);
}

/// The clock never shows less than its base value.
pub proof fn lemma_nanos_not_below_base(p: Params, cycles: u64)
    ensures
        nanos_at(p, cycles) >= p.base_ns,
{
    lemma_span_nanos_grows(0, cycles_since(p.base_tsc, cycles), p.ns_per_tsc);
}

/// Under one set of parameters a later cycle count never reads as an
/// earlier time.
pub proof fn lemma_nanos_non_decreasing(p: Params, earlier: u64, later: u64)
    requires
        earlier <= later,
    ensures
        nanos_at(p, earlier) <= nanos_at(p, later),
{
    lemma_span_nanos_grows(
        cycles_since(p.base_tsc, earlier),
        cycles_since(p.base_tsc, later),
        p.ns_per_tsc,
    );
}

/// Two readings under one set of parameters lie no further apart than the
/// cycles between them last, give or take the one nanosecond that rounding
/// down can cost.
pub proof fn lemma_nanos_gap_bounded(p: Params, earlier: u64, later: u64)
    requires
        earlier <= later,
    ensures
        nanos_at(p, later) - nanos_at(p, earlier) <= span_nanos(
            (later - earlier) as nat,
            p.ns_per_tsc,
        ) + 1,
{
    let a = cycles_since(p.base_tsc, earlier);
    let b = cycles_since(p.base_tsc, later);
    lemma_span_nanos_grows(a, b, p.ns_per_tsc);
    lemma_span_nanos_grows((b - a) as nat, (later - earlier) as nat, p.ns_per_tsc);
    lemma_split_span(a, (b - a) as nat, p.ns_per_tsc);
}

/// Rounding down each of two spans loses at most one nanosecond against
/// rounding down their sum.
proof fn lemma_split_span(a: nat, d: nat, ns_per_tsc: u64)
    ensures
        span_nanos(a + d, ns_per_tsc) <= span_nanos(a, ns_per_tsc) + span_nanos(d, ns_per_tsc) + 1,
{
    let one = SLOPE_ONE as int;
    let x = (a * ns_per_tsc) as int;
    let y = (d * ns_per_tsc) as int;
    let z = ((a + d) * ns_per_tsc) as int;
    assert(z == x + y) by (nonlinear_arith)
        requires
            x == a * ns_per_tsc,
            y == d * ns_per_tsc,
            z == (a + d) * ns_per_tsc,
    ;
    vstd::arithmetic::div_mod::lemma_fundamental_div_mod(x, one);
    vstd::arithmetic::div_mod::lemma_fundamental_div_mod(y, one);
    vstd::arithmetic::div_mod::lemma_fundamental_div_mod(z, one);
    let qx = x / one;
    let qy = y / one;
    let qz = z / one;
    assert(qz <= qx + qy + 1) by (nonlinear_arith)
        requires
            one == 0x20_0000_0000_0000,
            z == x + y,
            x == one * qx + x % one,
            y == one * qy + y % one,
            z == one * qz + z % one,
            0 <= x % one < one,
            0 <= y % one < one,
            0 <= z % one < one,
    ;
}

/// Converts a cycle count to nanoseconds under the given parameters.
///
/// A count before `base_tsc` reads as `base_ns`; a value past `u64::MAX`
/// reads as `u64::MAX`.
#[inline(always)]
pub fn read_nanos(p: &Params, cycles: u64) -> (ns: u64)
    ensures
        ns == nanos_at(*p, cycles),
{
    let span: u64 = if cycles >= p.base_tsc {
        cycles - p.base_tsc
    } else {
        0
    };
    assert(span * p.ns_per_tsc <= u128::MAX) by (nonlinear_arith)
        requires
            span <= u64::MAX,
            p.ns_per_tsc <= u64::MAX,
    ;
    let product: u128 = (span as u128) * (p.ns_per_tsc as u128);
    let grown: u128 = product / (SLOPE_ONE as u128);
    let ns: u128 = p.base_ns as u128 + grown;
    if ns > u64::MAX as u128 {
        u64::MAX
    } else {
        ns as u64
    }
}

} // verus!
