//! Fitting the model to the reference clock, and refitting it.
//!
//! One thread owns a [`Calibrator`]. It starts the model from two pairs
//! taken some time apart, and from then on, once per interval, takes a new
//! pair, sees how far the model has run ahead of the reference clock, and
//! chooses the slope that should have cancelled that error one interval
//! later. Every new set of parameters goes out through the [`ParamStore`].
use vstd::prelude::*;
use crate::convert::{
    cycles_since, lemma_nanos_at_base, nanos_at, read_nanos, Params, SAFE_SPAN_CYCLES, SLOPE_ONE,
};
use crate::store::ParamStore;

verus! {

/// A pass falls due this many nanoseconds before the interval is over.
pub const SLACK_NANOS: u64 = 1000;

/// The longest interval between two passes: `2^62` ns.
pub const MAX_INTERVAL_NANOS: u64 = 0x4000_0000_0000_0000;

/// All that the calibrating thread knows.
#[derive(Clone, Copy, Debug, PartialEq, Eq, Structural)]
pub struct CalibrationState {
    /// Cycle count of the last pass.
    pub base_tsc: u64,
    /// What the clock showed at `base_tsc`.
    pub base_ns: u64,
    /// Slope, in units of `1 / SLOPE_ONE` ns per cycle.
    pub ns_per_tsc: u64,
    /// How far the clock was ahead of the reference at the last pass.
    pub base_ns_err: u64,
    /// Cycle count from which the next pass is due.
    pub next_calibrate_tsc: u64,
    /// The time from one pass to the next.
    pub interval_ns: u64,
}

/// The interval leaves room for the slack and for the arithmetic.
pub open spec fn usable_interval(interval_ns: u64) -> bool {
    SLACK_NANOS < interval_ns <= MAX_INTERVAL_NANOS
}

/// Whole cycles that fit into one interval less the slack.
pub open spec fn cycles_per_interval(interval_ns: u64, ns_per_tsc: u64) -> nat {
    (((interval_ns - SLACK_NANOS) * SLOPE_ONE) / (ns_per_tsc as int)) as nat
}

/// A slope is usable if it is positive, fits `u64`, and lets at least one
/// cycle pass per interval.
pub open spec fn usable_slope(interval_ns: u64, slope: int) -> bool {
    1 <= slope <= u64::MAX && cycles_per_interval(interval_ns, slope as u64) >= 1
}

/// The cycle count from which the next pass is due: one interval less the
/// slack after `base_tsc`, held at `u64::MAX`.
pub open spec fn due_from(base_tsc: u64, interval_ns: u64, ns_per_tsc: u64) -> u64 {
    let due = base_tsc + cycles_per_interval(interval_ns, ns_per_tsc);
    if due > u64::MAX {
        u64::MAX
    } else {
        due as u64
    }
}

impl CalibrationState {
    /// The part that readers need.
    pub open spec fn params(self) -> Params {
        Params { base_tsc: self.base_tsc, base_ns: self.base_ns, ns_per_tsc: self.ns_per_tsc }
    }

    /// What holds of every state that `init` or `calibrate` leaves behind.
    pub open spec fn valid(self) -> bool {
        &&& usable_interval(self.interval_ns)
        &&& usable_slope(self.interval_ns, self.ns_per_tsc as int)
        &&& self.next_calibrate_tsc == due_from(self.base_tsc, self.interval_ns, self.ns_per_tsc)
    }
}

/// The slope through two pairs: reference nanoseconds per cycle between
/// them, rounded down to the fixed-point grid.
pub open spec fn slope_through(first: (u64, u64), second: (u64, u64)) -> int {
    ((second.1 - first.1) * SLOPE_ONE) / (second.0 - first.0)
}

/// Two pairs can start the model: the reference clock told the time for
/// the first (its reading is not 0), cycles and time have both moved on
/// from the first to the second, and the slope through them is usable.
pub open spec fn can_start(interval_ns: u64, first: (u64, u64), second: (u64, u64)) -> bool {
    &&& usable_interval(interval_ns)
    &&& first.1 != 0
    &&& first.0 < second.0
    &&& first.1 < second.1
    &&& usable_slope(interval_ns, slope_through(first, second))
}

/// The state that two pairs start the model in: based on the first pair,
/// with the slope through both and no error on record.
pub open spec fn started(interval_ns: u64, first: (u64, u64), second: (u64, u64))
    -> CalibrationState {
    let slope = slope_through(first, second) as u64;
    CalibrationState {
        base_tsc: first.0,
        base_ns: first.1,
        ns_per_tsc: slope,
        base_ns_err: 0,
        next_calibrate_tsc: due_from(first.0, interval_ns, slope),
        interval_ns,
    }
}

/// The error expected one interval from now, if the error keeps growing
/// as it did since the last pass: `ns_err` plus its growth, `ns_err -
/// base_ns_err`, stretched from the `elapsed` time to a whole interval.
/// The quotient is rounded towards zero.
pub open spec fn expected_error(ns_err: int, base_ns_err: int, interval_ns: int, elapsed: int)
    -> int {
    if ns_err >= base_ns_err {
        ns_err + ((ns_err - base_ns_err) * interval_ns) / elapsed
    } else {
        ns_err - ((base_ns_err - ns_err) * interval_ns) / elapsed
    }
}

/// The slope that a pass chooses, where it chooses one.
///
/// `predicted` is what the clock shows at the pair's cycle, `reference`
/// what the reference clock showed. No slope is chosen where the clock is
/// behind the reference, where the reference has gone back behind the
/// base, where no time has passed, or where the slope that would cancel
/// the expected error is not usable.
pub open spec fn refit(s: CalibrationState, predicted: u64, reference: u64) -> Option<u64> {
    if predicted < reference || reference < s.base_ns {
        None
    } else {
        let ns_err = predicted - reference;
        let elapsed = reference - s.base_ns + s.base_ns_err;
        if elapsed == 0 {
            None
        } else {
            let expected = expected_error(
                ns_err,
                s.base_ns_err as int,
                s.interval_ns as int,
                elapsed,
            );
            if expected >= s.interval_ns {
                None
            } else {
                let slope = (s.ns_per_tsc * (s.interval_ns - expected)) / (s.interval_ns as int);
                if usable_slope(s.interval_ns, slope) {
                    Some(slope as u64)
                } else {
                    None
                }
            }
        }
    }
}

/// A pass with this pair changes the state: it is due, and the reference
/// clock told the time.
pub open spec fn commits(s: CalibrationState, sample: (u64, u64)) -> bool {
    sample.0 >= s.next_calibrate_tsc && sample.1 != 0
}

/// The state after a pass with the pair `sample`.
///
/// A pass that is not due, or whose reference reading is 0, leaves the
/// state as it is. Any other moves the base to the pair's cycle and to
/// what the clock shows there, so that the clock does not jump; records
/// how far the clock is ahead of the reference (0 when it is behind);
/// takes the slope that `refit` chooses, or keeps the old one; and sets
/// the next pass one interval later.
pub open spec fn calibrated(s: CalibrationState, sample: (u64, u64)) -> CalibrationState {
    if !commits(s, sample) {
        s
    } else {
        let predicted = nanos_at(s.params(), sample.0);
        let slope = match refit(s, predicted, sample.1) {
            Some(slope) => slope,
            None => s.ns_per_tsc,
        };
        CalibrationState {
            base_tsc: sample.0,
            base_ns: predicted,
            ns_per_tsc: slope,
            base_ns_err: if predicted >= sample.1 {
                (predicted - sample.1) as u64
            } else {
                0
            },
            next_calibrate_tsc: due_from(sample.0, s.interval_ns, slope),
            interval_ns: s.interval_ns,
        }
    }
}

/// Two pairs that can start the model start it in a valid state, with a
/// positive slope.
pub proof fn lemma_started_is_valid(interval_ns: u64, first: (u64, u64), second: (u64, u64))
    requires
        can_start(interval_ns, first, second),
    ensures
        started(interval_ns, first, second).valid(),
        started(interval_ns, first, second).ns_per_tsc > 0,
{
}

/// A model that was started from two pairs no more than `2^53` cycles
/// apart passes through both, give or take the nanosecond that rounding
/// down can cost: it shows the first pair's reference value at the first
/// pair's cycle, and the second's at the second's.
pub proof fn lemma_started_meets_both_pairs(
    interval_ns: u64,
    first: (u64, u64),
    second: (u64, u64),
)
    requires
        can_start(interval_ns, first, second),
        second.0 - first.0 <= SAFE_SPAN_CYCLES,
    ensures
        nanos_at(started(interval_ns, first, second).params(), first.0) == first.1,
        second.1 - 1 <= nanos_at(started(interval_ns, first, second).params(), second.0)
            <= second.1,
{
    let p = started(interval_ns, first, second).params();
    lemma_nanos_at_base(p);
    let one = SLOPE_ONE as int;
    let cycles = second.0 - first.0;
    let nanos = second.1 - first.1;
    let slope = slope_through(first, second);
    vstd::arithmetic::div_mod::lemma_fundamental_div_mod(nanos * one, cycles);
    let lost = (nanos * one) % cycles;
    assert(cycles * slope == nanos * one - lost);
    assert((nanos - 1) * one <= cycles * slope <= nanos * one) by (nonlinear_arith)
        requires
            cycles * slope == nanos * one - lost,
            0 <= lost < cycles,
            cycles <= one,
    ;
    vstd::arithmetic::div_mod::lemma_div_is_ordered((nanos - 1) * one, cycles * slope, one);
    vstd::arithmetic::div_mod::lemma_div_is_ordered(cycles * slope, nanos * one, one);
    vstd::arithmetic::div_mod::lemma_div_multiples_vanish(nanos - 1, one);
    vstd::arithmetic::div_mod::lemma_div_multiples_vanish(nanos, one);
    assert((nanos - 1) * one == one * (nanos - 1)) by (nonlinear_arith);
    assert(nanos * one == one * nanos) by (nonlinear_arith);
    assert(cycles * slope == cycles_since(first.0, second.0) * p.ns_per_tsc) by (nonlinear_arith)
        requires
            cycles == cycles_since(first.0, second.0),
            slope == p.ns_per_tsc,
    ;
}

/// Where the counter is the reference clock itself, so that in each of
/// the two starting pairs the cycle count is the reference reading, the
/// slope is exactly one nanosecond per cycle and the clock shows every
/// later count as it is.
pub proof fn lemma_counter_that_is_the_clock(
    interval_ns: u64,
    first: (u64, u64),
    second: (u64, u64),
    cycles: u64,
)
    requires
        can_start(interval_ns, first, second),
        first.0 == first.1,
        second.0 == second.1,
        cycles >= first.0,
    ensures
        started(interval_ns, first, second).ns_per_tsc == SLOPE_ONE,
        nanos_at(started(interval_ns, first, second).params(), cycles) == cycles,
{
    let one = SLOPE_ONE as int;
    let gone = second.0 - first.0;
    vstd::arithmetic::div_mod::lemma_div_multiples_vanish(one, gone);
    assert(gone * one == one * gone) by (nonlinear_arith);
    let span = cycles - first.0;
    vstd::arithmetic::div_mod::lemma_div_multiples_vanish(span, one);
    assert(span * one == one * span) by (nonlinear_arith);
    assert(cycles_since(first.0, cycles) * SLOPE_ONE == span * one);
}

/// A pass leaves a valid state valid: the slope stays positive and the
/// interval is never touched.
pub proof fn lemma_calibrated_is_valid(s: CalibrationState, sample: (u64, u64))
    requires
        s.valid(),
    ensures
        calibrated(s, sample).valid(),
        calibrated(s, sample).ns_per_tsc > 0,
        calibrated(s, sample).interval_ns == s.interval_ns,
{
}

/// A pass that comes before it is due leaves the state exactly as it was,
/// and so does any number of them.
pub proof fn lemma_early_pass_changes_nothing(
    s: CalibrationState,
    sample: (u64, u64),
    again: (u64, u64),
)
    requires
        sample.0 < s.next_calibrate_tsc,
        again.0 < s.next_calibrate_tsc,
    ensures
        calibrated(s, sample) == s,
        calibrated(calibrated(s, sample), again) == s,
{
}

/// A pass whose reference reading is 0, as a clock gives that could not
/// tell the time, leaves the state, and with it the slope, as it was.
pub proof fn lemma_silent_clock_changes_nothing(s: CalibrationState, cycles: u64)
    ensures
        calibrated(s, (cycles, 0)) == s,
        calibrated(s, (cycles, 0)).ns_per_tsc == s.ns_per_tsc,
{
}

/// The base never moves back: after a pass it is the pair's cycle count,
/// which was at least the count from which the pass was due, or it is
/// where it was.
pub proof fn lemma_base_never_moves_back(s: CalibrationState, sample: (u64, u64))
    requires
        s.valid(),
    ensures
        calibrated(s, sample).base_tsc >= s.base_tsc,
{
}

/// Every pass that changes the state puts the next pass strictly later,
/// unless the count from which a pass is due is already held at
/// `u64::MAX`.
pub proof fn lemma_next_pass_moves_on(s: CalibrationState, sample: (u64, u64))
    requires
        s.valid(),
        commits(s, sample),
        s.next_calibrate_tsc < u64::MAX,
    ensures
        calibrated(s, sample).next_calibrate_tsc > s.next_calibrate_tsc,
{
    lemma_calibrated_is_valid(s, sample);
}

/// A pass does not make the clock jump: at the pair's cycle count the
/// clock shows the same before and after.
pub proof fn lemma_pass_is_seamless(s: CalibrationState, sample: (u64, u64))
    ensures
        nanos_at(calibrated(s, sample).params(), sample.0) == nanos_at(s.params(), sample.0),
{
    if commits(s, sample) {
        lemma_nanos_at_base(calibrated(s, sample).params());
    }
}

/// The error on record is never more than what the clock showed when it
/// was taken: a reference clock that has jumped, either way, cannot make
/// it run away.
pub proof fn lemma_recorded_error_bounded(s: CalibrationState, sample: (u64, u64))
    requires
        commits(s, sample),
    ensures
        calibrated(s, sample).base_ns_err <= calibrated(s, sample).base_ns,
        calibrated(s, sample).base_ns_err + sample.1 >= calibrated(s, sample).base_ns,
{
}

/// Counts the cycles of one interval less the slack.
fn interval_cycles(interval_ns: u64, ns_per_tsc: u64) -> (cycles: u128)
    requires
        usable_interval(interval_ns),
        ns_per_tsc > 0,
    ensures
        cycles == cycles_per_interval(interval_ns, ns_per_tsc),
{
    let nanos: u128 = (interval_ns - SLACK_NANOS) as u128;
    assert(nanos * SLOPE_ONE <= u128::MAX) by (nonlinear_arith)
        requires
            nanos <= 0x4000_0000_0000_0000,
            SLOPE_ONE == 0x20_0000_0000_0000,
    ;
    (nanos * SLOPE_ONE as u128) / ns_per_tsc as u128
}

/// Computes the cycle count from which the next pass is due.
fn due(base_tsc: u64, interval_ns: u64, ns_per_tsc: u64) -> (at: u64)
    requires
        usable_interval(interval_ns),
        ns_per_tsc > 0,
    ensures
        at == due_from(base_tsc, interval_ns, ns_per_tsc),
{
    let at: u128 = base_tsc as u128 + interval_cycles(interval_ns, ns_per_tsc);
    if at > u64::MAX as u128 {
        u64::MAX
    } else {
        at as u64
    }
}

/// Tells whether a slope is usable with the given interval.
fn is_usable_slope(interval_ns: u64, slope: u128) -> (usable: bool)
    requires
        usable_interval(interval_ns),
    ensures
        usable == usable_slope(interval_ns, slope as int),
{
    slope >= 1 && slope <= u64::MAX as u128 && interval_cycles(interval_ns, slope as u64) >= 1
}

/// Stretching a growth that is no larger than the elapsed time to a whole
/// interval gives at most an interval.
proof fn lemma_stretch_bounded(growth: int, interval_ns: int, elapsed: int)
    requires
        0 <= growth <= elapsed,
        0 < elapsed,
        0 <= interval_ns,
    ensures
        0 <= (growth * interval_ns) / elapsed <= interval_ns,
{
    assert(0 <= growth * interval_ns <= elapsed * interval_ns) by (nonlinear_arith)
        requires
            0 <= growth <= elapsed,
            0 <= interval_ns,
    ;
    vstd::arithmetic::div_mod::lemma_div_is_ordered(
        growth * interval_ns,
        elapsed * interval_ns,
        elapsed,
    );
    vstd::arithmetic::div_mod::lemma_div_is_ordered(0, growth * interval_ns, elapsed);
    vstd::arithmetic::div_mod::lemma_div_multiples_vanish(interval_ns, elapsed);
    assert(elapsed * interval_ns == interval_ns * elapsed) by (nonlinear_arith);
}

/// Which way a pass turns the slope. A clock that is no less ahead of the
/// reference than it was at the last pass is slowed down, or kept as it
/// is; one that agrees with the reference, and did so at the last pass,
/// keeps its slope; and no pass more than doubles the slope.
pub proof fn lemma_refit_turns_the_right_way(s: CalibrationState, predicted: u64, reference: u64)
    requires
        s.valid(),
        refit(s, predicted, reference) is Some,
    ensures
        predicted - reference >= s.base_ns_err ==> refit(s, predicted, reference)->0
            <= s.ns_per_tsc,
        predicted == reference && s.base_ns_err == 0 ==> refit(s, predicted, reference)->0
            == s.ns_per_tsc,
        refit(s, predicted, reference)->0 <= 2 * s.ns_per_tsc,
{
    let ns_err = predicted - reference;
    let elapsed = reference - s.base_ns + s.base_ns_err;
    let interval = s.interval_ns as int;
    let slope = s.ns_per_tsc as int;
    let expected = expected_error(ns_err, s.base_ns_err as int, interval, elapsed);
    let factor = interval - expected;
    if ns_err >= s.base_ns_err {
        assert(0 <= (ns_err - s.base_ns_err) * interval) by (nonlinear_arith)
            requires
                0 <= ns_err - s.base_ns_err,
                0 <= interval,
        ;
        vstd::arithmetic::div_mod::lemma_div_is_ordered(
            0,
            (ns_err - s.base_ns_err) * interval,
            elapsed,
        );
        assert(0 <= expected);
        if predicted == reference && s.base_ns_err == 0 {
            assert((ns_err - s.base_ns_err) * interval == 0) by (nonlinear_arith)
                requires
                    ns_err - s.base_ns_err == 0,
            ;
            assert(expected == 0);
        }
    } else {
        lemma_stretch_bounded(s.base_ns_err - ns_err, interval, elapsed);
    }
    assert(0 < factor <= 2 * interval);
    assert(slope * factor <= (2 * slope) * interval) by (nonlinear_arith)
        requires
            0 < factor <= 2 * interval,
            0 <= slope,
    ;
    vstd::arithmetic::div_mod::lemma_div_is_ordered(
        slope * factor,
        (2 * slope) * interval,
        interval,
    );
    vstd::arithmetic::div_mod::lemma_div_multiples_vanish(2 * slope, interval);
    assert((2 * slope) * interval == interval * (2 * slope)) by (nonlinear_arith);
    if expected >= 0 {
        assert(slope * factor <= slope * interval) by (nonlinear_arith)
            requires
                factor <= interval,
                0 <= slope,
        ;
        vstd::arithmetic::div_mod::lemma_div_is_ordered(slope * factor, slope * interval, interval);
        vstd::arithmetic::div_mod::lemma_div_multiples_vanish(slope, interval);
        assert(slope * interval == interval * slope) by (nonlinear_arith);
    }
}

/// Chooses the slope of a pass, where one can be chosen.
fn refit_slope(s: &CalibrationState, predicted: u64, reference: u64) -> (slope: Option<u64>)
    requires
        s.valid(),
    ensures
        slope == refit(*s, predicted, reference),
{
    if predicted < reference || reference < s.base_ns {
        return None;
    }
    let ns_err: u64 = predicted - reference;
    let elapsed: u128 = (reference - s.base_ns) as u128 + s.base_ns_err as u128;
    if elapsed == 0 {
        return None;
    }
    let interval: u128 = s.interval_ns as u128;
    let factor: u128;
    if ns_err >= s.base_ns_err {
        let growth: u128 = (ns_err - s.base_ns_err) as u128;
        assert(0 <= growth * interval <= 0x4000_0000_0000_0000_0000_0000_0000_0000)
            by (nonlinear_arith)
            requires
                0 <= growth <= 0xffff_ffff_ffff_ffff,
                0 <= interval <= 0x4000_0000_0000_0000,
        ;
        let stretched: u128 = (growth * interval) / elapsed;
        let expected: u128 = ns_err as u128 + stretched;
        if expected >= interval {
            return None;
        }
        factor = interval - expected;
    } else {
        let shrinkage: u128 = (s.base_ns_err - ns_err) as u128;
        assert(0 <= shrinkage * interval <= 0x4000_0000_0000_0000_0000_0000_0000_0000)
            by (nonlinear_arith)
            requires
                0 <= shrinkage <= 0xffff_ffff_ffff_ffff,
                0 <= interval <= 0x4000_0000_0000_0000,
        ;
        proof {
            lemma_stretch_bounded(shrinkage as int, interval as int, elapsed as int);
        }
        let stretched: u128 = (shrinkage * interval) / elapsed;
        let grown: u128 = interval + stretched;
        if ns_err as u128 >= grown {
            return None;
        }
        factor = grown - ns_err as u128;
    }
    assert(factor == s.interval_ns - expected_error(
        ns_err as int,
        s.base_ns_err as int,
        s.interval_ns as int,
        elapsed as int,
    ));
    assert(0 <= s.ns_per_tsc * factor <= 0x8000_0000_0000_0000_0000_0000_0000_0000)
        by (nonlinear_arith)
        requires
            0 <= s.ns_per_tsc <= 0xffff_ffff_ffff_ffff,
            0 <= factor <= 0x8000_0000_0000_0000,
    ;
    let slope: u128 = (s.ns_per_tsc as u128 * factor) / interval;
    if is_usable_slope(s.interval_ns, slope) {
        Some(slope as u64)
    } else {
        None
    }
}

/// The calibrating thread's state, kept valid at all times.
pub struct Calibrator {
    state: CalibrationState,
}

impl View for Calibrator {
    type V = CalibrationState;

    closed spec fn view(&self) -> CalibrationState {
        self.state
    }
}

impl Calibrator {
    #[verifier::type_invariant]
    spec fn holds_valid_state(self) -> bool {
        self.state.valid()
    }

    /// The state as it stands.
    pub fn state(&self) -> (s: CalibrationState)
        ensures
            s == self@,
            s.valid(),
    {
        proof {
            use_type_invariant(self);
        }
        self.state
    }

    /// The parameters that readers convert with.
    pub fn params(&self) -> (p: Params)
        ensures
            p == self@.params(),
    {
        Params {
            base_tsc: self.state.base_tsc,
            base_ns: self.state.base_ns,
            ns_per_tsc: self.state.ns_per_tsc,
        }
    }

    /// Tells whether a pass is due at the given cycle count. Until it is,
    /// there is no need to take a pair.
    pub fn is_due(&self, cycles: u64) -> (due: bool)
        ensures
            due == (cycles >= self@.next_calibrate_tsc),
    {
        cycles >= self.state.next_calibrate_tsc
    }
}

/// Tells whether the wait between the two pairs that start the model is
/// over: the reference clock has come `init_calibrate_ns` past the first
/// pair's reading.
pub fn init_wait_is_over(first_ns: u64, init_calibrate_ns: u64, now_ns: u64) -> (over: bool)
    ensures
        over == (now_ns >= first_ns + init_calibrate_ns),
{
    now_ns as u128 >= first_ns as u128 + init_calibrate_ns as u128
}

/// Starts the model from two pairs taken some time apart.
///
/// Returns `None` where the pairs cannot start a model; the caller then
/// takes two new pairs. The parameters to publish are those of the
/// calibrator made.
pub fn start(interval_ns: u64, first: (u64, u64), second: (u64, u64)) -> (made: Option<
    Calibrator,
>)
    ensures
        made is Some <==> can_start(interval_ns, first, second),
        made is Some ==> made->0@ == started(interval_ns, first, second),
        made is Some ==> made->0@.valid(),
{
    if interval_ns <= SLACK_NANOS || interval_ns > MAX_INTERVAL_NANOS {
        return None;
    }
    if first.1 == 0 || first.0 >= second.0 || first.1 >= second.1 {
        return None;
    }
    let nanos: u128 = (second.1 - first.1) as u128;
    let cycles: u128 = (second.0 - first.0) as u128;
    assert(nanos * SLOPE_ONE <= u128::MAX) by (nonlinear_arith)
        requires
            nanos <= 0xffff_ffff_ffff_ffff,
            SLOPE_ONE == 0x20_0000_0000_0000,
    ;
    let slope: u128 = (nanos * SLOPE_ONE as u128) / cycles;
    if !is_usable_slope(interval_ns, slope) {
        return None;
    }
    let state = CalibrationState {
        base_tsc: first.0,
        base_ns: first.1,
        ns_per_tsc: slope as u64,
        base_ns_err: 0,
        next_calibrate_tsc: due(first.0, interval_ns, slope as u64),
        interval_ns,
    };
    Some(Calibrator { state })
}

/// Starts the model from two pairs taken some time apart, and publishes
/// its parameters.
///
/// Returns `None`, and publishes nothing, where the pairs cannot start a
/// model; the caller then takes two new pairs.
pub fn init(store: &ParamStore, interval_ns: u64, first: (u64, u64), second: (u64, u64)) -> (made:
    Option<Calibrator>)
    ensures
        made is Some <==> can_start(interval_ns, first, second),
        made is Some ==> made->0@ == started(interval_ns, first, second),
        made is Some ==> made->0@.valid(),
{
    let made = start(interval_ns, first, second);
    match &made {
        Some(calibrator) => store.save_param(calibrator.params()),
        None => {},
    }
    made
}

/// What a pass with the pair `sample` gives out to be published: the
/// parameters of the new state, where the pass changes the state.
pub open spec fn published(s: CalibrationState, sample: (u64, u64)) -> Option<Params> {
    if commits(s, sample) {
        Some(calibrated(s, sample).params())
    } else {
        None
    }
}

/// Runs one calibration pass with the pair `sample`.
///
/// Returns the parameters to publish, where the pass changed the state: a
/// pass that is not yet due, or whose reference reading is 0, changes
/// nothing and returns `None`.
pub fn pass(cal: &mut Calibrator, sample: (u64, u64)) -> (publish: Option<Params>)
    ensures
        final(cal)@ == calibrated(old(cal)@, sample),
        publish == published(old(cal)@, sample),
        final(cal)@.valid(),
{
    proof {
        use_type_invariant(&*cal);
    }
    let s = cal.state;
    if sample.0 < s.next_calibrate_tsc || sample.1 == 0 {
        return None;
    }
    let here = Params { base_tsc: s.base_tsc, base_ns: s.base_ns, ns_per_tsc: s.ns_per_tsc };
    let predicted = read_nanos(&here, sample.0);
    let slope = match refit_slope(&s, predicted, sample.1) {
        Some(slope) => slope,
        None => s.ns_per_tsc,
    };
    let next = CalibrationState {
        base_tsc: sample.0,
        base_ns: predicted,
        ns_per_tsc: slope,
        base_ns_err: if predicted >= sample.1 {
            predicted - sample.1
        } else {
            0
        },
        next_calibrate_tsc: due(sample.0, s.interval_ns, slope),
        interval_ns: s.interval_ns,
    };
    *cal = Calibrator { state: next };
    Some(Params { base_tsc: next.base_tsc, base_ns: next.base_ns, ns_per_tsc: next.ns_per_tsc })
}

/// Runs one calibration pass with the pair `sample`, and publishes the new
/// parameters if the pass changed them.
///
/// Returns whether it did: a pass that is not yet due, or whose reference
/// reading is 0, changes and publishes nothing.
pub fn calibrate(cal: &mut Calibrator, store: &ParamStore, sample: (u64, u64)) -> (committed: bool)
    ensures
        committed == commits(old(cal)@, sample),
        final(cal)@ == calibrated(old(cal)@, sample),
        final(cal)@.valid(),
{
    match pass(cal, sample) {
        Some(publish) => {
            store.save_param(publish);
            true
        },
        None => false,
    }
}

} // verus!
