//! Choosing one `(cycle, reference ns)` pair out of a burst of interleaved
//! readings.
//!
//! A burst is a row of cycle readings `tsc[0], tsc[1], .., tsc[n]` with one
//! reference-clock reading taken between each two neighbours: `ns[g]` was
//! read after `tsc[g]` and before `tsc[g + 1]`. The narrower the window
//! between two neighbouring cycle readings, the less the reading between
//! them was disturbed, so the narrowest window wins and its midpoint stands
//! for the moment at which its reference reading was taken. Window 0, which
//! the reading that opens the burst begins, competes only where it is the
//! one window there is.
use vstd::prelude::*;

verus! {

/// Reference readings in a burst against a clock of fine resolution.
pub const READINGS: usize = 3;

/// Reference readings in a burst against a clock that ticks coarsely and
/// shows the same value many times over: enough to step past a run of
/// equal readings.
pub const COARSE_READINGS: usize = 15;

/// The cycle readings never step backwards.
pub open spec fn ascending(tsc: Seq<u64>) -> bool {
    forall|i: int, j: int| 0 <= i <= j < tsc.len() ==> tsc[i] <= tsc[j]
}

/// Width in cycles of window `g`, the one between `tsc[g]` and `tsc[g + 1]`.
pub open spec fn window(tsc: Seq<u64>, g: int) -> int {
    tsc[g + 1] - tsc[g]
}

/// Window `g` is the one to choose among the first `limit` windows: the
/// first narrowest of the windows `1 .. limit`, or window 0 where that
/// range is empty.
pub open spec fn first_narrowest(tsc: Seq<u64>, limit: nat, g: int) -> bool {
    if limit <= 1 {
        g == 0
    } else {
        &&& 1 <= g < limit
        &&& forall|k: int| 1 <= k < limit ==> window(tsc, g) <= #[trigger] window(tsc, k)
        &&& forall|k: int| 1 <= k < g ==> window(tsc, g) < #[trigger] window(tsc, k)
    }
}

/// Index of the first narrowest of the windows `1 .. limit`; window 0
/// where there is none of these.
pub open spec fn best_window(tsc: Seq<u64>, limit: nat) -> int
    decreases limit,
{
    if limit <= 1 {
        0
    } else if limit == 2 {
        1
    } else {
        let before = best_window(tsc, (limit - 1) as nat);
        if window(tsc, limit - 1) < window(tsc, before) {
            limit - 1
        } else {
            before
        }
    }
}

/// The whole number halfway between two readings, rounded down.
pub open spec fn midpoint(a: u64, b: u64) -> u64 {
    ((a + b) / 2) as u64
}

/// The pair that window `g` stands for.
pub open spec fn pair_at(tsc: Seq<u64>, ns: Seq<u64>, g: int) -> (u64, u64) {
    (midpoint(tsc[g], tsc[g + 1]), ns[g])
}

/// The pair chosen from a burst: midpoint and reading of the first
/// narrowest of its windows but window 0, or of window 0 where the burst
/// has no other.
pub open spec fn best_pair(tsc: Seq<u64>, ns: Seq<u64>) -> (u64, u64) {
    pair_at(tsc, ns, best_window(tsc, ns.len()))
}

/// `best_window` is what its name says: it lies in `1 .. limit`, no
/// window there is narrower, and every earlier one there is strictly
/// wider; where that range is empty, it is window 0.
pub proof fn lemma_best_window_is_first_narrowest(tsc: Seq<u64>, limit: nat)
    requires
        limit < tsc.len(),
    ensures
        first_narrowest(tsc, limit, best_window(tsc, limit)),
        limit >= 1 ==> 0 <= best_window(tsc, limit) < limit,
    decreases limit,
{
    if limit > 2 {
        lemma_best_window_is_first_narrowest(tsc, (limit - 1) as nat);
    }
}

/// Only one window can be the one to choose.
pub proof fn lemma_first_narrowest_is_unique(tsc: Seq<u64>, limit: nat, g: int, h: int)
    requires
        first_narrowest(tsc, limit, g),
        first_narrowest(tsc, limit, h),
    ensures
        g == h,
{
    if limit <= 1 {
    } else if g < h {
        assert(window(tsc, h) < window(tsc, g));
        assert(window(tsc, g) <= window(tsc, h));
    } else if h < g {
        assert(window(tsc, g) < window(tsc, h));
        assert(window(tsc, h) <= window(tsc, g));
    }
}

/// On cycle readings that never step backwards the chosen window is not
/// backwards either, whatever the reference clock did meanwhile: the cycle
/// of the chosen pair lies between the two readings that bound its window,
/// and its reference value is the reading taken between them.
pub proof fn lemma_best_pair_inside_its_window(tsc: Seq<u64>, ns: Seq<u64>)
    requires
        ns.len() >= 1,
        tsc.len() == ns.len() + 1,
        ascending(tsc),
    ensures
        ({
            let g = best_window(tsc, ns.len());
            &&& 0 <= g < ns.len()
            &&& tsc[g] <= best_pair(tsc, ns).0 <= tsc[g + 1]
            &&& best_pair(tsc, ns).1 == ns[g]
        }),
{
    lemma_best_window_is_first_narrowest(tsc, ns.len());
}

/// The positions `q` in `1 .. upto` at which the reference reading differs
/// from the one before it, in rising order: where a new value first shows.
pub open spec fn onsets(ns: Seq<u64>, upto: nat) -> Seq<int>
    decreases upto,
{
    if upto <= 1 {
        Seq::empty()
    } else {
        let before = onsets(ns, (upto - 1) as nat);
        if ns[upto - 1] != ns[upto - 2] {
            before.push(upto - 1)
        } else {
            before
        }
    }
}

/// The entries of `s` at the positions `at`.
pub open spec fn pick(s: Seq<u64>, at: Seq<int>) -> Seq<u64> {
    Seq::new(at.len(), |k: int| s[at[k]])
}

/// The pair chosen from a burst whose reference clock ticks so coarsely
/// that neighbouring readings repeat.
///
/// Only the readings that first show a new value are kept, each with the
/// cycle reading taken just before it. With at least two of them the
/// choice is made among the windows between their cycle readings as it is
/// made in a fine burst, the last kept reading closing the last window:
/// the first of these windows competes only where it is the one there is.
/// With fewer than two there is no such window: the pair is
/// then the midpoint between the one kept cycle reading (or `tsc[0]`) and
/// `tsc[1]`, with the one kept reference reading (or `ns[0]`).
pub open spec fn coarse_pair(tsc: Seq<u64>, ns: Seq<u64>) -> (u64, u64) {
    let at = onsets(ns, ns.len());
    if at.len() >= 2 {
        let kept_tsc = pick(tsc, at);
        let kept_ns = pick(ns, at);
        pair_at(kept_tsc, kept_ns, best_window(kept_tsc, (at.len() - 1) as nat))
    } else if at.len() == 1 {
        (midpoint(tsc[at[0]], tsc[1]), ns[at[0]])
    } else {
        (midpoint(tsc[0], tsc[1]), ns[0])
    }
}

/// Every onset lies in `1 .. upto`, and they rise strictly.
pub proof fn lemma_onsets_rise(ns: Seq<u64>, upto: nat)
    ensures
        onsets(ns, upto).len() <= upto,
        forall|k: int|
            0 <= k < onsets(ns, upto).len() ==> 1 <= #[trigger] onsets(ns, upto)[k] < upto,
        forall|j: int, k: int|
            0 <= j < k < onsets(ns, upto).len() ==> onsets(ns, upto)[j] < onsets(ns, upto)[k],
    decreases upto,
{
    if upto > 1 {
        lemma_onsets_rise(ns, (upto - 1) as nat);
    }
}

/// A reference clock that shows one value throughout has no onset.
pub proof fn lemma_constant_readings_have_no_onset(ns: Seq<u64>, upto: nat)
    requires
        upto <= ns.len(),
        forall|i: int| 0 <= i < upto ==> #[trigger] ns[i] == ns[0],
    ensures
        onsets(ns, upto).len() == 0,
    decreases upto,
{
    if upto > 1 {
        lemma_constant_readings_have_no_onset(ns, (upto - 1) as nat);
    }
}

/// The cycle of the pair chosen from a coarse burst lies within the burst:
/// not before its first cycle reading and not after its last.
pub proof fn lemma_coarse_pair_within_burst(tsc: Seq<u64>, ns: Seq<u64>)
    requires
        ns.len() >= 1,
        tsc.len() == ns.len() + 1,
        ascending(tsc),
    ensures
        tsc[0] <= coarse_pair(tsc, ns).0 <= tsc[ns.len() as int],
{
    let at = onsets(ns, ns.len());
    lemma_onsets_rise(ns, ns.len());
    if at.len() >= 2 {
        let kept = pick(tsc, at);
        lemma_best_window_is_first_narrowest(kept, (at.len() - 1) as nat);
        let g = best_window(kept, (at.len() - 1) as nat);
        assert(kept[g] == tsc[at[g]]);
        assert(kept[g + 1] == tsc[at[g + 1]]);
    } else if at.len() == 1 {
        assert(1 <= at[0] < ns.len());
    }
}

/// Halfway between two readings, without leaving `u64` on the way.
fn middle(a: u64, b: u64) -> (m: u64)
    ensures
        m == midpoint(a, b),
{
    if a <= b {
        a + (b - a) / 2
    } else {
        b + (a - b) / 2
    }
}

/// Finds the first narrowest of the windows `1 .. limit`, or window 0
/// where there is none of these.
fn narrowest(tsc: &[u64], limit: usize) -> (g: usize)
    requires
        1 <= limit < tsc.len(),
        ascending(tsc@),
    ensures
        g == best_window(tsc@, limit as nat),
        g < limit,
{
    if limit == 1 {
        return 0;
    }
    let mut best: usize = 1;
    let mut i: usize = 2;
    while i < limit
        invariant
            2 <= i <= limit < tsc.len(),
            1 <= best < i,
            best == best_window(tsc@, i as nat),
            ascending(tsc@),
        decreases limit - i,
    {
        if tsc[i + 1] - tsc[i] < tsc[best + 1] - tsc[best] {
            best = i;
        }
        i += 1;
    }
    best
}

/// Tells whether the cycle readings never step backwards, as the two
/// ways of choosing a pair ask of them.
pub fn is_ascending(tsc: &[u64]) -> (yes: bool)
    ensures
        yes == ascending(tsc@),
{
    let mut i: usize = 1;
    while i < tsc.len()
        invariant
            1 <= i,
            forall|a: int, b: int| 0 <= a <= b < i && b < tsc.len() ==> tsc@[a] <= tsc@[b],
        decreases tsc.len() - i,
    {
        if tsc[i - 1] > tsc[i] {
            return false;
        }
        i += 1;
    }
    true
}

/// Picks the `(cycle, reference ns)` pair of least sampling jitter from a
/// burst of interleaved readings.
///
/// `ns[g]` is the reference reading taken between the cycle readings
/// `tsc[g]` and `tsc[g + 1]`. The result is the midpoint of the chosen
/// window together with the reading taken inside it. The choice is the
/// first narrowest of the windows from window 1 on; a burst of one
/// window gives that window.
pub fn sync_time(tsc: &[u64], ns: &[u64]) -> (pair: (u64, u64))
    requires
        ns.len() >= 1,
        tsc.len() == ns.len() + 1,
        ascending(tsc@),
    ensures
        pair == best_pair(tsc@, ns@),
{
    let g = narrowest(tsc, ns.len());
    (middle(tsc[g], tsc[g + 1]), ns[g])
}

/// Picks the `(cycle, reference ns)` pair from a burst taken against a
/// reference clock that ticks coarsely, so that runs of equal readings
/// have to be stepped over first.
///
/// The arguments are laid out as for [`sync_time`].
pub fn sync_time_coarse(tsc: &[u64], ns: &[u64]) -> (pair: (u64, u64))
    requires
        ns.len() >= 1,
        tsc.len() == ns.len() + 1,
        ascending(tsc@),
    ensures
        pair == coarse_pair(tsc@, ns@),
{
    let mut kept_tsc: Vec<u64> = Vec::new();
    let mut kept_ns: Vec<u64> = Vec::new();
    let mut q: usize = 1;
    while q < ns.len()
        invariant
            1 <= q <= ns.len(),
            tsc.len() == ns.len() + 1,
            ascending(tsc@),
            kept_tsc@ == pick(tsc@, onsets(ns@, q as nat)),
            kept_ns@ == pick(ns@, onsets(ns@, q as nat)),
            ascending(kept_tsc@),
            forall|k: int| 0 <= k < kept_tsc@.len() ==> kept_tsc@[k] <= tsc@[q - 1],
        decreases ns.len() - q,
    {
        if ns[q] != ns[q - 1] {
            kept_tsc.push(tsc[q]);
            kept_ns.push(ns[q]);
            assert(kept_tsc@ =~= pick(tsc@, onsets(ns@, (q + 1) as nat)));
            assert(kept_ns@ =~= pick(ns@, onsets(ns@, (q + 1) as nat)));
        }
        q += 1;
    }
    if kept_tsc.len() >= 2 {
        let g = narrowest(kept_tsc.as_slice(), kept_tsc.len() - 1);
        (middle(kept_tsc[g], kept_tsc[g + 1]), kept_ns[g])
    } else if kept_tsc.len() == 1 {
        proof {
            lemma_onsets_rise(ns@, ns@.len());
        }
        (middle(kept_tsc[0], tsc[1]), kept_ns[0])
    } else {
        (middle(tsc[0], tsc[1]), ns[0])
    }
}

} // verus!
