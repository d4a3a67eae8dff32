//! What holds of the clock over time: over any run of readings and
//! calibration passes, and from a burst of samples to the pass made with
//! the pair chosen from it.
use vstd::prelude::*;
use crate::calibrator::{calibrated, CalibrationState};
use crate::convert::{lemma_nanos_non_decreasing, lemma_nanos_not_below_base, nanos_at};
use crate::sample::{
    best_pair, best_window, coarse_pair, lemma_best_window_is_first_narrowest,
    lemma_constant_readings_have_no_onset, onsets,
};

verus! {

/// One thing that happens to the clock.
pub enum Step {
    /// The clock is read at this cycle count.
    Read(u64),
    /// A calibration pass is made with this `(cycle, reference ns)` pair.
    Pass((u64, u64)),
}

impl Step {
    /// The cycle count at which the step happens.
    pub open spec fn cycles(self) -> u64 {
        match self {
            Step::Read(cycles) => cycles,
            Step::Pass(sample) => sample.0,
        }
    }
}

/// The cycle counter never steps back from one step to a later one.
pub open spec fn in_order(steps: Seq<Step>) -> bool {
    forall|i: int, j: int| 0 <= i <= j < steps.len() ==> steps[i].cycles() <= steps[j].cycles()
}

/// The state that one step leaves behind.
pub open spec fn state_after_step(s: CalibrationState, step: Step) -> CalibrationState {
    match step {
        Step::Read(_) => s,
        Step::Pass(sample) => calibrated(s, sample),
    }
}

/// The state after all of `steps`, starting from `s`.
pub open spec fn state_after(s: CalibrationState, steps: Seq<Step>) -> CalibrationState
    decreases steps.len(),
{
    if steps.len() == 0 {
        s
    } else {
        state_after_step(state_after(s, steps.drop_last()), steps.last())
    }
}

/// What the clock shows when step `i` happens: the reading that a `Read`
/// returns, and the value that a `Pass` starts from.
pub open spec fn shown_at(s: CalibrationState, steps: Seq<Step>, i: int) -> u64 {
    nanos_at(state_after(s, steps.take(i)).params(), steps[i].cycles())
}

/// From one step to the next the clock does not go back.
proof fn lemma_next_step_not_earlier(s: CalibrationState, steps: Seq<Step>, i: int)
    requires
        in_order(steps),
        0 <= i,
        i + 1 < steps.len(),
    ensures
        shown_at(s, steps, i) <= shown_at(s, steps, i + 1),
{
    let before = state_after(s, steps.take(i));
    let upto = steps.take(i + 1);
    assert(upto.drop_last() =~= steps.take(i));
    assert(upto.last() == steps[i]);
    let after = state_after(s, upto);
    assert(after == state_after_step(before, steps[i]));
    let here = steps[i].cycles();
    let there = steps[i + 1].cycles();
    lemma_nanos_non_decreasing(before.params(), here, there);
    lemma_nanos_not_below_base(after.params(), there);
}

/// Over any run of readings and calibration passes on a cycle counter
/// that never steps back, the clock never steps back: what it shows at a
/// later step is at least what it showed at any earlier one.
pub proof fn lemma_clock_never_steps_back(
    s: CalibrationState,
    steps: Seq<Step>,
    earlier: int,
    later: int,
)
    requires
        in_order(steps),
        0 <= earlier <= later < steps.len(),
    ensures
        shown_at(s, steps, earlier) <= shown_at(s, steps, later),
    decreases later - earlier,
{
    if earlier < later {
        lemma_clock_never_steps_back(s, steps, earlier, later - 1);
        lemma_next_step_not_earlier(s, steps, later - 1);
    }
}

/// A burst in which the reference clock read 0 throughout yields a pair
/// whose reference value is 0, by either way of choosing, and a pass made
/// with that pair leaves the state, and with it the slope, as it was.
pub proof fn lemma_silent_burst_changes_nothing(s: CalibrationState, tsc: Seq<u64>, ns: Seq<u64>)
    requires
        ns.len() >= 1,
        tsc.len() == ns.len() + 1,
        forall|i: int| 0 <= i < ns.len() ==> #[trigger] ns[i] == 0,
    ensures
        best_pair(tsc, ns).1 == 0,
        coarse_pair(tsc, ns).1 == 0,
        calibrated(s, best_pair(tsc, ns)) == s,
        calibrated(s, coarse_pair(tsc, ns)) == s,
{
    lemma_best_window_is_first_narrowest(tsc, ns.len());
    assert(ns[best_window(tsc, ns.len())] == 0);
    lemma_constant_readings_have_no_onset(ns, ns.len());
    assert(onsets(ns, ns.len()).len() == 0);
    assert(ns[0] == 0);
}

} // verus!
