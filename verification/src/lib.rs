//! A nanosecond clock read from the CPU's cycle counter.
//!
//! Cycles are turned into nanoseconds by a linear model,
//! `ns = base_ns + (cycles - base_tsc) * ns_per_tsc`, whose parameters are
//! fitted against a reference clock and refitted at regular intervals.
//!
//! - [`sample`] chooses, from a burst of interleaved readings of the
//!   counter and the reference clock, the pair with the least jitter.
//! - [`convert`] is the model itself: parameters and a cycle count in,
//!   nanoseconds out.
//! - [`calibrator`] starts the model from two pairs and refits its slope
//!   with every later one.
//! - [`store`] hands the parameters from the one calibrating thread to the
//!   reading threads without a lock; [`seqlock`] holds the rule it goes by.
//! - [`refclock`] reads the reference clock.
//! - [`timeline`] states what holds of the clock over time.
//!
//! Reading the counter itself is left to the caller, who hands in cycle
//! counts as plain numbers.
use vstd::prelude::*;

pub mod calibrator;
pub mod convert;
pub mod refclock;
pub mod sample;
pub mod seqlock;
pub mod store;
pub mod timeline;

pub use calibrator::{
    calibrate, init, init_wait_is_over, pass, start, CalibrationState, Calibrator,
};
pub use convert::{read_nanos, Params, SLOPE_ONE};
pub use refclock::read_sys_nanos;
pub use sample::{is_ascending, sync_time, sync_time_coarse};
pub use store::ParamStore;

verus! {

/// Default length of the measurement that starts the clock: 20 ms.
pub const INIT_CALIBRATE_NANOS: u64 = 20_000_000;

/// Default time between two calibration passes: 3 s.
pub const CALIBRATE_INTERVAL_NANOS: u64 = 3_000_000_000;

} // verus!
