//! The shared cell through which the one calibrating thread hands its
//! parameters to any number of reading threads, without a lock.
//!
//! A sequence counter guards the three parameters. The writer makes it odd,
//! writes, and makes it even again; a reader accepts what it has read only
//! if the counter was even before and is the same after. Readers never
//! wait for one another and never write.
use core::sync::atomic::{AtomicU64, AtomicUsize, Ordering};
use crossbeam_utils::CachePadded;
use vstd::prelude::*;
use crate::convert::Params;
use crate::seqlock::keep_if_settled;

verus! {

/// `CachePadded` of crossbeam-utils, a value in a cache line of its own.
/// Nothing inside it is visible here.
#[verifier::external_type_specification]
#[verifier::external_body]
#[verifier::reject_recursive_types(T)]
pub struct ExCachePadded<T>(CachePadded<T>);

/// `CachePadded::new` of crossbeam-utils moves a value into a cell that is
/// aligned to, and fills, a cache line of its own. Nothing is claimed of
/// the cell.
pub assume_specification<T>[ CachePadded::<T>::new ](t: T) -> CachePadded<T>;

/// `Deref::deref` of `CachePadded`: a reference to the value inside the
/// padded cell. Nothing is claimed of it.
#[verifier::external_body]
fn padded_ref(cell: &CachePadded<AtomicUsize>) -> &AtomicUsize {
    core::ops::Deref::deref(cell)
}

/// `core::sync::atomic::fence`, which panics when asked for the ordering
/// `Relaxed` and otherwise only orders memory accesses.
pub assume_specification[ core::sync::atomic::fence ](order: Ordering)
    requires
        order != Ordering::Relaxed,
;

/// The parameters as the threads share them.
pub struct ParamStore {
    seq: CachePadded<AtomicUsize>,
    base_tsc: AtomicU64,
    base_ns: AtomicU64,
    ns_per_tsc: AtomicU64,
}

impl ParamStore {
    /// A store that holds all zeros: a clock that reads 0 at every cycle
    /// count until the first parameters are saved.
    pub fn new() -> (store: Self) {
        ParamStore {
            seq: CachePadded::new(AtomicUsize::new(0)),
            base_tsc: AtomicU64::new(0),
            base_ns: AtomicU64::new(0),
            ns_per_tsc: AtomicU64::new(0),
        }
    }

    /// Publishes new parameters. Only one thread at a time may do so.
    ///
    /// The counter is odd from before the first of the three writes until
    /// after the last.
    pub fn save_param(&self, p: Params) {
        let seq = padded_ref(&self.seq);
        let before = seq.load(Ordering::Relaxed);
        seq.store(before.wrapping_add(1), Ordering::Release);
        core::sync::atomic::fence(Ordering::Release);
        self.base_tsc.store(p.base_tsc, Ordering::Relaxed);
        self.base_ns.store(p.base_ns, Ordering::Relaxed);
        self.ns_per_tsc.store(p.ns_per_tsc, Ordering::Relaxed);
        core::sync::atomic::fence(Ordering::Release);
        seq.store(before.wrapping_add(2), Ordering::Release);
    }

    /// Reads the parameters once. `None` means that a write was under way
    /// or came in between, and that the caller should read again.
    #[inline(always)]
    pub fn try_load(&self) -> (p: Option<Params>) {
        let seq = padded_ref(&self.seq);
        let before = seq.load(Ordering::Acquire);
        core::sync::atomic::fence(Ordering::Acquire);
        let base_tsc = self.base_tsc.load(Ordering::Relaxed);
        let base_ns = self.base_ns.load(Ordering::Relaxed);
        let ns_per_tsc = self.ns_per_tsc.load(Ordering::Relaxed);
        core::sync::atomic::fence(Ordering::Acquire);
        let after = seq.load(Ordering::Acquire);
        keep_if_settled(before, Params { base_tsc, base_ns, ns_per_tsc }, after)
    }
}

} // verus!
