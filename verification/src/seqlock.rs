//! The rule by which a reader and the one writer share three numbers
//! without a lock, and why a reader never keeps a torn triple.
//!
//! A save makes five stores, in this order: the counter, made odd; the
//! three parameters; the counter, made even. A load reads the counter,
//! the three parameters, and the counter again, and keeps what it read
//! only if the counter was even and has not moved.
//!
//! The memory is taken to show each store to every thread at once and in
//! the order in which the writer made it.
use vstd::prelude::*;
use crate::convert::Params;

verus! {

/// A reader may keep what it read between two looks at the counter: the
/// counter was even, so no save was under way, and it has not moved.
pub open spec fn settled(before: usize, after: usize) -> bool {
    before % 2 == 0 && after == before
}

/// Decides whether a load that saw the counter at `before` and then at
/// `after` may be kept.
#[inline(always)]
pub fn is_settled(before: usize, after: usize) -> (keep: bool)
    ensures
        keep == settled(before, after),
{
    before % 2 == 0 && after == before
}

/// What a load hands out: the triple it read, if it may keep it.
pub open spec fn kept(before: usize, read: Params, after: usize) -> Option<Params> {
    if settled(before, after) {
        Some(read)
    } else {
        None
    }
}

/// Ends a load that saw the counter at `before`, then read the triple
/// `read`, then saw the counter at `after`: hands the triple out if it
/// may be kept, and nothing if not.
#[inline(always)]
pub fn keep_if_settled(before: usize, read: Params, after: usize) -> (out: Option<Params>)
    ensures
        out == kept(before, read, after),
{
    if is_settled(before, after) {
        Some(read)
    } else {
        None
    }
}

/// The shared memory at one moment.
pub struct Image {
    pub seq: nat,
    pub base_tsc: u64,
    pub base_ns: u64,
    pub ns_per_tsc: u64,
}

impl Image {
    /// The three parameters as they stand, whole or not.
    pub open spec fn params(self) -> Params {
        Params { base_tsc: self.base_tsc, base_ns: self.base_ns, ns_per_tsc: self.ns_per_tsc }
    }
}

/// What the memory holds once `count` saves are complete: the last of
/// them, or zeros before the first.
pub open spec fn committed(saves: Seq<Params>, count: int) -> Params {
    if count <= 0 {
        Params { base_tsc: 0, base_ns: 0, ns_per_tsc: 0 }
    } else {
        saves[count - 1]
    }
}

/// The memory after the writer, saving `saves` one after the other, has
/// made `stores` stores in all.
///
/// `stores / 5` saves are complete. Of the next one, `stores % 5` stores
/// are made: the first makes the counter odd, the second to fourth write
/// `base_tsc`, `base_ns` and `ns_per_tsc`, and the fifth, which completes
/// it, makes the counter even.
pub open spec fn image_after(saves: Seq<Params>, stores: nat) -> Image {
    let complete = stores as int / 5;
    let under_way = stores as int % 5;
    let old = committed(saves, complete);
    let new = saves[complete];
    Image {
        seq: (2 * complete + if under_way >= 1 { 1int } else { 0 }) as nat,
        base_tsc: if under_way >= 2 { new.base_tsc } else { old.base_tsc },
        base_ns: if under_way >= 3 { new.base_ns } else { old.base_ns },
        ns_per_tsc: if under_way >= 4 { new.ns_per_tsc } else { old.ns_per_tsc },
    }
}

/// What a reader has in hand whose five loads came after `at.0`, `at.1`,
/// `at.2`, `at.3` and `at.4` of the writer's stores: the counter, the
/// three parameters one by one, and the counter again.
pub open spec fn loaded(saves: Seq<Params>, at: (nat, nat, nat, nat, nat)) -> (nat, Params, nat) {
    (
        image_after(saves, at.0).seq,
        Params {
            base_tsc: image_after(saves, at.1).base_tsc,
            base_ns: image_after(saves, at.2).base_ns,
            ns_per_tsc: image_after(saves, at.3).ns_per_tsc,
        },
        image_after(saves, at.4).seq,
    )
}

/// Between saves the memory holds the last complete save, whole, and the
/// counter is even; while a save is under way the counter is odd.
pub proof fn lemma_counter_tells_saves_apart(saves: Seq<Params>, stores: nat)
    ensures
        image_after(saves, stores).seq % 2 == 0 <==> stores % 5 == 0,
        stores % 5 == 0 ==> image_after(saves, stores).params() == committed(
            saves,
            stores as int / 5,
        ),
        image_after(saves, stores).seq <= image_after(saves, stores + 1).seq,
{
}

/// No torn reads: however the five loads of a reader fall between the
/// stores of the writer, a read that is kept holds one triple whole, the
/// one of the last save that was complete at the reader's first load (or
/// zeros, where none was). No save was under way at that moment, and none
/// began before the reader's last load.
pub proof fn lemma_kept_read_is_whole(saves: Seq<Params>, at: (nat, nat, nat, nat, nat))
    requires
        at.0 <= at.1 <= at.2 <= at.3 <= at.4 <= 5 * saves.len(),
        2 * saves.len() <= usize::MAX,
        settled(loaded(saves, at).0 as usize, loaded(saves, at).2 as usize),
    ensures
        at.0 % 5 == 0,
        at.4 == at.0,
        loaded(saves, at).1 == committed(saves, at.0 as int / 5),
        kept(loaded(saves, at).0 as usize, loaded(saves, at).1, loaded(saves, at).2 as usize)
            == Some(committed(saves, at.0 as int / 5)),
        0 <= at.0 as int / 5 <= saves.len(),
{
    let first = at.0 as int;
    let last = at.4 as int;
    assert(first / 5 <= last / 5) by (nonlinear_arith)
        requires
            0 <= first <= last,
    ;
    assert(last / 5 <= saves.len()) by (nonlinear_arith)
        requires
            0 <= last <= 5 * saves.len(),
    ;
}

} // verus!
