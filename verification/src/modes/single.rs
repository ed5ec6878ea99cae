//! The mode of a side that has one participant.
use vstd::prelude::*;
use std::cell::Cell;
use std::sync::atomic::AtomicU32;
use std::sync::atomic::Ordering;
use crate::Error;
use crate::atomic::fence;
use crate::atomic::fetch_or_u32;
use crate::atomic::load_u32;
use crate::atomic::store_u32;
use crate::index::FINISHED;
use crate::index::is_finished_word;
use crate::index::with_mark_of;
use crate::modes::Claim;
use crate::modes::LoadOrder;
use crate::modes::Mode;
use crate::modes::ModeInner;
use crate::modes::Tail;
use crate::modes::load_order;
use crate::modes::reserve;

verus! {

/// `std::cell::Cell`. No value of it is made here: as a type it marks the
/// handles of a [`Single`] side, which can be sent to another thread but not
/// shared between threads.
#[verifier::external_type_specification]
#[verifier::external_body]
#[verifier::reject_recursive_types(T)]
pub struct ExCell<T: ?Sized>(Cell<T>);

/// A side with one participant: nothing else moves its head.
///
/// The head and the tail are atomics all the same: the other side reads the
/// tail, and a handle changes both through a shared reference.
pub struct Single {
    head: AtomicU32,
    tail: AtomicU32,
}

impl Default for Single {
    fn default() -> (mode: Self) {
        Self { head: AtomicU32::new(0), tail: AtomicU32::new(0) }
    }
}

impl Mode for Single {
    type Settings = ();

    type Sharing = Cell<()>;

    fn new_with(settings: ()) -> (mode: Self) {
        Self { head: AtomicU32::new(0), tail: AtomicU32::new(0) }
    }
}

impl Tail for Single {
    fn load_tail(&self, ordering: LoadOrder) -> (tail: u32) {
        load_u32(&self.tail, load_order(ordering))
    }

    fn mark_finished(&self) {
        let _previous: u32 = fetch_or_u32(&self.tail, FINISHED, Ordering::Relaxed);
    }

    fn is_finished(&self) -> (finished: bool) {
        is_finished_word(load_u32(&self.tail, Ordering::Relaxed))
    }
}

impl ModeInner for Single {
    fn move_head<const N: usize, const IS_PROD: bool, const EXACT: bool, Other: Tail>(
        &self,
        other: &Other,
        expected: u32,
    ) -> (claim: Result<Claim, Error>) {
        let old_head = load_u32(&self.head, Ordering::Relaxed);
        // The head is read before the tail of the other side.
        fence(Ordering::Acquire);
        // Pairs with the `Release` store in `update_tail` of the other side.
        let other_tail = other.load_tail(LoadOrder::Acquire);
        match reserve::<N, IS_PROD, EXACT>(old_head, other_tail, expected) {
            Ok((claim, new_head)) => {
                store_u32(&self.head, new_head, Ordering::Relaxed);
                Ok(claim)
            },
            Err(error) => Err(error),
        }
    }

    fn update_tail<const N: usize>(&self, claim: Claim) {
        let new_tail = claim.new_tail::<N>();
        let observed = load_u32(&self.tail, Ordering::Relaxed);
        store_u32(&self.tail, with_mark_of(new_tail, observed), Ordering::Release);
    }
}

} // verus!
