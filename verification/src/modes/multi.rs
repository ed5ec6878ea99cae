//! The mode of a side whose participants race for the head.
use vstd::prelude::*;
use std::sync::atomic::AtomicU32;
use std::sync::atomic::Ordering;
use crate::Error;
use crate::atomic::compare_exchange_weak_u32;
use crate::atomic::fence;
use crate::atomic::fetch_or_u32;
use crate::atomic::load_u32;
use crate::atomic::spin_loop;
use crate::atomic::store_u32;
use crate::hint::cold_path;
use crate::index::FINISHED;
use crate::index::is_finished_word;
use crate::index::slots;
use crate::index::position_of;
use crate::index::valid_capacity;
use crate::index::with_mark_of;
use crate::modes::Claim;
use crate::modes::LoadOrder;
use crate::modes::Mode;
use crate::modes::ModeInner;
use crate::modes::PATIENCE;
use crate::modes::Shared;
use crate::modes::Tail;
use crate::modes::busy;
use crate::modes::load_order;
use crate::modes::reserve;

verus! {

/// A side with several participants.
///
/// Each moves the head by compare-and-swap to get its slots. To give them
/// back it waits until the tail has reached the start of its claim, so the
/// claims are released in the order in which they were taken.
pub struct Multi {
    head: AtomicU32,
    tail: AtomicU32,
}

impl Default for Multi {
    fn default() -> (mode: Self) {
        Self { head: AtomicU32::new(0), tail: AtomicU32::new(0) }
    }
}

impl Mode for Multi {
    type Settings = ();

    type Sharing = ();

    fn new_with(settings: ()) -> (mode: Self) {
        Self { head: AtomicU32::new(0), tail: AtomicU32::new(0) }
    }
}

impl Shared for Multi {

}

impl Tail for Multi {
    fn load_tail(&self, ordering: LoadOrder) -> (tail: u32) {
        load_u32(&self.tail, load_order(ordering))
    }

    fn mark_finished(&self) {
        let _previous: u32 = fetch_or_u32(&self.tail, FINISHED, Ordering::Relaxed);
    }

    fn is_finished(&self) -> (finished: bool) {
        is_finished_word(load_u32(&self.tail, Ordering::Relaxed))
    }
}

impl ModeInner for Multi {
    fn move_head<const N: usize, const IS_PROD: bool, const EXACT: bool, Other: Tail>(
        &self,
        other: &Other,
        expected: u32,
    ) -> (claim: Result<Claim, Error>) {
        let mut old_head = load_u32(&self.head, Ordering::Relaxed);
        let mut patience: u64 = PATIENCE;
        while patience > 0
            invariant
                valid_capacity(slots::<N>()),
                expected >= 1,
            decreases patience,
        {
            patience = patience - 1;
            // The head is read before the tail of the other side.
            fence(Ordering::Acquire);
            // Pairs with the `Release` store in `update_tail` of the other side.
            let other_tail = other.load_tail(LoadOrder::Acquire);
            match reserve::<N, IS_PROD, EXACT>(old_head, other_tail, expected) {
                Ok((claim, new_head)) => {
                    match compare_exchange_weak_u32(
                        &self.head,
                        old_head,
                        new_head,
                        Ordering::Relaxed,
                        Ordering::Relaxed,
                    ) {
                        Ok(_) => {
                            return Ok(claim);
                        },
                        Err(found) => {
                            cold_path();
                            old_head = found;
                        },
                    }
                },
                Err(error) => {
                    return Err(error);
                },
            }
        }
        Err(busy::<IS_PROD>())
    }

    fn update_tail<const N: usize>(&self, claim: Claim) {
        let start = claim.start();
        let new_tail = claim.new_tail::<N>();
        let mut patience: u64 = PATIENCE;
        while patience > 0
            decreases patience,
        {
            patience = patience - 1;
            let observed = load_u32(&self.tail, Ordering::Relaxed);
            if position_of(observed) == start {
                store_u32(&self.tail, with_mark_of(new_tail, observed), Ordering::Release);
                return ;
            }
            spin_loop();
        }
    }
}

} // verus!
