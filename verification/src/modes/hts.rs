//! The mode of a side that lets one participant at a time hold a claim.
use vstd::prelude::*;
use std::sync::atomic::AtomicU64;
use std::sync::atomic::Ordering;
use crate::Error;
use crate::atomic::compare_exchange_weak_u64;
use crate::atomic::fetch_or_u64;
use crate::atomic::load_ordering;
use crate::atomic::load_u64;
use crate::atomic::spin_loop;
use crate::atomic::store_ordering;
use crate::atomic::store_u64;
use crate::hint::cold_path;
use crate::index::high_half;
use crate::index::is_finished_word;
use crate::index::low_half;
use crate::index::pack;
use crate::index::slots;
use crate::index::spec_high;
use crate::index::spec_is_finished;
use crate::index::spec_low;
use crate::index::spec_pack;
use crate::index::spec_with_mark_of;
use crate::index::valid_capacity;
use crate::index::with_mark_of;
use crate::modes::Claim;
use crate::modes::LoadOrder;
use crate::modes::Mode;
use crate::modes::ModeInner;
use crate::modes::PATIENCE;
use crate::modes::Shared;
use crate::modes::Tail;
use crate::modes::busy;
use crate::modes::load_order;
use crate::modes::reserve;
use crate::modes::spec_move_head_allows;
use crate::modes::spec_move_head_error;
use crate::modes::spec_reserve;

verus! {

/// A side with several participants of which one at a time holds a claim.
///
/// The head and the tail share one 64-bit word, the head in its upper half and
/// the tail in its lower half, so that one load shows whether a claim is out:
/// it is, as long as the two differ. The finished mark is the highest bit of
/// the tail.
pub struct HeadTailSync {
    inner: AtomicU64,
}

/// The head and the tail of a side, as one word holds them.
#[derive(Debug, PartialEq, Eq, Structural, Clone, Copy)]
pub struct HeadTail {
    /// The position up to which slots have been reserved.
    pub head: u32,
    /// The position up to which slots have been given back, with the finished
    /// mark.
    pub tail: u32,
}

impl HeadTail {
    /// The word that holds the pair.
    pub open spec fn spec_encode(self) -> u64 {
        spec_pack(self.head, self.tail)
    }

    /// The pair that a word holds.
    pub open spec fn spec_decode(word: u64) -> HeadTail {
        HeadTail { head: spec_high(word), tail: spec_low(word) }
    }

    /// Whether a participant has to wait: a claim is out and the side is not
    /// finished.
    pub open spec fn spec_is_busy(self) -> bool {
        self.head != self.tail && !spec_is_finished(self.tail)
    }

    /// The pair that a word holds.
    pub fn decode(word: u64) -> (pair: HeadTail)
        ensures
            pair == Self::spec_decode(word),
        opens_invariants none
        no_unwind
    {
        HeadTail { head: high_half(word), tail: low_half(word) }
    }

    /// The word that holds the pair.
    pub fn encode(self) -> (word: u64)
        ensures
            word == self.spec_encode(),
        opens_invariants none
        no_unwind
    {
        pack(self.head, self.tail)
    }

    /// The pair after the one claim that was out has come back: head and tail
    /// stand at `new_tail`, and the tail is marked as finished if it was.
    pub fn released(new_tail: u32, old: HeadTail) -> (pair: HeadTail)
        ensures
            pair == (HeadTail { head: new_tail, tail: spec_with_mark_of(new_tail, old.tail) }),
        opens_invariants none
        no_unwind
    {
        HeadTail { head: new_tail, tail: with_mark_of(new_tail, old.tail) }
    }

    /// Whether a participant has to wait before it can reserve slots.
    pub fn is_busy(self) -> (busy: bool)
        ensures
            busy == self.spec_is_busy(),
    {
        self.head != self.tail && !is_finished_word(self.tail)
    }

    /// Decides what a participant does that found the side not busy: the claim
    /// that it may take if it can replace the pair by the new one given with the
    /// claim, or the reason why it takes none.
    ///
    /// The claim starts at the tail, where the head stands too unless the side
    /// is finished. The tail of a finished side carries the mark, and a
    /// request that finds it fails as one that finds a marked head.
    pub fn reserve<const N: usize, const IS_PROD: bool, const EXACT: bool>(
        self,
        other_tail: u32,
        expected: u32,
    ) -> (plan: Result<(Claim, HeadTail), Error>)
        requires
            valid_capacity(N as int),
            expected >= 1,
        ensures
            match spec_reserve(N as int, IS_PROD, EXACT, self.tail, other_tail, expected) {
                Ok((granted, new_head)) => plan matches Ok((claim, next)) && claim.spec_entries()
                    == granted && claim.spec_start() == self.tail && next == (HeadTail {
                    head: new_head,
                    tail: self.tail,
                }),
                Err(error) => plan matches Err(e) && e == error,
            },
            plan matches Ok((claim, next)) ==> spec_move_head_allows(
                N as int,
                IS_PROD,
                EXACT,
                expected,
                Ok(claim),
            ),
            plan matches Err(error) ==> spec_move_head_error(IS_PROD, EXACT, expected, error),
    {
        match reserve::<N, IS_PROD, EXACT>(self.tail, other_tail, expected) {
            Ok((claim, head)) => Ok((claim, HeadTail { head, tail: self.tail })),
            Err(error) => Err(error),
        }
    }
}

impl HeadTailSync {
    /// Reads the head and the tail in one step.
    fn load(&self, order: Ordering) -> (pair: HeadTail)
        requires
            load_ordering(order),
        opens_invariants none
        no_unwind
    {
        HeadTail::decode(load_u64(&self.inner, order))
    }

    /// Overwrites the head and the tail in one step.
    fn store(&self, pair: HeadTail, order: Ordering)
        requires
            store_ordering(order),
        opens_invariants none
        no_unwind
    {
        store_u64(&self.inner, pair.encode(), order);
    }

    /// Replaces the pair by `new` if it is `current`. `Ok` tells that it was
    /// replaced and holds the pair that was there, which is `current`; `Err`
    /// holds the pair that was found instead.
    fn compare_exchange_weak(
        &self,
        current: HeadTail,
        new: HeadTail,
        success: Ordering,
        failure: Ordering,
    ) -> (found: Result<HeadTail, HeadTail>)
        requires
            load_ordering(failure),
        ensures
            found matches Ok(previous) ==> previous == current,
        opens_invariants none
        no_unwind
    {
        match compare_exchange_weak_u64(
            &self.inner,
            current.encode(),
            new.encode(),
            success,
            failure,
        ) {
            Ok(previous) => Ok(HeadTail::decode(previous)),
            Err(previous) => Err(HeadTail::decode(previous)),
        }
    }
}

impl Default for HeadTailSync {
    fn default() -> (mode: Self) {
        Self { inner: AtomicU64::new(0) }
    }
}

impl Mode for HeadTailSync {
    type Settings = ();

    type Sharing = ();

    fn new_with(settings: ()) -> (mode: Self) {
        Self { inner: AtomicU64::new(0) }
    }
}

impl Shared for HeadTailSync {

}

impl Tail for HeadTailSync {
    fn load_tail(&self, ordering: LoadOrder) -> (tail: u32) {
        self.load(load_order(ordering)).tail
    }

    fn mark_finished(&self) {
        let _previous: u64 = fetch_or_u64(&self.inner, 0x8000_0000, Ordering::Relaxed);
    }

    fn is_finished(&self) -> (finished: bool) {
        is_finished_word(self.load(Ordering::Relaxed).tail)
    }
}

impl ModeInner for HeadTailSync {
    fn move_head<const N: usize, const IS_PROD: bool, const EXACT: bool, Other: Tail>(
        &self,
        other: &Other,
        expected: u32,
    ) -> (claim: Result<Claim, Error>) {
        let mut old = self.load(Ordering::Acquire);
        let mut patience: u64 = PATIENCE;
        while patience > 0
            invariant
                valid_capacity(slots::<N>()),
                expected >= 1,
            decreases patience,
        {
            patience = patience - 1;
            if old.is_busy() {
                spin_loop();
                old = self.load(Ordering::Acquire);
                continue ;
            }
            // Pairs with the `Release` store in `update_tail` of the other side.
            let other_tail = other.load_tail(LoadOrder::Acquire);
            match old.reserve::<N, IS_PROD, EXACT>(other_tail, expected) {
                Ok((claim, new)) => {
                    match self.compare_exchange_weak(
                        old,
                        new,
                        Ordering::Acquire,
                        Ordering::Acquire,
                    ) {
                        Ok(_) => {
                            return Ok(claim);
                        },
                        Err(found) => {
                            cold_path();
                            old = found;
                        },
                    }
                },
                Err(error) => {
                    return Err(error);
                },
            }
        }
        Err(busy::<IS_PROD>())
    }

    fn update_tail<const N: usize>(&self, claim: Claim) {
        let new_tail = claim.new_tail::<N>();
        let old = self.load(Ordering::Relaxed);
        self.store(HeadTail::released(new_tail, old), Ordering::Release);
    }
}

} // verus!
