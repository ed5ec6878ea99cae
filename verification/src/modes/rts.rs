//! The mode of a side on which the last participant to finish moves the tail.
use vstd::prelude::*;
use std::sync::atomic::AtomicU64;
use std::sync::atomic::Ordering;
use crate::Error;
use crate::atomic::compare_exchange_weak_u64;
use crate::atomic::fetch_or_u64;
use crate::atomic::load_ordering;
use crate::atomic::load_u64;
use crate::atomic::spin_loop;
use crate::hint::cold_path;
use crate::index::advance;
use crate::index::distance;
use crate::index::high_half;
use crate::index::is_finished_word;
use crate::index::low_half;
use crate::index::pack;
use crate::index::slots;
use crate::index::spec_high;
use crate::index::spec_low;
use crate::index::spec_pack;
use crate::index::spec_with_mark_of;
use crate::index::valid_capacity;
use crate::index::with_mark_of;
use crate::index::wrap;
use crate::modes::Claim;
use crate::modes::LoadOrder;
use crate::modes::Mode;
use crate::modes::ModeInner;
use crate::modes::PATIENCE;
use crate::modes::Shared;
use crate::modes::Tail;
use crate::modes::busy;
use crate::modes::reserve;
use crate::modes::spec_move_head_allows;
use crate::modes::spec_move_head_error;
use crate::modes::spec_reserve;

verus! {

/// A side with several participants that never wait for one another to give
/// their slots back.
///
/// The head and the tail each hold a position and a count. The count of the
/// head grows with every claim that is taken, the count of the tail with every
/// claim that is given back. Who brings the count of the tail up to that of
/// the head was the last with a claim out, and moves the position of the tail
/// to that of the head.
pub struct RelaxedTailSync {
    head: AtomicPosCnt,
    htd_max: u32,
    tail: AtomicPosCnt,
}

/// A position in the ring and a count of claims, as one word holds them.
#[derive(Debug, PartialEq, Eq, Structural, Clone, Copy)]
pub struct PosCnt {
    /// The position; that of a tail carries the finished mark.
    pub pos: u32,
    /// The number of claims taken (head) or given back (tail), modulo the
    /// size of the ring.
    pub cnt: u32,
}

/// The greatest distance that the head of a [`RelaxedTailSync`] side may have
/// from its tail when a claim is taken. It is `u32::MAX` unless chosen.
#[derive(Debug, PartialEq, Eq, Structural, Clone, Copy)]
pub struct MaxHeadTailDistance(u32);

impl MaxHeadTailDistance {
    /// The distance.
    pub closed spec fn spec_get(self) -> u32 {
        self.0
    }

    /// A distance of `distance` slots.
    pub fn new(distance: u32) -> (max: Self)
        requires
            distance >= 1,
        ensures
            max.spec_get() == distance,
    {
        Self(distance)
    }

    /// The distance.
    pub fn get(self) -> (distance: u32)
        ensures
            distance == self.spec_get(),
    {
        self.0
    }
}

impl Default for MaxHeadTailDistance {
    fn default() -> (max: Self)
        ensures
            max.spec_get() == u32::MAX,
    {
        Self(u32::MAX)
    }
}

impl PosCnt {
    /// The word that holds the pair.
    pub open spec fn spec_encode(self) -> u64 {
        spec_pack(self.pos, self.cnt)
    }

    /// The pair that a word holds.
    pub open spec fn spec_decode(word: u64) -> PosCnt {
        PosCnt { pos: spec_high(word), cnt: spec_low(word) }
    }

    /// The head after one more claim has been taken that moved the position
    /// to `new_pos`.
    pub open spec fn spec_claimed(self, n: int, new_pos: u32) -> PosCnt {
        PosCnt { pos: new_pos, cnt: wrap(n, self.cnt + 1) as u32 }
    }

    /// Whether a head is further than `htd_max` slots from a tail.
    pub open spec fn spec_too_far(n: int, head: PosCnt, tail: PosCnt, htd_max: u32) -> bool {
        wrap(n, head.pos - tail.pos) > htd_max
    }

    /// The tail after one more claim has been given back, given the head.
    pub open spec fn spec_release(n: int, tail: PosCnt, head: PosCnt) -> PosCnt {
        let cnt = wrap(n, tail.cnt + 1) as u32;
        PosCnt {
            pos: if cnt == head.cnt {
                spec_with_mark_of(head.pos, tail.pos)
            } else {
                tail.pos
            },
            cnt,
        }
    }

    /// The pair that a word holds.
    pub fn decode(word: u64) -> (pair: PosCnt)
        ensures
            pair == Self::spec_decode(word),
        opens_invariants none
        no_unwind
    {
        PosCnt { pos: high_half(word), cnt: low_half(word) }
    }

    /// The word that holds the pair.
    pub fn encode(self) -> (word: u64)
        ensures
            word == self.spec_encode(),
        opens_invariants none
        no_unwind
    {
        pack(self.pos, self.cnt)
    }

    /// Whether a head is further than `htd_max` slots from a tail, so that a
    /// participant has to wait before it takes a claim.
    pub fn too_far<const N: usize>(head: PosCnt, tail: PosCnt, htd_max: u32) -> (far: bool)
        requires
            valid_capacity(N as int),
        ensures
            far == Self::spec_too_far(N as int, head, tail, htd_max),
    {
        distance::<N>(tail.pos, head.pos) > htd_max
    }

    /// Decides what a participant does that read this head and the tail of
    /// the other side: the claim that it may take if it can replace the head by
    /// the new one given with the claim, or the reason why it takes none.
    pub fn reserve<const N: usize, const IS_PROD: bool, const EXACT: bool>(
        self,
        other_tail: u32,
        expected: u32,
    ) -> (plan: Result<(Claim, PosCnt), Error>)
        requires
            valid_capacity(N as int),
            expected >= 1,
        ensures
            match spec_reserve(N as int, IS_PROD, EXACT, self.pos, other_tail, expected) {
                Ok((granted, new_head)) => plan matches Ok((claim, next)) && claim.spec_entries()
                    == granted && claim.spec_start() == self.pos && next == self.spec_claimed(
                    N as int,
                    new_head,
                ),
                Err(error) => plan matches Err(e) && e == error,
            },
            plan matches Ok((claim, next)) ==> spec_move_head_allows(
                N as int,
                IS_PROD,
                EXACT,
                expected,
                Ok(claim),
            ),
            plan matches Err(error) ==> spec_move_head_error(IS_PROD, EXACT, expected, error),
    {
        match reserve::<N, IS_PROD, EXACT>(self.pos, other_tail, expected) {
            Ok((claim, pos)) => Ok((claim, PosCnt { pos, cnt: advance::<N>(self.cnt, 1) })),
            Err(error) => Err(error),
        }
    }

    /// The tail after one more claim has been given back, given the head: one
    /// more is counted, and if that makes as many as were taken, the position
    /// moves up to that of the head. A tail that is marked as finished stays
    /// marked.
    pub fn release<const N: usize>(tail: PosCnt, head: PosCnt) -> (next: PosCnt)
        requires
            valid_capacity(N as int),
        ensures
            next == Self::spec_release(N as int, tail, head),
        opens_invariants none
        no_unwind
    {
        let cnt = advance::<N>(tail.cnt, 1);
        if cnt == head.cnt {
            PosCnt { pos: with_mark_of(head.pos, tail.pos), cnt }
        } else {
            PosCnt { pos: tail.pos, cnt }
        }
    }
}

/// A [`PosCnt`] that threads share.
pub struct AtomicPosCnt {
    inner: AtomicU64,
}

impl AtomicPosCnt {
    /// A pair at the first slot with no claim counted.
    fn new() -> (pair: Self) {
        Self { inner: AtomicU64::new(0) }
    }

    /// Reads the pair.
    fn load(&self, order: Ordering) -> (pair: PosCnt)
        requires
            load_ordering(order),
        opens_invariants none
        no_unwind
    {
        PosCnt::decode(load_u64(&self.inner, order))
    }

    /// Replaces the pair by `new` if it is `current`. `Ok` tells that it was
    /// replaced and holds the pair that was there, which is `current`; `Err`
    /// holds the pair that was found instead.
    fn compare_exchange_weak(
        &self,
        current: PosCnt,
        new: PosCnt,
        success: Ordering,
        failure: Ordering,
    ) -> (found: Result<PosCnt, PosCnt>)
        requires
            load_ordering(failure),
        ensures
            found matches Ok(previous) ==> previous == current,
        opens_invariants none
        no_unwind
    {
        match compare_exchange_weak_u64(
            &self.inner,
            current.encode(),
            new.encode(),
            success,
            failure,
        ) {
            Ok(previous) => Ok(PosCnt::decode(previous)),
            Err(previous) => Err(PosCnt::decode(previous)),
        }
    }
}

impl RelaxedTailSync {
    /// The greatest distance between head and tail at which a claim is taken.
    pub closed spec fn spec_htd_max(self) -> u32 {
        self.htd_max
    }

    /// A side whose head may be up to `htd_max` slots ahead of its tail when a
    /// claim is taken.
    pub fn new(htd_max: u32) -> (mode: Self)
        requires
            htd_max >= 1,
        ensures
            mode.spec_htd_max() == htd_max,
    {
        Self { head: AtomicPosCnt::new(), htd_max, tail: AtomicPosCnt::new() }
    }
}

impl Default for RelaxedTailSync {
    fn default() -> (mode: Self)
        ensures
            mode.spec_htd_max() == u32::MAX,
    {
        Self::new(u32::MAX)
    }
}

impl Mode for RelaxedTailSync {
    type Settings = MaxHeadTailDistance;

    type Sharing = ();

    fn new_with(settings: MaxHeadTailDistance) -> (mode: Self)
        ensures
            mode.spec_htd_max() == settings.spec_get(),
    {
        Self { head: AtomicPosCnt::new(), htd_max: settings.get(), tail: AtomicPosCnt::new() }
    }
}

impl Shared for RelaxedTailSync {

}

impl Tail for RelaxedTailSync {
    fn load_tail(&self, ordering: LoadOrder) -> (tail: u32) {
        self.tail.load(crate::modes::load_order(ordering)).pos
    }

    fn mark_finished(&self) {
        let _previous: u64 = fetch_or_u64(
            &self.tail.inner,
            0x8000_0000_0000_0000,
            Ordering::Relaxed,
        );
    }

    fn is_finished(&self) -> (finished: bool) {
        is_finished_word(self.tail.load(Ordering::Relaxed).pos)
    }
}

impl ModeInner for RelaxedTailSync {
    fn move_head<const N: usize, const IS_PROD: bool, const EXACT: bool, Other: Tail>(
        &self,
        other: &Other,
        expected: u32,
    ) -> (claim: Result<Claim, Error>) {
        let mut old_head = self.head.load(Ordering::Acquire);
        let mut patience: u64 = PATIENCE;
        while patience > 0
            invariant
                valid_capacity(slots::<N>()),
                expected >= 1,
            decreases patience,
        {
            patience = patience - 1;
            if PosCnt::too_far::<N>(old_head, self.tail.load(Ordering::Acquire), self.htd_max) {
                spin_loop();
                old_head = self.head.load(Ordering::Acquire);
                continue ;
            }
            // Pairs with the `Release` store in `update_tail` of the other side.
            let other_tail = other.load_tail(LoadOrder::Acquire);
            match old_head.reserve::<N, IS_PROD, EXACT>(other_tail, expected) {
                Ok((claim, new_head)) => {
                    match self.head.compare_exchange_weak(
                        old_head,
                        new_head,
                        Ordering::Acquire,
                        Ordering::Acquire,
                    ) {
                        Ok(_) => {
                            return Ok(claim);
                        },
                        Err(found) => {
                            cold_path();
                            old_head = found;
                        },
                    }
                },
                Err(error) => {
                    return Err(error);
                },
            }
        }
        Err(busy::<IS_PROD>())
    }

    fn update_tail<const N: usize>(&self, claim: Claim) {
        let mut old_tail = self.tail.load(Ordering::Acquire);
        let _end: u32 = claim.new_tail::<N>();
        let mut patience: u64 = PATIENCE;
        while patience > 0
            invariant
                valid_capacity(slots::<N>()),
            decreases patience,
        {
            patience = patience - 1;
            let head = self.head.load(Ordering::Relaxed);
            let new_tail = PosCnt::release::<N>(old_tail, head);
            match self.tail.compare_exchange_weak(
                old_tail,
                new_tail,
                Ordering::Release,
                Ordering::Acquire,
            ) {
                Ok(_) => {
                    return ;
                },
                Err(found) => {
                    cold_path();
                    old_tail = found;
                },
            }
        }
    }
}

} // verus!
