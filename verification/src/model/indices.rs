//! The four indices of a ring, followed through the steps in which
//! participants change them, one step at a time and in any order.
use vstd::prelude::*;
use crate::index::lemma_capacity_bounds;
use crate::index::lemma_wrap_complement;
use crate::index::lemma_wrap_shift;
use crate::index::lemma_wrap_small;
use crate::index::lemma_wrap_wrap;
use crate::index::valid_capacity;
use crate::index::wrap;
use crate::modes::Claim;
use crate::modes::spec_available;
use crate::modes::spec_reserve;

verus! {


/// Where the heads and the tails of a ring stand, without the finished marks.
pub struct Indices {
    /// Up to here the producers have reserved slots.
    pub prod_head: u32,
    /// Up to here the producers have written values and given the slots back.
    pub prod_tail: u32,
    /// Up to here the consumers have reserved values.
    pub cons_head: u32,
    /// Up to here the consumers have read values and given the slots back.
    pub cons_tail: u32,
}

impl Indices {
    /// The number of slots that producers hold under a claim.
    pub open spec fn writing(self, n: int) -> int {
        wrap(n, self.prod_head - self.prod_tail)
    }

    /// The number of slots whose values wait for a consumer.
    pub open spec fn ready(self, n: int) -> int {
        wrap(n, self.prod_tail - self.cons_head)
    }

    /// The number of slots that consumers hold under a claim.
    pub open spec fn reading(self, n: int) -> int {
        wrap(n, self.cons_head - self.cons_tail)
    }

    /// The number of slots that are not free: every slot that holds a value is
    /// among them.
    pub open spec fn occupied(self, n: int) -> int {
        self.writing(n) + self.ready(n) + self.reading(n)
    }

    /// The indices lie in the ring, and going round from the consumers' tail
    /// one meets the consumers' head, the producers' tail and the producers'
    /// head in this order before the consumers' tail comes again.
    pub open spec fn inv(self, n: int) -> bool {
        &&& valid_capacity(n)
        &&& self.prod_head < n
        &&& self.prod_tail < n
        &&& self.cons_head < n
        &&& self.cons_tail < n
        &&& self.occupied(n) <= n - 1
    }

    /// The indices of a new ring.
    pub open spec fn initial() -> Indices {
        Indices { prod_head: 0, prod_tail: 0, cons_head: 0, cons_tail: 0 }
    }

    /// The indices after a producer has moved the head to `new_head`.
    pub open spec fn producer_claimed(self, new_head: u32) -> Indices {
        Indices { prod_head: new_head, ..self }
    }

    /// The indices after a producer has moved the tail to `new_tail`.
    pub open spec fn producer_returned(self, new_tail: u32) -> Indices {
        Indices { prod_tail: new_tail, ..self }
    }

    /// The indices after a consumer has moved the head to `new_head`.
    pub open spec fn consumer_claimed(self, new_head: u32) -> Indices {
        Indices { cons_head: new_head, ..self }
    }

    /// The indices after a consumer has moved the tail to `new_tail`.
    pub open spec fn consumer_returned(self, new_tail: u32) -> Indices {
        Indices { cons_tail: new_tail, ..self }
    }
}

/// A new ring is in order and nothing in it is occupied.
pub proof fn lemma_initial(n: int)
    requires
        valid_capacity(n),
    ensures
        Indices::initial().inv(n),
        Indices::initial().occupied(n) == 0,
{
    lemma_capacity_bounds(n);
    lemma_wrap_small(n, 0);
}

/// What a producer finds available is the room that is left: all slots but
/// one, less those that are occupied. What a consumer finds available are the
/// values that wait.
pub proof fn lemma_available(n: int, at: Indices)
    requires
        at.inv(n),
    ensures
        spec_available(n, true, at.prod_head, at.cons_tail) == n - 1 - at.occupied(n),
        spec_available(n, false, at.cons_head, at.prod_tail) == at.ready(n),
        wrap(n, at.prod_head - at.cons_tail) == at.occupied(n),
{
    lemma_capacity_bounds(n);
    let w = at.prod_head - at.prod_tail;
    let r = at.prod_tail - at.cons_head;
    let d = at.cons_head - at.cons_tail;
    lemma_wrap_wrap(n, w, 0);
    lemma_wrap_wrap(n, r, 0);
    lemma_wrap_wrap(n, d, 0);
    // The three stretches add up without going once round.
    lemma_wrap_wrap(n, r, wrap(n, d));
    lemma_wrap_wrap(n, d, r);
    lemma_wrap_small(n, wrap(n, r) + wrap(n, d));
    assert(wrap(n, r + d) == wrap(n, r) + wrap(n, d));
    lemma_wrap_wrap(n, w, wrap(n, r + d));
    lemma_wrap_wrap(n, r + d, w);
    lemma_wrap_small(n, wrap(n, w) + wrap(n, r + d));
    assert(wrap(n, w + (r + d)) == at.occupied(n));
    assert(w + (r + d) == at.prod_head - at.cons_tail);
    lemma_wrap_complement(n, n - 1, at.prod_head - at.cons_tail);
    assert(n - 1 - (at.prod_head - at.cons_tail) == n - 1 + at.cons_tail - at.prod_head);
    lemma_wrap_small(0x8000_0000, at.cons_tail as int);
    lemma_wrap_small(0x8000_0000, at.prod_tail as int);
}

/// No oversubscription when a producer takes a claim: whatever a producer is
/// granted fits into the room that is left, so that afterwards no more than all
/// slots but one are occupied. The slots granted are added to those that
/// producers hold.
pub proof fn lemma_producer_claim(
    n: int,
    at: Indices,
    exact: bool,
    expected: u32,
    granted: u32,
    new_head: u32,
)
    requires
        at.inv(n),
        spec_reserve(n, true, exact, at.prod_head, at.cons_tail, expected) == Ok::<
            (u32, u32),
            crate::Error,
        >((granted, new_head)),
    ensures
        at.producer_claimed(new_head).inv(n),
        at.producer_claimed(new_head).writing(n) == at.writing(n) + granted,
        at.producer_claimed(new_head).ready(n) == at.ready(n),
        at.producer_claimed(new_head).reading(n) == at.reading(n),
        at.producer_claimed(new_head).occupied(n) == at.occupied(n) + granted <= n - 1,
{
    lemma_capacity_bounds(n);
    lemma_available(n, at);
    lemma_wrap_wrap(n, at.prod_head + granted, -at.prod_tail);
    lemma_wrap_shift(n, at.prod_head - at.prod_tail, granted as int);
    assert(at.prod_head + granted - at.prod_tail == at.prod_head - at.prod_tail + granted);
}

/// A consumer is granted no more values than wait. They pass from those that
/// wait to those that consumers hold, and nothing else changes.
pub proof fn lemma_consumer_claim(
    n: int,
    at: Indices,
    exact: bool,
    expected: u32,
    granted: u32,
    new_head: u32,
)
    requires
        at.inv(n),
        spec_reserve(n, false, exact, at.cons_head, at.prod_tail, expected) == Ok::<
            (u32, u32),
            crate::Error,
        >((granted, new_head)),
    ensures
        at.consumer_claimed(new_head).inv(n),
        at.consumer_claimed(new_head).writing(n) == at.writing(n),
        at.consumer_claimed(new_head).ready(n) == at.ready(n) - granted >= 0,
        at.consumer_claimed(new_head).reading(n) == at.reading(n) + granted,
        at.consumer_claimed(new_head).occupied(n) == at.occupied(n),
{
    lemma_capacity_bounds(n);
    lemma_available(n, at);
    lemma_wrap_wrap(n, at.cons_head + granted, -at.cons_tail);
    lemma_wrap_shift(n, at.cons_head - at.cons_tail, granted as int);
    assert(at.cons_head + granted - at.cons_tail == at.cons_head - at.cons_tail + granted);
    lemma_wrap_wrap(n, at.cons_head + granted, at.prod_tail as int);
    lemma_wrap_shift(n, at.prod_tail - at.cons_head, -(granted as int));
    assert(at.prod_tail - (at.cons_head + granted) == at.prod_tail - at.cons_head + (-(
    granted as int)));
}

/// A producer that returns the claim at the tail turns the slots of the claim
/// from slots that producers hold into values that wait.
pub proof fn lemma_producer_return(n: int, at: Indices, claim: Claim)
    requires
        at.inv(n),
        claim.spec_start() == at.prod_tail,
        1 <= claim.spec_entries() <= at.writing(n),
    ensures
        at.producer_returned(claim.spec_new_tail(n) as u32).inv(n),
        at.producer_returned(claim.spec_new_tail(n) as u32).writing(n) == at.writing(n)
            - claim.spec_entries(),
        at.producer_returned(claim.spec_new_tail(n) as u32).ready(n) == at.ready(n)
            + claim.spec_entries(),
        at.producer_returned(claim.spec_new_tail(n) as u32).reading(n) == at.reading(n),
        at.producer_returned(claim.spec_new_tail(n) as u32).occupied(n) == at.occupied(n),
{
    lemma_capacity_bounds(n);
    let e = claim.spec_entries() as int;
    lemma_wrap_wrap(n, at.prod_tail + e, -at.cons_head);
    lemma_wrap_shift(n, at.prod_tail - at.cons_head, e);
    assert(at.prod_tail + e - at.cons_head == at.prod_tail - at.cons_head + e);
    lemma_wrap_wrap(n, at.prod_tail + e, at.prod_head as int);
    lemma_wrap_shift(n, at.prod_head - at.prod_tail, -e);
    assert(at.prod_head - (at.prod_tail + e) == at.prod_head - at.prod_tail + (-e));
}

/// A consumer that returns the claim at the tail sets the slots of the claim
/// free.
pub proof fn lemma_consumer_return(n: int, at: Indices, claim: Claim)
    requires
        at.inv(n),
        claim.spec_start() == at.cons_tail,
        1 <= claim.spec_entries() <= at.reading(n),
    ensures
        at.consumer_returned(claim.spec_new_tail(n) as u32).inv(n),
        at.consumer_returned(claim.spec_new_tail(n) as u32).writing(n) == at.writing(n),
        at.consumer_returned(claim.spec_new_tail(n) as u32).ready(n) == at.ready(n),
        at.consumer_returned(claim.spec_new_tail(n) as u32).reading(n) == at.reading(n)
            - claim.spec_entries(),
        at.consumer_returned(claim.spec_new_tail(n) as u32).occupied(n) == at.occupied(n)
            - claim.spec_entries(),
{
    lemma_capacity_bounds(n);
    let e = claim.spec_entries() as int;
    lemma_wrap_wrap(n, at.cons_tail + e, at.cons_head as int);
    lemma_wrap_shift(n, at.cons_head - at.cons_tail, -e);
    assert(at.cons_head - (at.cons_tail + e) == at.cons_head - at.cons_tail + (-e));
}

/// A producer that moves the tail up to the head, as the last of several to
/// come back does on a side with a relaxed tail, turns all slots that
/// producers held into values that wait.
pub proof fn lemma_producer_return_all(n: int, at: Indices)
    requires
        at.inv(n),
    ensures
        at.producer_returned(at.prod_head).inv(n),
        at.producer_returned(at.prod_head).writing(n) == 0,
        at.producer_returned(at.prod_head).ready(n) == at.ready(n) + at.writing(n),
        at.producer_returned(at.prod_head).reading(n) == at.reading(n),
        at.producer_returned(at.prod_head).occupied(n) == at.occupied(n),
{
    lemma_capacity_bounds(n);
    lemma_wrap_small(n, 0);
    let w = at.prod_head - at.prod_tail;
    let r = at.prod_tail - at.cons_head;
    lemma_wrap_wrap(n, w, 0);
    lemma_wrap_wrap(n, r, 0);
    lemma_wrap_wrap(n, w, wrap(n, r));
    lemma_wrap_wrap(n, r, w);
    lemma_wrap_small(n, wrap(n, w) + wrap(n, r));
    assert(w + r == at.prod_head - at.cons_head);
}

/// A consumer that moves the tail up to the head sets all slots free that
/// consumers held.
pub proof fn lemma_consumer_return_all(n: int, at: Indices)
    requires
        at.inv(n),
    ensures
        at.consumer_returned(at.cons_head).inv(n),
        at.consumer_returned(at.cons_head).writing(n) == at.writing(n),
        at.consumer_returned(at.cons_head).ready(n) == at.ready(n),
        at.consumer_returned(at.cons_head).reading(n) == 0,
        at.consumer_returned(at.cons_head).occupied(n) == at.occupied(n) - at.reading(n),
{
    lemma_capacity_bounds(n);
    lemma_wrap_small(n, 0);
    lemma_wrap_wrap(n, at.cons_head - at.cons_tail, 0);
}

/// A step in which one participant moves one index.
pub enum Move {
    /// A producer asks for `expected` slots, that many or none if `exact`, and
    /// moves the head by what it is granted.
    ProducerClaims { exact: bool, expected: u32 },
    /// The producer whose claim of `entries` slots starts at the tail moves
    /// the tail past the claim.
    ProducerReturns { entries: u32 },
    /// The last producer with a claim out moves the tail up to the head.
    ProducerReturnsAll,
    /// A consumer asks for `expected` values, that many or none if `exact`,
    /// and moves the head by what it is granted.
    ConsumerClaims { exact: bool, expected: u32 },
    /// The consumer whose claim of `entries` values starts at the tail moves
    /// the tail past the claim.
    ConsumerReturns { entries: u32 },
    /// The last consumer with a claim out moves the tail up to the head.
    ConsumerReturnsAll,
}

impl Indices {
    /// The indices after `step`. A step that the protocol does not allow, a
    /// claim that is not granted or the return of more than is held, leaves
    /// them as they are.
    pub open spec fn step(self, n: int, step: Move) -> Indices {
        match step {
            Move::ProducerClaims { exact, expected } => match spec_reserve(
                n,
                true,
                exact,
                self.prod_head,
                self.cons_tail,
                expected,
            ) {
                Ok((_, new_head)) => self.producer_claimed(new_head),
                Err(_) => self,
            },
            Move::ProducerReturns { entries } => if 1 <= entries <= self.writing(n) {
                self.producer_returned(wrap(n, self.prod_tail + entries) as u32)
            } else {
                self
            },
            Move::ProducerReturnsAll => self.producer_returned(self.prod_head),
            Move::ConsumerClaims { exact, expected } => match spec_reserve(
                n,
                false,
                exact,
                self.cons_head,
                self.prod_tail,
                expected,
            ) {
                Ok((_, new_head)) => self.consumer_claimed(new_head),
                Err(_) => self,
            },
            Move::ConsumerReturns { entries } => if 1 <= entries <= self.reading(n) {
                self.consumer_returned(wrap(n, self.cons_tail + entries) as u32)
            } else {
                self
            },
            Move::ConsumerReturnsAll => self.consumer_returned(self.cons_head),
        }
    }

    /// The indices after the steps of `moves`, one after the other.
    pub open spec fn after(self, n: int, moves: Seq<Move>) -> Indices
        decreases moves.len(),
    {
        if moves.len() == 0 {
            self
        } else {
            self.after(n, moves.drop_last()).step(n, moves.last())
        }
    }
}

/// No oversubscription. However the steps of producers and consumers follow
/// one another on a new ring, at every instant at most all slots but one are
/// occupied.
pub proof fn lemma_never_oversubscribed(n: int, moves: Seq<Move>)
    requires
        valid_capacity(n),
    ensures
        Indices::initial().after(n, moves).inv(n),
        Indices::initial().after(n, moves).occupied(n) <= n - 1,
    decreases moves.len(),
{
    lemma_initial(n);
    if moves.len() > 0 {
        lemma_never_oversubscribed(n, moves.drop_last());
        lemma_step(n, Indices::initial().after(n, moves.drop_last()), moves.last());
    }
}

/// Every step leaves the indices in order.
pub proof fn lemma_step(n: int, at: Indices, step: Move)
    requires
        at.inv(n),
    ensures
        at.step(n, step).inv(n),
{
    lemma_capacity_bounds(n);
    match step {
        Move::ProducerClaims { exact, expected } => {
            match spec_reserve(n, true, exact, at.prod_head, at.cons_tail, expected) {
                Ok((granted, new_head)) => {
                    lemma_producer_claim(n, at, exact, expected, granted, new_head);
                },
                Err(_) => {},
            }
        },
        Move::ProducerReturns { entries } => {
            if 1 <= entries <= at.writing(n) {
                lemma_wrap_wrap(n, at.prod_head - at.prod_tail, 0);
                Claim::lemma_many(entries, at.prod_tail);
                lemma_producer_return(n, at, Claim::spec_many(entries, at.prod_tail));
            }
        },
        Move::ProducerReturnsAll => {
            lemma_producer_return_all(n, at);
        },
        Move::ConsumerClaims { exact, expected } => {
            match spec_reserve(n, false, exact, at.cons_head, at.prod_tail, expected) {
                Ok((granted, new_head)) => {
                    lemma_consumer_claim(n, at, exact, expected, granted, new_head);
                },
                Err(_) => {},
            }
        },
        Move::ConsumerReturns { entries } => {
            if 1 <= entries <= at.reading(n) {
                Claim::lemma_many(entries, at.cons_tail);
                lemma_consumer_return(n, at, Claim::spec_many(entries, at.cons_tail));
            }
        },
        Move::ConsumerReturnsAll => {
            lemma_consumer_return_all(n, at);
        },
    }
}

} // verus!
