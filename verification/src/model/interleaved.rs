//! The values of a ring, followed through the steps of producers and
//! consumers that work at the same time.
//!
//! A producer takes a claim, writes its values into the slots of the claim
//! one by one, and gives the claim back; a consumer takes a claim, reads the
//! values of its slots one by one, and gives the claim back. The steps of
//! different participants follow one another in any order. Every slot that
//! was ever claimed has a place in the order in which the producers claimed
//! them; what is shown is that the value read at a place is the value that
//! was sent for it.
use vstd::prelude::*;
use crate::index::lemma_capacity_bounds;
use crate::index::lemma_distinct_slots;
use crate::index::lemma_wrap_small;
use crate::index::lemma_wrap_wrap;
use crate::index::valid_capacity;
use crate::index::wrap;
use crate::model::indices::Indices;
use crate::model::indices::lemma_available;
use crate::model::indices::lemma_consumer_claim;
use crate::model::indices::lemma_consumer_return;
use crate::model::indices::lemma_consumer_return_all;
use crate::model::indices::lemma_initial;
use crate::model::indices::lemma_producer_claim;
use crate::model::indices::lemma_producer_return;
use crate::model::indices::lemma_producer_return_all;
use crate::modes::Claim;
use crate::modes::spec_reserve;
use crate::ring::spec_request;

verus! {

/// A ring with claims out.
///
/// The places count the slots in the order in which producers claimed them,
/// from the making of the ring on: place `k` is the slot `wrap(n, k)`.
pub struct Traffic<T> {
    /// Where the heads and the tails stand.
    pub at: Indices,
    /// What the slots hold.
    pub slots: Seq<Option<T>>,
    /// The number of places that producers have claimed.
    pub claimed: nat,
    /// The number of places that producers have given back.
    pub published: nat,
    /// The number of places that consumers have claimed.
    pub reserved: nat,
    /// The number of places that consumers have given back.
    pub freed: nat,
    /// The values that were sent, each at the place that was claimed for it.
    pub produced: Seq<T>,
    /// The places whose value was written.
    pub written: Set<nat>,
    /// The places whose value was read.
    pub read: Set<nat>,
    /// The values that were read, each at the place that it was read from.
    pub delivered: Map<nat, T>,
}

/// A step of one participant.
pub enum Event<T> {
    /// A producer asks for room for `values`, for all or none if `exact`, and
    /// claims the places for those that it gets room for.
    Claim { exact: bool, values: Seq<T> },
    /// A producer writes the value of a place that it has claimed.
    Write { place: nat },
    /// The producer whose claim of `entries` places starts at the tail has
    /// written them all and gives the claim back.
    Publish { entries: u32 },
    /// All places that producers have claimed are written, and the last
    /// producer to finish moves the tail up to the head.
    PublishAll,
    /// A consumer asks for `count` values, for that many or none if `exact`,
    /// and claims the places of those that it gets.
    Reserve { exact: bool, count: u32 },
    /// A consumer takes the value of a place that it has claimed out of its
    /// slot, to hand it on or to drop it.
    Read { place: nat },
    /// The consumer whose claim of `entries` places starts at the tail has
    /// read them all and gives the claim back.
    Free { entries: u32 },
    /// All places that consumers have claimed are read, and the last consumer
    /// to finish moves the tail up to the head.
    FreeAll,
}

impl<T> Traffic<T> {
    /// A new ring.
    pub open spec fn initial(n: int) -> Traffic<T> {
        Traffic {
            at: Indices::initial(),
            slots: Seq::new(n as nat, |j: int| None),
            claimed: 0,
            published: 0,
            reserved: 0,
            freed: 0,
            produced: Seq::empty(),
            written: Set::empty(),
            read: Set::empty(),
            delivered: Map::empty(),
        }
    }

    /// Whether the places from `from` up to `to` are all written.
    pub open spec fn all_written(self, from: nat, to: nat) -> bool {
        forall|k: nat| from <= k < to ==> #[trigger] self.written.contains(k)
    }

    /// Whether the places from `from` up to `to` are all read.
    pub open spec fn all_read(self, from: nat, to: nat) -> bool {
        forall|k: nat| from <= k < to ==> #[trigger] self.read.contains(k)
    }

    /// The places stand in the order in which the protocol keeps them, the
    /// indices are the places reduced to the ring, and every place that is
    /// written and not read holds its value.
    pub open spec fn inv(self, n: int) -> bool {
        &&& self.at.inv(n)
        &&& self.slots.len() == n
        &&& self.freed <= self.reserved <= self.published <= self.claimed <= self.freed + n - 1
        &&& self.at.prod_head == wrap(n, self.claimed as int)
        &&& self.at.prod_tail == wrap(n, self.published as int)
        &&& self.at.cons_head == wrap(n, self.reserved as int)
        &&& self.at.cons_tail == wrap(n, self.freed as int)
        &&& self.at.writing(n) == self.claimed - self.published
        &&& self.at.ready(n) == self.published - self.reserved
        &&& self.at.reading(n) == self.reserved - self.freed
        &&& self.produced.len() == self.claimed
        &&& forall|k: nat| #[trigger] self.written.contains(k) ==> k < self.claimed
        &&& forall|k: nat| #[trigger]
            self.read.contains(k) ==> k < self.reserved && self.delivered.dom().contains(k)
                && self.delivered[k] == self.produced[k as int]
        &&& self.all_written(0, self.published)
        &&& self.all_read(0, self.freed)
        &&& forall|k: nat|
            self.freed <= k < self.claimed && self.written.contains(k) && !self.read.contains(k)
                ==> #[trigger] self.slots[wrap(n, k as int)] == Some(self.produced[k as int])
    }

    /// The ring after `event`. An event that the protocol does not allow
    /// leaves the ring as it is.
    pub open spec fn step(self, n: int, event: Event<T>) -> Traffic<T> {
        match event {
            Event::Claim { exact, values } => if 0 < values.len() <= usize::MAX {
                match spec_reserve(
                    n,
                    true,
                    exact,
                    self.at.prod_head,
                    self.at.cons_tail,
                    spec_request(values.len() as usize),
                ) {
                    Ok((granted, new_head)) => Traffic {
                        at: self.at.producer_claimed(new_head),
                        claimed: self.claimed + granted as nat,
                        produced: self.produced + values.take(granted as int),
                        ..self
                    },
                    Err(_) => self,
                }
            } else {
                self
            },
            Event::Write { place } => if self.published <= place < self.claimed
                && !self.written.contains(place) {
                Traffic {
                    slots: self.slots.update(wrap(n, place as int), Some(self.produced[place as int])),
                    written: self.written.insert(place),
                    ..self
                }
            } else {
                self
            },
            Event::Publish { entries } => if 1 <= entries <= self.claimed - self.published
                && self.all_written(self.published, self.published + entries as nat) {
                Traffic {
                    at: self.at.producer_returned(wrap(n, self.at.prod_tail + entries) as u32),
                    published: self.published + entries as nat,
                    ..self
                }
            } else {
                self
            },
            Event::PublishAll => if self.all_written(self.published, self.claimed) {
                Traffic {
                    at: self.at.producer_returned(self.at.prod_head),
                    published: self.claimed,
                    ..self
                }
            } else {
                self
            },
            Event::Reserve { exact, count } => if count >= 1 {
                match spec_reserve(n, false, exact, self.at.cons_head, self.at.prod_tail, count) {
                    Ok((granted, new_head)) => Traffic {
                        at: self.at.consumer_claimed(new_head),
                        reserved: self.reserved + granted as nat,
                        ..self
                    },
                    Err(_) => self,
                }
            } else {
                self
            },
            Event::Read { place } => if self.freed <= place < self.reserved && !self.read.contains(
                place,
            ) {
                Traffic {
                    slots: self.slots.update(wrap(n, place as int), None),
                    read: self.read.insert(place),
                    delivered: self.delivered.insert(place, self.slots[wrap(n, place as int)]->0),
                    ..self
                }
            } else {
                self
            },
            Event::Free { entries } => if 1 <= entries <= self.reserved - self.freed
                && self.all_read(self.freed, self.freed + entries as nat) {
                Traffic {
                    at: self.at.consumer_returned(wrap(n, self.at.cons_tail + entries) as u32),
                    freed: self.freed + entries as nat,
                    ..self
                }
            } else {
                self
            },
            Event::FreeAll => if self.all_read(self.freed, self.reserved) {
                Traffic {
                    at: self.at.consumer_returned(self.at.cons_head),
                    freed: self.reserved,
                    ..self
                }
            } else {
                self
            },
        }
    }

    /// The ring after the events of `run`, one after the other.
    pub open spec fn after(self, n: int, run: Seq<Event<T>>) -> Traffic<T>
        decreases run.len(),
    {
        if run.len() == 0 {
            self
        } else {
            self.after(n, run.drop_last()).step(n, run.last())
        }
    }
}

/// A new ring is in order.
pub proof fn lemma_initial_traffic<T>(n: int)
    requires
        valid_capacity(n),
    ensures
        Traffic::<T>::initial(n).inv(n),
{
    lemma_initial(n);
    lemma_capacity_bounds(n);
    lemma_wrap_small(n, 0);
}

/// In a ring that is in order, the places that are neither free nor the same
/// lie in different slots.
pub proof fn lemma_places_apart<T>(n: int, ring: Traffic<T>, j: nat, k: nat)
    requires
        ring.inv(n),
        ring.freed <= j < ring.claimed,
        ring.freed <= k < ring.claimed,
        j != k,
    ensures
        wrap(n, j as int) != wrap(n, k as int),
        0 <= wrap(n, j as int) < n,
{
    lemma_capacity_bounds(n);
    lemma_distinct_slots(n, j as int, k as int);
    lemma_wrap_wrap(n, j as int, 0);
}

/// Of the places that producers hold, the one that lies in the slot where
/// the tail stands is the first: a producer that waits until the tail has
/// reached the start of its claim gives back the claim at the tail and no
/// other. The same holds of the places that consumers hold.
pub proof fn lemma_claim_at_tail<T>(n: int, ring: Traffic<T>, place: nat)
    requires
        ring.inv(n),
    ensures
        ring.published <= place < ring.claimed && wrap(n, place as int) == ring.at.prod_tail
            ==> place == ring.published,
        ring.freed <= place < ring.reserved && wrap(n, place as int) == ring.at.cons_tail
            ==> place == ring.freed,
{
    lemma_capacity_bounds(n);
    if ring.published < place < ring.claimed {
        lemma_distinct_slots(n, place as int, ring.published as int);
    }
    if ring.freed < place < ring.reserved {
        lemma_distinct_slots(n, place as int, ring.freed as int);
    }
}

/// A producer that takes a claim leaves the ring in order. The values that it
/// got room for take the next places, after all that were sent before.
pub proof fn lemma_claim<T>(n: int, ring: Traffic<T>, exact: bool, values: Seq<T>)
    requires
        ring.inv(n),
    ensures
        ring.step(n, Event::Claim { exact, values }).inv(n),
        ring.step(n, Event::Claim { exact, values }).produced.len() >= ring.produced.len(),
        ring.step(n, Event::Claim { exact, values }).produced.take(ring.produced.len() as int)
            == ring.produced,
        ring.step(n, Event::Claim { exact, values }).produced.skip(ring.produced.len() as int)
            == values.take(
            ring.step(n, Event::Claim { exact, values }).produced.len() - ring.produced.len(),
        ),
        ring.step(n, Event::Claim { exact, values }).delivered == ring.delivered,
{
    let after = ring.step(n, Event::Claim { exact, values });
    assert(ring.produced.take(ring.produced.len() as int) =~= ring.produced);
    assert(ring.produced.skip(ring.produced.len() as int) =~= values.take(0));
    if 0 < values.len() <= usize::MAX {
        let expected = spec_request(values.len() as usize);
        match spec_reserve(n, true, exact, ring.at.prod_head, ring.at.cons_tail, expected) {
            Ok((granted, new_head)) => {
                lemma_capacity_bounds(n);
                lemma_available(n, ring.at);
                lemma_producer_claim(n, ring.at, exact, expected, granted, new_head);
                lemma_wrap_wrap(n, ring.claimed as int, granted as int);
                assert(after.produced.take(ring.produced.len() as int) =~= ring.produced);
                assert(after.produced.skip(ring.produced.len() as int) =~= values.take(
                    granted as int,
                ));
                assert forall|k: nat| #[trigger]
                    after.read.contains(k) implies k < after.reserved
                    && after.delivered.dom().contains(k) && after.delivered[k]
                    == after.produced[k as int] by {
                    assert(ring.read.contains(k));
                }
                assert forall|k: nat|
                    after.freed <= k < after.claimed && after.written.contains(k)
                        && !after.read.contains(k) implies #[trigger] after.slots[wrap(
                    n,
                    k as int,
                )] == Some(after.produced[k as int]) by {
                    assert(ring.written.contains(k));
                }
                assert(after.inv(n));
            },
            Err(_) => {},
        }
    }
}

/// A producer that writes a value leaves the ring in order: the slot that it
/// writes holds no value that is still to be read.
pub proof fn lemma_write<T>(n: int, ring: Traffic<T>, place: nat)
    requires
        ring.inv(n),
    ensures
        ring.step(n, Event::Write { place }).inv(n),
        ring.step(n, Event::Write { place }).produced == ring.produced,
        ring.step(n, Event::Write { place }).delivered == ring.delivered,
{
    let after = ring.step(n, Event::Write { place });
    if ring.published <= place < ring.claimed && !ring.written.contains(place) {
        lemma_capacity_bounds(n);
        lemma_wrap_wrap(n, place as int, 0);
        assert forall|k: nat|
            after.freed <= k < after.claimed && after.written.contains(k) && !after.read.contains(
                k,
            ) implies #[trigger] after.slots[wrap(n, k as int)] == Some(
            after.produced[k as int],
        ) by {
            if k != place {
                lemma_places_apart(n, ring, k, place);
                assert(ring.written.contains(k));
            }
        }
        assert forall|k: nat| #[trigger] after.written.contains(k) implies k < after.claimed by {
            if k != place {
                assert(ring.written.contains(k));
            }
        }
        assert forall|k: nat| 0 <= k < after.published implies #[trigger] after.written.contains(
            k,
        ) by {
            assert(ring.written.contains(k));
        }
        assert(after.inv(n));
    }
}

/// A producer that gives back the claim at the tail leaves the ring in
/// order.
pub proof fn lemma_publish<T>(n: int, ring: Traffic<T>, entries: u32)
    requires
        ring.inv(n),
    ensures
        ring.step(n, Event::Publish { entries }).inv(n),
        ring.step(n, Event::Publish { entries }).produced == ring.produced,
        ring.step(n, Event::Publish { entries }).delivered == ring.delivered,
{
    let after = ring.step(n, Event::Publish { entries });
    if 1 <= entries <= ring.claimed - ring.published && ring.all_written(
        ring.published,
        ring.published + entries as nat,
    ) {
        lemma_capacity_bounds(n);
        Claim::lemma_many(entries, ring.at.prod_tail);
        lemma_producer_return(n, ring.at, Claim::spec_many(entries, ring.at.prod_tail));
        lemma_wrap_wrap(n, ring.published as int, entries as int);
        assert forall|k: nat| 0 <= k < after.published implies #[trigger] after.written.contains(
            k,
        ) by {
            if k < ring.published {
                assert(ring.written.contains(k));
            }
        }
        assert(after.inv(n));
    }
}

/// The last producer to finish, who moves the tail up to the head, leaves the
/// ring in order.
pub proof fn lemma_publish_all<T>(n: int, ring: Traffic<T>)
    requires
        ring.inv(n),
    ensures
        ring.step(n, Event::PublishAll).inv(n),
        ring.step(n, Event::PublishAll).produced == ring.produced,
        ring.step(n, Event::PublishAll).delivered == ring.delivered,
{
    let after = ring.step(n, Event::PublishAll);
    if ring.all_written(ring.published, ring.claimed) {
        lemma_capacity_bounds(n);
        lemma_producer_return_all(n, ring.at);
        assert forall|k: nat| 0 <= k < after.published implies #[trigger] after.written.contains(
            k,
        ) by {
            if k < ring.published {
                assert(ring.written.contains(k));
            }
        }
        assert(after.inv(n));
    }
}

/// A consumer that takes a claim leaves the ring in order. The places that it
/// claims were given back by their producers.
pub proof fn lemma_reserve<T>(n: int, ring: Traffic<T>, exact: bool, count: u32)
    requires
        ring.inv(n),
    ensures
        ring.step(n, Event::Reserve { exact, count }).inv(n),
        ring.step(n, Event::Reserve { exact, count }).produced == ring.produced,
        ring.step(n, Event::Reserve { exact, count }).delivered == ring.delivered,
{
    let after = ring.step(n, Event::Reserve { exact, count });
    if count >= 1 {
        match spec_reserve(n, false, exact, ring.at.cons_head, ring.at.prod_tail, count) {
            Ok((granted, new_head)) => {
                lemma_capacity_bounds(n);
                lemma_available(n, ring.at);
                lemma_consumer_claim(n, ring.at, exact, count, granted, new_head);
                lemma_wrap_wrap(n, ring.reserved as int, granted as int);
                assert forall|k: nat| #[trigger]
                    after.read.contains(k) implies k < after.reserved
                    && after.delivered.dom().contains(k) && after.delivered[k]
                    == after.produced[k as int] by {
                    assert(ring.read.contains(k));
                }
                assert(after.inv(n));
            },
            Err(_) => {},
        }
    }
}

/// A consumer that reads a place leaves the ring in order, and the value that
/// it reads is the value that was sent for the place.
pub proof fn lemma_read<T>(n: int, ring: Traffic<T>, place: nat)
    requires
        ring.inv(n),
    ensures
        ring.step(n, Event::Read { place }).inv(n),
        ring.step(n, Event::Read { place }).produced == ring.produced,
        ring.freed <= place < ring.reserved && !ring.read.contains(place) ==> ring.step(
            n,
            Event::Read { place },
        ).delivered == ring.delivered.insert(place, ring.produced[place as int]),
        !(ring.freed <= place < ring.reserved && !ring.read.contains(place)) ==> ring.step(
            n,
            Event::Read { place },
        ) == ring,
{
    let after = ring.step(n, Event::Read { place });
    if ring.freed <= place < ring.reserved && !ring.read.contains(place) {
        lemma_capacity_bounds(n);
        lemma_wrap_wrap(n, place as int, 0);
        assert(ring.written.contains(place));
        assert(ring.slots[wrap(n, place as int)] == Some(ring.produced[place as int]));
        assert forall|k: nat|
            after.freed <= k < after.claimed && after.written.contains(k) && !after.read.contains(
                k,
            ) implies #[trigger] after.slots[wrap(n, k as int)] == Some(
            after.produced[k as int],
        ) by {
            lemma_places_apart(n, ring, k, place);
        }
        assert forall|k: nat| #[trigger] after.read.contains(k) implies k < after.reserved
            && after.delivered.dom().contains(k) && after.delivered[k]
            == after.produced[k as int] by {
            if k != place {
                assert(ring.read.contains(k));
            }
        }
        assert forall|k: nat| 0 <= k < after.freed implies #[trigger] after.read.contains(k) by {
            assert(ring.read.contains(k));
        }
        assert(after.inv(n));
    }
}

/// A consumer that gives back the claim at the tail leaves the ring in
/// order.
pub proof fn lemma_free<T>(n: int, ring: Traffic<T>, entries: u32)
    requires
        ring.inv(n),
    ensures
        ring.step(n, Event::Free { entries }).inv(n),
        ring.step(n, Event::Free { entries }).produced == ring.produced,
        ring.step(n, Event::Free { entries }).delivered == ring.delivered,
{
    let after = ring.step(n, Event::Free { entries });
    if 1 <= entries <= ring.reserved - ring.freed && ring.all_read(
        ring.freed,
        ring.freed + entries as nat,
    ) {
        lemma_capacity_bounds(n);
        Claim::lemma_many(entries, ring.at.cons_tail);
        lemma_consumer_return(n, ring.at, Claim::spec_many(entries, ring.at.cons_tail));
        lemma_wrap_wrap(n, ring.freed as int, entries as int);
        assert forall|k: nat| 0 <= k < after.freed implies #[trigger] after.read.contains(k) by {
            if k < ring.freed {
                assert(ring.read.contains(k));
            }
        }
        assert(after.inv(n));
    }
}

/// The last consumer to finish, who moves the tail up to the head, leaves the
/// ring in order.
pub proof fn lemma_free_all<T>(n: int, ring: Traffic<T>)
    requires
        ring.inv(n),
    ensures
        ring.step(n, Event::FreeAll).inv(n),
        ring.step(n, Event::FreeAll).produced == ring.produced,
        ring.step(n, Event::FreeAll).delivered == ring.delivered,
{
    let after = ring.step(n, Event::FreeAll);
    if ring.all_read(ring.freed, ring.reserved) {
        lemma_capacity_bounds(n);
        lemma_consumer_return_all(n, ring.at);
        assert forall|k: nat| 0 <= k < after.freed implies #[trigger] after.read.contains(k) by {
            if k < ring.freed {
                assert(ring.read.contains(k));
            }
        }
        assert(after.inv(n));
    }
}

/// Every step leaves the ring in order. What was sent keeps its place, and
/// what was read stays as it was read.
pub proof fn lemma_event<T>(n: int, ring: Traffic<T>, event: Event<T>)
    requires
        ring.inv(n),
    ensures
        ring.step(n, event).inv(n),
        ring.step(n, event).produced.len() >= ring.produced.len(),
        ring.step(n, event).produced.take(ring.produced.len() as int) == ring.produced,
        forall|k: nat| #[trigger]
            ring.read.contains(k) ==> ring.step(n, event).read.contains(k) && ring.step(
                n,
                event,
            ).delivered[k] == ring.delivered[k],
{
    assert(ring.produced.take(ring.produced.len() as int) =~= ring.produced);
    match event {
        Event::Claim { exact, values } => {
            lemma_claim(n, ring, exact, values);
        },
        Event::Write { place } => {
            lemma_write(n, ring, place);
        },
        Event::Publish { entries } => {
            lemma_publish(n, ring, entries);
        },
        Event::PublishAll => {
            lemma_publish_all(n, ring);
        },
        Event::Reserve { exact, count } => {
            lemma_reserve(n, ring, exact, count);
        },
        Event::Read { place } => {
            lemma_read(n, ring, place);
        },
        Event::Free { entries } => {
            lemma_free(n, ring, entries);
        },
        Event::FreeAll => {
            lemma_free_all(n, ring);
        },
    }
}

/// Whatever the participants do on a new ring and in whatever order, the ring
/// stays in order.
pub proof fn lemma_run<T>(n: int, run: Seq<Event<T>>)
    requires
        valid_capacity(n),
    ensures
        Traffic::<T>::initial(n).after(n, run).inv(n),
    decreases run.len(),
{
    lemma_initial_traffic::<T>(n);
    if run.len() > 0 {
        lemma_run::<T>(n, run.drop_last());
        lemma_event(n, Traffic::<T>::initial(n).after(n, run.drop_last()), run.last());
    }
}

/// Conservation and order among participants that work at the same time.
/// Whatever producers and consumers do on a new ring and in whatever order:
/// the value that was read at a place is the value that was sent for it, and
/// no more than all slots but one are occupied. A place that was read is not
/// read again. Once the consumers have given back all that the producers
/// claimed, every value that was sent has been read.
pub proof fn lemma_delivery<T>(n: int, run: Seq<Event<T>>)
    requires
        valid_capacity(n),
    ensures
        ({
            let ring = Traffic::<T>::initial(n).after(n, run);
            &&& ring.produced.len() == ring.claimed
            &&& ring.claimed - ring.freed <= n - 1
            &&& forall|k: nat| #[trigger]
                ring.read.contains(k) ==> k < ring.claimed && ring.delivered[k]
                    == ring.produced[k as int]
            &&& forall|k: nat| #[trigger]
                ring.read.contains(k) ==> ring.step(n, Event::Read { place: k }) == ring
            &&& ring.freed == ring.claimed ==> forall|k: nat|
                k < ring.claimed ==> #[trigger] ring.read.contains(k)
        }),
{
    lemma_run::<T>(n, run);
}

} // verus!
