//! Counting the producers and consumers that are active on a ring.
//!
//! Both counts live in one 32-bit word, the consumers in its upper half and
//! the producers in its lower half. A count of `u16::MAX` never stands for
//! that many participants: both halves hold it once the ring is poisoned.
use vstd::prelude::*;
use std::sync::atomic::AtomicU32;
use std::sync::atomic::Ordering;
use crate::Error;
use crate::atomic::load_u32;
use crate::atomic::store_u32;
use crate::atomic::fetch_update_u32;
use crate::atomic::load_ordering;
use crate::hint::cold_path;

verus! {

/// The number of active consumers and producers.
#[derive(Debug, PartialEq, Eq, Structural, Clone, Copy)]
pub struct Active {
    /// The number of active consumers, `0xFFFF` if the ring is poisoned.
    pub consumers: u16,
    /// The number of active producers, `0xFFFF` if the ring is poisoned.
    pub producers: u16,
}

/// What the participant that has just left was to the ring.
#[derive(Debug, PartialEq, Eq, Structural, Clone, Copy)]
pub enum Last {
    /// Others of its kind are still active.
    NotLast,
    /// It was the last of its kind: the tail of its side is to be marked as
    /// finished.
    InCategory,
    /// It was the last participant of all: the ring is to be cleaned up.
    InRing,
}

/// The word that holds `consumers` and `producers`.
pub open spec fn spec_encode(active: Active) -> u32 {
    (active.consumers as int * 0x1_0000 + active.producers as int) as u32
}

/// The counts that `word` holds.
pub open spec fn spec_decode(word: u32) -> Active {
    Active { consumers: (word as int / 0x1_0000) as u16, producers: (word as int % 0x1_0000) as u16 }
}

/// Every pair of counts is held by one word, and every word holds one pair.
pub proof fn lemma_encode_decode(active: Active, word: u32)
    ensures
        spec_decode(spec_encode(active)) == active,
        spec_encode(spec_decode(word)) == word,
{
}

impl Active {
    /// The counts after one more of a kind that counts `count` has joined, if
    /// one can join.
    pub open spec fn spec_incremented(count: u16) -> Option<u16> {
        if 0 < count < 0xFFFE {
            Some((count + 1) as u16)
        } else {
            None
        }
    }

    /// The counts after one of a kind that counts `count` has left, if the ring
    /// is not poisoned and one was there.
    pub open spec fn spec_decremented(count: u16) -> Option<u16> {
        if 0 < count < 0xFFFF {
            Some((count - 1) as u16)
        } else {
            None
        }
    }

    /// Why no participant can join a kind that counts `count`.
    pub open spec fn spec_refusal(count: u16, too_many: Error) -> Error {
        if count == 0 {
            Error::Closed
        } else if count == 0xFFFF {
            Error::Poisoned
        } else {
            too_many
        }
    }

    /// What a participant was that left a kind counting `own` beside another
    /// kind counting `other`, both counted before it left.
    pub open spec fn spec_last(own: u16, other: u16) -> Last {
        if own == 1 && other == 0 {
            Last::InRing
        } else if own == 1 {
            Last::InCategory
        } else {
            Last::NotLast
        }
    }

    /// The number of participants that `count` stands for, or `Poisoned`.
    pub open spec fn spec_counted(count: u16) -> Result<u16, Error> {
        if count == 0xFFFF {
            Err(Error::Poisoned)
        } else {
            Ok(count)
        }
    }

    /// Whether both halves hold the mark of a poisoned ring.
    pub open spec fn spec_is_poisoned(self) -> bool {
        self.consumers == 0xFFFF && self.producers == 0xFFFF
    }

    /// The counts `consumers` and `producers`.
    pub fn new(consumers: u16, producers: u16) -> (active: Self)
        ensures
            active == (Active { consumers, producers }),
        opens_invariants none
        no_unwind
    {
        Self { consumers, producers }
    }

    /// Whether all producers and consumers have left; `Poisoned` if the ring
    /// is poisoned.
    pub fn is_empty(&self) -> (empty: Result<bool, Error>)
        ensures
            self.spec_is_poisoned() ==> empty == Err::<bool, Error>(Error::Poisoned),
            !self.spec_is_poisoned() ==> empty == Ok::<bool, Error>(
                self.consumers == 0 && self.producers == 0,
            ),
        opens_invariants none
        no_unwind
    {
        if self.consumers == 0xFFFF && self.producers == 0xFFFF {
            Err(Error::Poisoned)
        } else {
            Ok(self.consumers == 0 && self.producers == 0)
        }
    }

    /// The counts with one more producer, if a producer can join.
    pub fn with_producer(self) -> (next: Option<Active>)
        ensures
            next == match Self::spec_incremented(self.producers) {
                Some(producers) => Some(Active { consumers: self.consumers, producers }),
                None => None,
            },
        opens_invariants none
        no_unwind
    {
        if self.producers > 0 && self.producers < u16::MAX - 1 {
            Some(Active { consumers: self.consumers, producers: self.producers + 1 })
        } else {
            cold_path();
            None
        }
    }

    /// The counts with one more consumer, if a consumer can join.
    pub fn with_consumer(self) -> (next: Option<Active>)
        ensures
            next == match Self::spec_incremented(self.consumers) {
                Some(consumers) => Some(Active { consumers, producers: self.producers }),
                None => None,
            },
        opens_invariants none
        no_unwind
    {
        if self.consumers > 0 && self.consumers < u16::MAX - 1 {
            Some(Active { consumers: self.consumers + 1, producers: self.producers })
        } else {
            cold_path();
            None
        }
    }

    /// The counts with one producer fewer, if one can leave.
    pub fn without_producer(self) -> (next: Option<Active>)
        ensures
            next == match Self::spec_decremented(self.producers) {
                Some(producers) => Some(Active { consumers: self.consumers, producers }),
                None => None,
            },
        opens_invariants none
        no_unwind
    {
        if self.producers > 0 && self.producers < u16::MAX {
            Some(Active { consumers: self.consumers, producers: self.producers - 1 })
        } else {
            cold_path();
            None
        }
    }

    /// The counts with one consumer fewer, if one can leave.
    pub fn without_consumer(self) -> (next: Option<Active>)
        ensures
            next == match Self::spec_decremented(self.consumers) {
                Some(consumers) => Some(Active { consumers, producers: self.producers }),
                None => None,
            },
        opens_invariants none
        no_unwind
    {
        if self.consumers > 0 && self.consumers < u16::MAX {
            Some(Active { consumers: self.consumers - 1, producers: self.producers })
        } else {
            cold_path();
            None
        }
    }
}

impl Active {
    /// Why no participant can join a kind that counts `count`.
    pub fn refusal(count: u16, too_many: Error) -> (error: Error)
        ensures
            error == Self::spec_refusal(count, too_many),
        opens_invariants none
        no_unwind
    {
        if count == 0 {
            Error::Closed
        } else if count == u16::MAX {
            Error::Poisoned
        } else {
            too_many
        }
    }

    /// Whether both halves hold the mark of a poisoned ring.
    pub fn is_poisoned(&self) -> (poisoned: bool)
        ensures
            poisoned == self.spec_is_poisoned(),
        opens_invariants none
        no_unwind
    {
        self.consumers == u16::MAX && self.producers == u16::MAX
    }

    /// The number of participants that `count` stands for, or `Poisoned`.
    pub fn counted(count: u16) -> (counted: Result<u16, Error>)
        ensures
            counted == Self::spec_counted(count),
    {
        if count == u16::MAX {
            Err(Error::Poisoned)
        } else {
            Ok(count)
        }
    }

    /// What a participant was that left a kind counting `own` beside another
    /// kind counting `other`, both counted before it left.
    pub fn last(own: u16, other: u16) -> (last: Last)
        ensures
            last == Self::spec_last(own, other),
        opens_invariants none
        no_unwind
    {
        if own == 1 && other == 0 {
            cold_path();
            Last::InRing
        } else if own == 1 {
            cold_path();
            Last::InCategory
        } else {
            Last::NotLast
        }
    }
}

/// A count of active consumers and producers that threads share.
pub struct AtomicActive {
    inner: AtomicU32,
}

impl AtomicActive {
    /// What registering a producer comes to, given what the update found.
    pub open spec fn spec_producer_registered(found: Result<Active, Active>) -> Result<(), Error> {
        match found {
            Ok(_) => Ok(()),
            Err(previous) => Err(Active::spec_refusal(previous.producers, Error::TooManyProducers)),
        }
    }

    /// What registering a consumer comes to, given what the update found.
    pub open spec fn spec_consumer_registered(found: Result<Active, Active>) -> Result<(), Error> {
        match found {
            Ok(_) => Ok(()),
            Err(previous) => Err(Active::spec_refusal(previous.consumers, Error::TooManyConsumers)),
        }
    }

    /// What unregistering a producer comes to, given what the update found.
    pub open spec fn spec_producer_unregistered(found: Result<Active, Active>) -> Result<
        Last,
        Error,
    > {
        match found {
            Ok(previous) => Ok(Active::spec_last(previous.producers, previous.consumers)),
            Err(previous) => if previous.producers == 0 {
                Err(Error::Closed)
            } else {
                Err(Error::Poisoned)
            },
        }
    }

    /// What unregistering a consumer comes to, given what the update found.
    pub open spec fn spec_consumer_unregistered(found: Result<Active, Active>) -> Result<
        Last,
        Error,
    > {
        match found {
            Ok(previous) => Ok(Active::spec_last(previous.consumers, previous.producers)),
            Err(previous) => if previous.consumers == 0 {
                Err(Error::Closed)
            } else {
                Err(Error::Poisoned)
            },
        }
    }

    /// A counter that starts at `consumers` and `producers`.
    pub fn new(consumers: u16, producers: u16) -> (counter: Self) {
        Self { inner: AtomicU32::new(Active::new(consumers, producers).encode()) }
    }

    /// Reads the counts.
    pub fn load(&self, ordering: Ordering) -> (active: Active)
        requires
            load_ordering(ordering),
        opens_invariants none
        no_unwind
    {
        Active::decode(load_u32(&self.inner, ordering))
    }

    /// Replaces the counts by what `f` makes of them, unless `f` declines.
    ///
    /// `f` may run several times; what it gives is stored once. `Ok` holds
    /// the counts that were replaced, `Err` the counts that `f` declined.
    pub fn fetch_update<F: Fn(Active) -> Option<Active>>(
        &self,
        set_order: Ordering,
        fetch_order: Ordering,
        f: F,
    ) -> (found: Result<Active, Active>)
        requires
            load_ordering(fetch_order),
            forall|active: Active| #[trigger] f.requires((active,)),
        ensures
            found matches Ok(previous) ==> exists|next: Active| f.ensures((previous,), Some(next)),
            found matches Err(previous) ==> f.ensures((previous,), None),
        opens_invariants none
        no_unwind
    {
        let g = &f;
        let on_word = |word: u32| -> (next: Option<u32>)
            ensures
                next is Some ==> exists|active: Active| g.ensures((spec_decode(word),), Some(active)),
                next is None ==> g.ensures((spec_decode(word),), None),
            {
                match g(Active::decode(word)) {
                    Some(active) => Some(active.encode()),
                    None => None,
                }
            };
        match fetch_update_u32(&self.inner, set_order, fetch_order, on_word) {
            Ok(previous) => Ok(Active::decode(previous)),
            Err(previous) => Err(Active::decode(previous)),
        }
    }

    /// What registering a producer comes to, given what the update found.
    pub fn producer_registered(found: Result<Active, Active>) -> (outcome: Result<(), Error>)
        ensures
            outcome == Self::spec_producer_registered(found),
        opens_invariants none
        no_unwind
    {
        match found {
            Ok(_) => Ok(()),
            Err(previous) => {
                cold_path();
                Err(Active::refusal(previous.producers, Error::TooManyProducers))
            },
        }
    }

    /// What registering a consumer comes to, given what the update found.
    pub fn consumer_registered(found: Result<Active, Active>) -> (outcome: Result<(), Error>)
        ensures
            outcome == Self::spec_consumer_registered(found),
        opens_invariants none
        no_unwind
    {
        match found {
            Ok(_) => Ok(()),
            Err(previous) => {
                cold_path();
                Err(Active::refusal(previous.consumers, Error::TooManyConsumers))
            },
        }
    }

    /// What unregistering a producer comes to, given what the update found.
    ///
    /// Counts that were replaced tell what the producer that left was to the
    /// ring. Counts that were left as they were are poisoned, or count no
    /// producer: `Closed` then stands for a call that had none to uncount.
    pub fn producer_unregistered(found: Result<Active, Active>) -> (outcome: Result<Last, Error>)
        ensures
            outcome == Self::spec_producer_unregistered(found),
            found matches Err(previous) ==> outcome == Err::<Last, Error>(
                if previous.producers == 0 {
                    Error::Closed
                } else {
                    Error::Poisoned
                },
            ),
        opens_invariants none
        no_unwind
    {
        match found {
            Ok(previous) => Ok(Active::last(previous.producers, previous.consumers)),
            Err(previous) => {
                cold_path();
                if previous.producers == 0 {
                    Err(Error::Closed)
                } else {
                    Err(Error::Poisoned)
                }
            },
        }
    }

    /// What unregistering a consumer comes to, given what the update found.
    ///
    /// Counts that were replaced tell what the consumer that left was to the
    /// ring. Counts that were left as they were are poisoned, or count no
    /// consumer: `Closed` then stands for a call that had none to uncount.
    pub fn consumer_unregistered(found: Result<Active, Active>) -> (outcome: Result<Last, Error>)
        ensures
            outcome == Self::spec_consumer_unregistered(found),
            found matches Err(previous) ==> outcome == Err::<Last, Error>(
                if previous.consumers == 0 {
                    Error::Closed
                } else {
                    Error::Poisoned
                },
            ),
        opens_invariants none
        no_unwind
    {
        match found {
            Ok(previous) => Ok(Active::last(previous.consumers, previous.producers)),
            Err(previous) => {
                cold_path();
                if previous.consumers == 0 {
                    Err(Error::Closed)
                } else {
                    Err(Error::Poisoned)
                }
            },
        }
    }

    /// Counts one more producer.
    ///
    /// It fails with `Closed` if no producer is left, with `Poisoned` if the
    /// ring is poisoned and with `TooManyProducers` if `u16::MAX - 1` producers
    /// are active. The outcome is what
    /// [`producer_registered`](Self::producer_registered) makes of the counts
    /// that the update found: counts that one more producer could join, or
    /// counts that none could.
    pub fn register_producer(&self) -> (outcome: Result<(), Error>)
        ensures
            exists|previous: Active|
                (Active::spec_incremented(previous.producers) is Some && outcome == Self::spec_producer_registered(
                    Ok(previous),
                )) || (Active::spec_incremented(previous.producers) is None && outcome == Self::spec_producer_registered(
                    Err(previous),
                )),
            outcome matches Err(error) ==> error == Error::Closed || error == Error::Poisoned
                || error == Error::TooManyProducers,
    {
        let join = |active: Active| -> (next: Option<Active>)
            ensures
                next is Some <==> Active::spec_incremented(active.producers) is Some,
            { active.with_producer() };
        let found = self.fetch_update(Ordering::SeqCst, Ordering::SeqCst, join);
        proof {
            let previous = match found {
                Ok(previous) => previous,
                Err(previous) => previous,
            };
            assert((Active::spec_incremented(previous.producers) is Some && found == Ok::<Active, Active>(previous))
                || (Active::spec_incremented(previous.producers) is None && found == Err::<Active, Active>(
                previous,
            )));
        }
        Self::producer_registered(found)
    }

    /// Counts one more consumer.
    ///
    /// It fails with `Closed` if no consumer is left, with `Poisoned` if the
    /// ring is poisoned and with `TooManyConsumers` if `u16::MAX - 1` consumers
    /// are active. The outcome is what
    /// [`consumer_registered`](Self::consumer_registered) makes of the counts
    /// that the update found: counts that one more consumer could join, or
    /// counts that none could.
    pub fn register_consumer(&self) -> (outcome: Result<(), Error>)
        ensures
            exists|previous: Active|
                (Active::spec_incremented(previous.consumers) is Some && outcome == Self::spec_consumer_registered(
                    Ok(previous),
                )) || (Active::spec_incremented(previous.consumers) is None && outcome == Self::spec_consumer_registered(
                    Err(previous),
                )),
            outcome matches Err(error) ==> error == Error::Closed || error == Error::Poisoned
                || error == Error::TooManyConsumers,
    {
        let join = |active: Active| -> (next: Option<Active>)
            ensures
                next is Some <==> Active::spec_incremented(active.consumers) is Some,
            { active.with_consumer() };
        let found = self.fetch_update(Ordering::SeqCst, Ordering::SeqCst, join);
        proof {
            let previous = match found {
                Ok(previous) => previous,
                Err(previous) => previous,
            };
            assert((Active::spec_incremented(previous.consumers) is Some && found == Ok::<Active, Active>(previous))
                || (Active::spec_incremented(previous.consumers) is None && found == Err::<Active, Active>(
                previous,
            )));
        }
        Self::consumer_registered(found)
    }

    /// Counts one producer fewer and tells what the one that left was to the
    /// ring.
    ///
    /// It fails with `Poisoned` if the ring is poisoned, and with `Closed` if
    /// no producer was counted. `Closed` answers a call that had no producer to
    /// uncount; the counts stay as they were then. The outcome is what
    /// [`producer_unregistered`](Self::producer_unregistered) makes of the
    /// counts that the update found: counts that a producer could leave, or
    /// counts that none could.
    pub fn unregister_producer(&self) -> (outcome: Result<Last, Error>)
        ensures
            exists|previous: Active|
                (Active::spec_decremented(previous.producers) is Some && outcome == Self::spec_producer_unregistered(
                    Ok(previous),
                )) || (Active::spec_decremented(previous.producers) is None && outcome == Self::spec_producer_unregistered(
                    Err(previous),
                )),
            outcome matches Err(error) ==> error == Error::Closed || error == Error::Poisoned,
        opens_invariants none
        no_unwind
    {
        let leave = |active: Active| -> (next: Option<Active>)
            ensures
                next is Some <==> Active::spec_decremented(active.producers) is Some,
            { active.without_producer() };
        let found = self.fetch_update(Ordering::SeqCst, Ordering::SeqCst, leave);
        proof {
            let previous = match found {
                Ok(previous) => previous,
                Err(previous) => previous,
            };
            assert((Active::spec_decremented(previous.producers) is Some && found == Ok::<Active, Active>(previous))
                || (Active::spec_decremented(previous.producers) is None && found == Err::<Active, Active>(
                previous,
            )));
        }
        Self::producer_unregistered(found)
    }

    /// Counts one consumer fewer and tells what the one that left was to the
    /// ring.
    ///
    /// It fails with `Poisoned` if the ring is poisoned, and with `Closed` if
    /// no consumer was counted. `Closed` answers a call that had no consumer to
    /// uncount; the counts stay as they were then. The outcome is what
    /// [`consumer_unregistered`](Self::consumer_unregistered) makes of the
    /// counts that the update found: counts that a consumer could leave, or
    /// counts that none could.
    pub fn unregister_consumer(&self) -> (outcome: Result<Last, Error>)
        ensures
            exists|previous: Active|
                (Active::spec_decremented(previous.consumers) is Some && outcome == Self::spec_consumer_unregistered(
                    Ok(previous),
                )) || (Active::spec_decremented(previous.consumers) is None && outcome == Self::spec_consumer_unregistered(
                    Err(previous),
                )),
            outcome matches Err(error) ==> error == Error::Closed || error == Error::Poisoned,
        opens_invariants none
        no_unwind
    {
        let leave = |active: Active| -> (next: Option<Active>)
            ensures
                next is Some <==> Active::spec_decremented(active.consumers) is Some,
            { active.without_consumer() };
        let found = self.fetch_update(Ordering::SeqCst, Ordering::SeqCst, leave);
        proof {
            let previous = match found {
                Ok(previous) => previous,
                Err(previous) => previous,
            };
            assert((Active::spec_decremented(previous.consumers) is Some && found == Ok::<Active, Active>(previous))
                || (Active::spec_decremented(previous.consumers) is None && found == Err::<Active, Active>(
                previous,
            )));
        }
        Self::consumer_unregistered(found)
    }

    /// The number of active producers, or `Poisoned`.
    pub fn producers(&self) -> (count: Result<u16, Error>)
        ensures
            count matches Ok(n) ==> n != 0xFFFF,
            count matches Err(error) ==> error == Error::Poisoned,
    {
        Active::counted(self.load(Ordering::SeqCst).producers)
    }

    /// The number of active consumers, or `Poisoned`.
    pub fn consumers(&self) -> (count: Result<u16, Error>)
        ensures
            count matches Ok(n) ==> n != 0xFFFF,
            count matches Err(error) ==> error == Error::Poisoned,
    {
        Active::counted(self.load(Ordering::SeqCst).consumers)
    }

    /// Marks the ring as poisoned, for good.
    pub fn poison(&self)
        opens_invariants none
        no_unwind
    {
        store_u32(&self.inner, u32::MAX, Ordering::Relaxed);
    }

    /// Whether the ring is marked as poisoned.
    pub fn is_poisoned(&self) -> (poisoned: bool)
        opens_invariants none
        no_unwind
    {
        self.load(Ordering::Relaxed).is_poisoned()
    }
}

impl Active {
    /// The counts that `word` holds.
    pub fn decode(word: u32) -> (active: Active)
        ensures
            active == spec_decode(word),
        opens_invariants none
        no_unwind
    {
        let consumers = (word >> 16) as u16;
        let producers = (word & 0xFFFF) as u16;
        assert(word >> 16 == word / 0x1_0000) by (bit_vector);
        assert(word & 0xFFFF == word % 0x1_0000) by (bit_vector);
        Active { consumers, producers }
    }

    /// The word that holds the counts.
    pub fn encode(self) -> (word: u32)
        ensures
            word == spec_encode(self),
        opens_invariants none
        no_unwind
    {
        let consumers = self.consumers;
        let producers = self.producers;
        assert(((consumers as u32) << 16) | (producers as u32) == (consumers as u32) * 0x1_0000
            + (producers as u32)) by (bit_vector);
        ((consumers as u32) << 16) | (producers as u32)
    }
}

impl From<u32> for Active {
    fn from(value: u32) -> (active: Active) {
        Active::decode(value)
    }
}

impl vstd::std_specs::convert::FromSpecImpl<u32> for Active {
    open spec fn obeys_from_spec() -> bool {
        true
    }

    open spec fn from_spec(value: u32) -> Active {
        spec_decode(value)
    }
}

impl From<Active> for u32 {
    fn from(active: Active) -> (word: u32) {
        active.encode()
    }
}

impl vstd::std_specs::convert::FromSpecImpl<Active> for u32 {
    open spec fn obeys_from_spec() -> bool {
        true
    }

    open spec fn from_spec(active: Active) -> u32 {
        spec_encode(active)
    }
}

} // verus!
