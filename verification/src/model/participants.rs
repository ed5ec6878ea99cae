//! The count of participants, followed through the joining and leaving of
//! producers and consumers.
use vstd::prelude::*;
use crate::Error;
use crate::ring::active::Active;
use crate::ring::active::AtomicActive;
use crate::ring::active::Last;

verus! {

/// What a participant asks of the count.
pub enum Request {
    /// A producer joins.
    RegisterProducer,
    /// A consumer joins.
    RegisterConsumer,
    /// A producer leaves.
    UnregisterProducer,
    /// A consumer leaves.
    UnregisterConsumer,
    /// A participant panics.
    Poison,
}

/// What the count answers.
pub enum Answer {
    /// A participant joined, or failed to.
    Registered(Result<(), Error>),
    /// A participant left and was told what it was to the ring, or failed to.
    Unregistered(Result<Last, Error>),
    /// The ring is poisoned.
    Poisoned,
}

/// What the update of the count finds and stores for a request: `Ok` holds
/// the count that it replaced, `Err` the count that it left.
pub open spec fn spec_found(active: Active, incremented: bool, producer: bool) -> Result<
    Active,
    Active,
> {
    let count = if producer {
        active.producers
    } else {
        active.consumers
    };
    let next = if incremented {
        Active::spec_incremented(count)
    } else {
        Active::spec_decremented(count)
    };
    match next {
        Some(_) => Ok(active),
        None => Err(active),
    }
}

/// The count after `request`.
pub open spec fn spec_after(active: Active, request: Request) -> Active {
    match request {
        Request::RegisterProducer => match Active::spec_incremented(active.producers) {
            Some(producers) => Active { producers, ..active },
            None => active,
        },
        Request::RegisterConsumer => match Active::spec_incremented(active.consumers) {
            Some(consumers) => Active { consumers, ..active },
            None => active,
        },
        Request::UnregisterProducer => match Active::spec_decremented(active.producers) {
            Some(producers) => Active { producers, ..active },
            None => active,
        },
        Request::UnregisterConsumer => match Active::spec_decremented(active.consumers) {
            Some(consumers) => Active { consumers, ..active },
            None => active,
        },
        Request::Poison => Active { consumers: 0xFFFF, producers: 0xFFFF },
    }
}

/// The answer to `request`.
pub open spec fn spec_answer(active: Active, request: Request) -> Answer {
    match request {
        Request::RegisterProducer => Answer::Registered(
            AtomicActive::spec_producer_registered(spec_found(active, true, true)),
        ),
        Request::RegisterConsumer => Answer::Registered(
            AtomicActive::spec_consumer_registered(spec_found(active, true, false)),
        ),
        Request::UnregisterProducer => Answer::Unregistered(
            AtomicActive::spec_producer_unregistered(spec_found(active, false, true)),
        ),
        Request::UnregisterConsumer => Answer::Unregistered(
            AtomicActive::spec_consumer_unregistered(spec_found(active, false, false)),
        ),
        Request::Poison => Answer::Poisoned,
    }
}

/// The count after the requests of `run`, one after the other.
pub open spec fn spec_after_all(active: Active, run: Seq<Request>) -> Active
    decreases run.len(),
{
    if run.len() == 0 {
        active
    } else {
        spec_after(spec_after_all(active, run.drop_last()), run.last())
    }
}

/// The number of participants in `run` that were told that they were the last
/// of the ring.
pub open spec fn spec_last_in_ring(active: Active, run: Seq<Request>) -> nat
    decreases run.len(),
{
    if run.len() == 0 {
        0
    } else {
        spec_last_in_ring(active, run.drop_last()) + if spec_answer(
            spec_after_all(active, run.drop_last()),
            run.last(),
        ) == Answer::Unregistered(Ok(Last::InRing)) {
            1nat
        } else {
            0nat
        }
    }
}

/// A live count: the ring is not poisoned, and no kind counts more than
/// `u16::MAX - 1`.
pub open spec fn spec_live(active: Active) -> bool {
    active.consumers < 0xFFFF && active.producers < 0xFFFF
}

/// A count is live, or poisoned in both halves.
pub open spec fn spec_sound(active: Active) -> bool {
    spec_live(active) || active.spec_is_poisoned()
}

/// What one request does to a count.
///
/// - A count stays live or becomes poisoned, and a poisoned one stays so.
/// - A participant is told that it was the last of the ring exactly when it
///   brings both kinds from one participant in all to none.
/// - A participant is told that it was the last of its kind exactly when it
///   brings its kind to none while the other kind still has participants.
/// - A kind that has come to none gets no participant again: joining it fails
///   with `Closed` until the ring is poisoned.
/// - On a poisoned ring every request fails with `Poisoned`.
pub proof fn lemma_request(active: Active, request: Request)
    requires
        spec_sound(active),
    ensures
        spec_sound(spec_after(active, request)),
        active.spec_is_poisoned() ==> spec_after(active, request).spec_is_poisoned(),
        spec_answer(active, request) == Answer::Unregistered(Ok(Last::InRing)) <==> (spec_live(
            active,
        ) && active.consumers + active.producers == 1 && spec_after(active, request) == (Active {
            consumers: 0,
            producers: 0,
        }) && (request is UnregisterProducer || request is UnregisterConsumer)),
        spec_answer(active, request) == Answer::Unregistered(Ok(Last::InCategory)) <==> (
        spec_live(active) && ((request is UnregisterProducer && active.producers == 1
            && active.consumers > 0 && spec_after(active, request).producers == 0) || (
        request is UnregisterConsumer && active.consumers == 1 && active.producers > 0
            && spec_after(active, request).consumers == 0))),
        spec_live(active) && active.producers == 0 && !(request is Poison) ==> spec_after(
            active,
            request,
        ).producers == 0,
        spec_live(active) && active.consumers == 0 && !(request is Poison) ==> spec_after(
            active,
            request,
        ).consumers == 0,
        spec_live(active) && active.producers == 0 && request is RegisterProducer ==> spec_answer(
            active,
            request,
        ) == Answer::Registered(Err(Error::Closed)),
        spec_live(active) && active.consumers == 0 && request is RegisterConsumer ==> spec_answer(
            active,
            request,
        ) == Answer::Registered(Err(Error::Closed)),
        active.spec_is_poisoned() && request is RegisterProducer ==> spec_answer(active, request)
            == Answer::Registered(Err(Error::Poisoned)),
        active.spec_is_poisoned() && request is RegisterConsumer ==> spec_answer(active, request)
            == Answer::Registered(Err(Error::Poisoned)),
        active.spec_is_poisoned() && (request is UnregisterProducer
            || request is UnregisterConsumer) ==> spec_answer(active, request)
            == Answer::Unregistered(Err(Error::Poisoned)),
{
}

/// A run of requests keeps a sound count sound. Once no participant is left,
/// none comes again.
pub proof fn lemma_requests(active: Active, run: Seq<Request>)
    requires
        spec_sound(active),
    ensures
        spec_sound(spec_after_all(active, run)),
        active.spec_is_poisoned() ==> spec_after_all(active, run).spec_is_poisoned(),
        active == (Active { consumers: 0, producers: 0 }) ==> spec_after_all(active, run)
            == active || spec_after_all(active, run).spec_is_poisoned(),
        active == (Active { consumers: 0, producers: 0 }) || active.spec_is_poisoned()
            ==> spec_last_in_ring(active, run) == 0,
    decreases run.len(),
{
    if run.len() > 0 {
        lemma_requests(active, run.drop_last());
        lemma_request(spec_after_all(active, run.drop_last()), run.last());
    }
}

/// The ring ends once. However producers and consumers join and leave, at
/// most one of them is told that it was the last participant of the ring, the
/// one that has to end it.
pub proof fn lemma_ring_ends_once(active: Active, run: Seq<Request>)
    requires
        spec_sound(active),
    ensures
        spec_last_in_ring(active, run) <= 1,
        spec_last_in_ring(active, run) == 1 ==> spec_after_all(active, run) == (Active {
            consumers: 0,
            producers: 0,
        }) || spec_after_all(active, run).spec_is_poisoned(),
    decreases run.len(),
{
    if run.len() > 0 {
        let before = run.drop_last();
        let middle = spec_after_all(active, before);
        lemma_ring_ends_once(active, before);
        lemma_requests(active, before);
        lemma_request(middle, run.last());
        if spec_last_in_ring(active, before) == 1 {
            // The ring has ended: no one is left to be the last again.
            assert(middle == (Active { consumers: 0, producers: 0 })
                || middle.spec_is_poisoned());
        }
    }
}

} // verus!
