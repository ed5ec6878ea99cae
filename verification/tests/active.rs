use ringbeam::ring::active::Active;
use ringbeam::ring::active::AtomicActive;
use ringbeam::ring::active::Last;
use ringbeam::Error;
use std::sync::atomic::Ordering;

#[test]
fn active_is_encoded_with_the_consumers_on_top() {
    assert_eq!(Active::new(1, 1).encode(), 0x0001_0001);
    assert_eq!(Active::new(2, 3).encode(), 0x0002_0003);
    assert_eq!(Active::new(0xFFFF, 0xFFFF).encode(), u32::MAX);
    assert_eq!(u32::from(Active::new(2, 3)), 0x0002_0003);
}

#[test]
fn active_is_decoded_as_it_was_encoded() {
    assert_eq!(Active::decode(0x0002_0003), Active { consumers: 2, producers: 3 });
    assert_eq!(Active::from(0x0002_0003u32), Active { consumers: 2, producers: 3 });
    assert_eq!(Active::decode(Active::new(513, 7).encode()), Active::new(513, 7));
}

#[test]
fn is_empty_tells_poisoned_from_empty() {
    assert_eq!(Active::new(0, 0).is_empty(), Ok(true));
    assert_eq!(Active::new(1, 0).is_empty(), Ok(false));
    assert_eq!(Active::new(0, 1).is_empty(), Ok(false));
    assert_eq!(Active::new(0xFFFF, 0).is_empty(), Ok(false));
    assert_eq!(Active::new(0xFFFF, 0xFFFF).is_empty(), Err(Error::Poisoned));
}

#[test]
fn a_participant_joins_while_its_kind_is_alive_and_not_at_the_limit() {
    assert_eq!(Active::new(4, 1).with_producer(), Some(Active::new(4, 2)));
    assert_eq!(Active::new(4, 0xFFFD).with_producer(), Some(Active::new(4, 0xFFFE)));
    assert_eq!(Active::new(4, 0xFFFE).with_producer(), None);
    assert_eq!(Active::new(4, 0xFFFF).with_producer(), None);
    assert_eq!(Active::new(4, 0).with_producer(), None);
    assert_eq!(Active::new(1, 4).with_consumer(), Some(Active::new(2, 4)));
    assert_eq!(Active::new(0xFFFE, 4).with_consumer(), None);
    assert_eq!(Active::new(0, 4).with_consumer(), None);
}

#[test]
fn a_participant_leaves_unless_none_is_there_or_the_ring_is_poisoned() {
    assert_eq!(Active::new(4, 2).without_producer(), Some(Active::new(4, 1)));
    assert_eq!(Active::new(4, 1).without_producer(), Some(Active::new(4, 0)));
    assert_eq!(Active::new(4, 0).without_producer(), None);
    assert_eq!(Active::new(0xFFFF, 0xFFFF).without_producer(), None);
    assert_eq!(Active::new(2, 4).without_consumer(), Some(Active::new(1, 4)));
    assert_eq!(Active::new(0, 4).without_consumer(), None);
    assert_eq!(Active::new(0xFFFF, 0xFFFF).without_consumer(), None);
}

#[test]
fn refusal_names_the_reason() {
    assert_eq!(Active::refusal(0, Error::TooManyProducers), Error::Closed);
    assert_eq!(Active::refusal(0xFFFF, Error::TooManyProducers), Error::Poisoned);
    assert_eq!(Active::refusal(0xFFFE, Error::TooManyProducers), Error::TooManyProducers);
    assert_eq!(Active::refusal(0xFFFE, Error::TooManyConsumers), Error::TooManyConsumers);
}

#[test]
fn last_tells_what_the_one_that_left_was() {
    assert_eq!(Active::last(2, 0), Last::NotLast);
    assert_eq!(Active::last(2, 5), Last::NotLast);
    assert_eq!(Active::last(1, 5), Last::InCategory);
    assert_eq!(Active::last(1, 0), Last::InRing);
}

#[test]
fn outcomes_of_an_update_are_mapped_as_documented() {
    let ok: Result<Active, Active> = Ok(Active::new(1, 1));
    assert_eq!(AtomicActive::producer_registered(ok), Ok(()));
    assert_eq!(AtomicActive::producer_registered(Err(Active::new(1, 0))), Err(Error::Closed));
    assert_eq!(
        AtomicActive::producer_registered(Err(Active::new(1, 0xFFFE))),
        Err(Error::TooManyProducers)
    );
    assert_eq!(
        AtomicActive::consumer_registered(Err(Active::new(0xFFFE, 1))),
        Err(Error::TooManyConsumers)
    );
    assert_eq!(
        AtomicActive::consumer_registered(Err(Active::new(0xFFFF, 0xFFFF))),
        Err(Error::Poisoned)
    );
    assert_eq!(AtomicActive::producer_unregistered(Ok(Active::new(1, 1))), Ok(Last::InCategory));
    assert_eq!(AtomicActive::producer_unregistered(Ok(Active::new(0, 1))), Ok(Last::InRing));
    assert_eq!(AtomicActive::producer_unregistered(Ok(Active::new(0, 2))), Ok(Last::NotLast));
    assert_eq!(AtomicActive::producer_unregistered(Err(Active::new(3, 0))), Err(Error::Closed));
    assert_eq!(
        AtomicActive::producer_unregistered(Err(Active::new(0xFFFF, 0xFFFF))),
        Err(Error::Poisoned)
    );
    assert_eq!(AtomicActive::consumer_unregistered(Ok(Active::new(1, 1))), Ok(Last::InCategory));
    assert_eq!(AtomicActive::consumer_unregistered(Ok(Active::new(1, 0))), Ok(Last::InRing));
    assert_eq!(AtomicActive::consumer_unregistered(Err(Active::new(0, 3))), Err(Error::Closed));
}

#[test]
fn counter_starts_with_what_it_was_given() {
    let counter = AtomicActive::new(3, 2);
    assert_eq!(counter.load(Ordering::SeqCst), Active::new(3, 2));
    assert_eq!(counter.consumers(), Ok(3));
    assert_eq!(counter.producers(), Ok(2));
    assert!(!counter.is_poisoned());
}

#[test]
fn registering_and_unregistering_moves_the_counts() {
    let counter = AtomicActive::new(1, 1);
    assert_eq!(counter.register_producer(), Ok(()));
    assert_eq!(counter.producers(), Ok(2));
    assert_eq!(counter.register_consumer(), Ok(()));
    assert_eq!(counter.register_consumer(), Ok(()));
    assert_eq!(counter.consumers(), Ok(3));
    assert_eq!(counter.unregister_producer(), Ok(Last::NotLast));
    assert_eq!(counter.unregister_producer(), Ok(Last::InCategory));
    assert_eq!(counter.producers(), Ok(0));
    assert_eq!(counter.register_producer(), Err(Error::Closed));
    assert_eq!(counter.unregister_producer(), Err(Error::Closed));
    assert_eq!(counter.unregister_consumer(), Ok(Last::NotLast));
    assert_eq!(counter.unregister_consumer(), Ok(Last::NotLast));
    assert_eq!(counter.unregister_consumer(), Ok(Last::InRing));
    assert_eq!(counter.load(Ordering::SeqCst).is_empty(), Ok(true));
    assert_eq!(counter.register_consumer(), Err(Error::Closed));
    assert_eq!(counter.unregister_consumer(), Err(Error::Closed));
}

#[test]
fn counter_refuses_more_than_the_limit() {
    let counter = AtomicActive::new(0xFFFD, 0xFFFD);
    assert_eq!(counter.register_producer(), Ok(()));
    assert_eq!(counter.register_producer(), Err(Error::TooManyProducers));
    assert_eq!(counter.producers(), Ok(0xFFFE));
    assert_eq!(counter.register_consumer(), Ok(()));
    assert_eq!(counter.register_consumer(), Err(Error::TooManyConsumers));
    assert_eq!(counter.consumers(), Ok(0xFFFE));
}

#[test]
fn poison_is_for_good() {
    let counter = AtomicActive::new(1, 1);
    counter.poison();
    assert!(counter.is_poisoned());
    assert_eq!(counter.producers(), Err(Error::Poisoned));
    assert_eq!(counter.consumers(), Err(Error::Poisoned));
    assert_eq!(counter.register_producer(), Err(Error::Poisoned));
    assert_eq!(counter.register_consumer(), Err(Error::Poisoned));
    assert_eq!(counter.unregister_producer(), Err(Error::Poisoned));
    assert_eq!(counter.unregister_consumer(), Err(Error::Poisoned));
    assert!(counter.is_poisoned());
    assert_eq!(counter.load(Ordering::SeqCst).is_empty(), Err(Error::Poisoned));
}

#[test]
fn fetch_update_stores_what_the_function_gives() {
    let counter = AtomicActive::new(1, 1);
    let found = counter.fetch_update(Ordering::SeqCst, Ordering::SeqCst, |active| {
        Some(Active::new(active.consumers, 7))
    });
    assert_eq!(found, Ok(Active::new(1, 1)));
    assert_eq!(counter.load(Ordering::SeqCst), Active::new(1, 7));
    let found = counter.fetch_update(Ordering::SeqCst, Ordering::SeqCst, |_| None);
    assert_eq!(found, Err(Active::new(1, 7)));
    assert_eq!(counter.load(Ordering::SeqCst), Active::new(1, 7));
}

#[test]
fn a_count_of_all_ones_stands_for_poison() {
    assert_eq!(Active::counted(0), Ok(0));
    assert_eq!(Active::counted(0xFFFE), Ok(0xFFFE));
    assert_eq!(Active::counted(0xFFFF), Err(Error::Poisoned));
}

#[test]
fn only_all_ones_in_both_halves_is_poisoned() {
    assert!(Active::new(0xFFFF, 0xFFFF).is_poisoned());
    assert!(!Active::new(0xFFFF, 0).is_poisoned());
    assert!(!Active::new(0, 0xFFFF).is_poisoned());
    assert!(!Active::new(1, 1).is_poisoned());
    assert!(Active::decode(u32::MAX).is_poisoned());
    assert!(!Active::decode(u32::MAX - 1).is_poisoned());
}
