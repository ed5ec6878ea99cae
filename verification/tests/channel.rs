use ringbeam::custom::modes::HeadTailSync;
use ringbeam::custom::modes::Mode;
use ringbeam::custom::modes::Multi;
use ringbeam::custom::modes::RelaxedTailSync;
use ringbeam::custom::modes::Single;
use ringbeam::custom::RecvValues;
use ringbeam::Error;
use std::sync::atomic::AtomicUsize;
use std::sync::atomic::Ordering;
use std::sync::Arc;

fn drain<const N: usize, T, P: Mode, C: Mode>(mut values: RecvValues<N, T, P, C>) -> Vec<T> {
    let mut out = Vec::new();
    while let Some(value) = values.next() {
        out.push(value);
    }
    out
}

/// Counts how often values of it were dropped.
struct Counted(u32, Arc<AtomicUsize>);

impl Drop for Counted {
    fn drop(&mut self) {
        self.1.fetch_add(1, Ordering::SeqCst);
    }
}

#[test]
fn send_then_recv_gives_the_value_back() {
    let (sender, receiver) = ringbeam::spsc::bounded::<64, u8>();
    assert_eq!(sender.try_send(10), Ok(None));
    assert_eq!(receiver.try_recv(), Ok(10));
    assert_eq!(receiver.try_recv(), Err(Error::Empty));
}

#[test]
fn bulk_round_trip() {
    let (sender, receiver) = ringbeam::spsc::bounded::<8, u32>();
    let mut values = vec![1, 2, 3, 4, 5, 6, 7];
    assert_eq!(sender.try_send_bulk(&mut values), Ok(7));
    assert!(values.is_empty());
    let received = receiver.try_recv_bulk(7).unwrap();
    assert_eq!(received.len(), 7);
    assert_eq!(received.size_hint(), (7, Some(7)));
    assert_eq!(drain(received), vec![1, 2, 3, 4, 5, 6, 7]);
    assert_eq!(receiver.try_recv(), Err(Error::Empty));
}

#[test]
fn bulk_round_trip_for_every_length_that_fits() {
    let (sender, receiver) = ringbeam::mpmc::bounded::<16, u32>();
    for len in 0..16u32 {
        let sent: Vec<u32> = (0..len).map(|i| 100 * len + i).collect();
        let mut values = sent.clone();
        assert_eq!(sender.try_send_bulk(&mut values), Ok(len as usize));
        assert!(values.is_empty());
        let received = receiver.try_recv_bulk(len as usize).unwrap();
        assert_eq!(drain(received), sent);
    }
}

#[test]
fn smallest_ring_holds_one_value() {
    let (sender, receiver) = ringbeam::spsc::bounded::<2, u32>();
    assert_eq!(sender.try_send(1), Ok(None));
    assert_eq!(sender.try_send(2), Ok(Some(2)));
    let mut more = vec![3];
    assert_eq!(sender.try_send_bulk(&mut more), Err(Error::Full));
    assert_eq!(more, vec![3]);
    assert_eq!(sender.try_send_burst(&mut more), Err(Error::Full));
    assert_eq!(more, vec![3]);
    assert_eq!(receiver.try_recv(), Ok(1));
    assert_eq!(sender.try_send(2), Ok(None));
    assert_eq!(receiver.try_recv(), Ok(2));
    assert_eq!(receiver.try_recv(), Err(Error::Empty));
}

#[test]
fn capacity_minus_one_sends_succeed_and_the_next_is_full() {
    let (sender, receiver) = ringbeam::spsc::bounded::<64, u32>();
    for i in 0..63 {
        assert_eq!(sender.try_send(i), Ok(None));
    }
    assert_eq!(sender.try_send(63), Ok(Some(63)));
    assert_eq!(receiver.try_recv(), Ok(0));
    assert_eq!(sender.try_send(63), Ok(None));
    assert_eq!(sender.try_send(64), Ok(Some(64)));
    for i in 1..64 {
        assert_eq!(receiver.try_recv(), Ok(i));
    }
    assert_eq!(receiver.try_recv(), Err(Error::Empty));
}

#[test]
fn empty_bulk_is_a_no_op() {
    let (sender, receiver) = ringbeam::spsc::bounded::<4, u32>();
    let mut none: Vec<u32> = Vec::new();
    assert_eq!(sender.try_send_bulk(&mut none), Ok(0));
    assert_eq!(sender.try_send_burst(&mut none), Ok(0));
    let mut values = receiver.try_recv_bulk(0).unwrap();
    assert_eq!(values.len(), 0);
    assert_eq!(values.next(), None);
    let values = receiver.try_recv_burst(0).unwrap();
    assert_eq!(values.size_hint(), (0, Some(0)));
    // Nothing was reserved on the way: the whole ring is still free.
    let mut three = vec![1, 2, 3];
    assert_eq!(sender.try_send_bulk(&mut three), Ok(3));
    // An empty request succeeds on a full ring too.
    assert_eq!(sender.try_send_bulk(&mut none), Ok(0));
    assert_eq!(drain(receiver.try_recv_bulk(3).unwrap()), vec![1, 2, 3]);
}

#[test]
fn order_is_kept_across_the_end_of_the_ring() {
    let (sender, receiver) = ringbeam::spsc::bounded::<8, u32>();
    let mut first = vec![0, 1, 2, 3, 4, 5];
    assert_eq!(sender.try_send_bulk(&mut first), Ok(6));
    assert_eq!(drain(receiver.try_recv_bulk(6).unwrap()), vec![0, 1, 2, 3, 4, 5]);
    // The next values lie in the slots 6, 7, 0, 1, 2.
    let mut second = vec![10, 11, 12, 13, 14];
    assert_eq!(sender.try_send_bulk(&mut second), Ok(5));
    let mut values = receiver.try_recv_bulk(5).unwrap();
    assert_eq!(values.next(), Some(10));
    assert_eq!(values.next(), Some(11));
    assert_eq!(values.len(), 3);
    assert_eq!(values.next(), Some(12));
    assert_eq!(values.next(), Some(13));
    assert_eq!(values.next(), Some(14));
    assert_eq!(values.next(), None);
    assert_eq!(values.next(), None);
    assert_eq!(values.len(), 0);
}

#[test]
fn bulk_is_all_or_nothing() {
    let (sender, receiver) = ringbeam::spsc::bounded::<4, u32>();
    let mut abc = vec![7, 8, 9];
    assert_eq!(sender.try_send_bulk(&mut abc), Ok(3));
    let mut two = vec![1, 2];
    assert_eq!(sender.try_send_bulk(&mut two), Err(Error::Full));
    assert_eq!(two, vec![1, 2]);
    assert_eq!(drain(receiver.try_recv_bulk(3).unwrap()), vec![7, 8, 9]);
}

#[test]
fn bulk_fails_where_only_a_part_fits() {
    let (sender, receiver) = ringbeam::spsc::bounded::<4, u32>();
    let mut ab = vec![7, 8];
    assert_eq!(sender.try_send_bulk(&mut ab), Ok(2));
    let mut two = vec![1, 2];
    assert_eq!(sender.try_send_bulk(&mut two), Err(Error::NotEnoughSpace));
    assert_eq!(two, vec![1, 2]);
    assert_eq!(receiver.try_recv_bulk(3).err(), Some(Error::NotEnoughItems));
    assert_eq!(drain(receiver.try_recv_bulk(2).unwrap()), vec![7, 8]);
    assert_eq!(receiver.try_recv(), Err(Error::Empty));
}

#[test]
fn burst_takes_what_fits_and_leaves_the_rest() {
    let (sender, receiver) = ringbeam::spsc::bounded::<4, u32>();
    let mut values = vec![1, 2, 3, 4, 5];
    assert_eq!(sender.try_send_burst(&mut values), Ok(3));
    assert_eq!(values, vec![4, 5]);
    assert_eq!(sender.try_send_burst(&mut values), Err(Error::Full));
    assert_eq!(values, vec![4, 5]);
    let received = receiver.try_recv_burst(2).unwrap();
    assert_eq!(received.len(), 2);
    assert_eq!(drain(received), vec![1, 2]);
    assert_eq!(sender.try_send_burst(&mut values), Ok(2));
    assert!(values.is_empty());
    let received = receiver.try_recv_burst(10).unwrap();
    assert_eq!(received.len(), 3);
    assert_eq!(drain(received), vec![3, 4, 5]);
    assert_eq!(receiver.try_recv_burst(10).err(), Some(Error::Empty));
}

#[test]
fn closure_is_seen_once_the_ring_is_drained() {
    let (sender, receiver) = ringbeam::spsc::bounded::<8, u32>();
    let mut values = vec![1, 2, 3];
    assert_eq!(sender.try_send_bulk(&mut values), Ok(3));
    drop(sender);
    assert_eq!(receiver.try_recv_bulk(5).err(), Some(Error::NotEnoughItemsAndClosed));
    assert_eq!(drain(receiver.try_recv_burst(5).unwrap()), vec![1, 2, 3]);
    assert_eq!(receiver.try_recv(), Err(Error::Closed));
    assert_eq!(receiver.try_recv_bulk(1).err(), Some(Error::Closed));
    assert_eq!(receiver.try_recv_burst(3).err(), Some(Error::Closed));
}

#[test]
fn send_fails_for_good_once_the_receiver_is_gone() {
    let (sender, receiver) = ringbeam::spsc::bounded::<8, u32>();
    assert_eq!(sender.try_send(1), Ok(None));
    drop(receiver);
    assert_eq!(sender.try_send(2), Err(Error::Closed));
    assert_eq!(sender.try_send(3), Err(Error::Closed));
    let mut values = vec![4, 5];
    assert_eq!(sender.try_send_bulk(&mut values), Err(Error::Closed));
    assert_eq!(sender.try_send_burst(&mut values), Err(Error::Closed));
    assert_eq!(values, vec![4, 5]);
    sender.poison();
    assert_eq!(sender.try_send(6), Err(Error::Poisoned));
}

#[test]
fn values_outlive_the_receiver_they_came_from() {
    let (sender, receiver) = ringbeam::spsc::bounded::<8, u32>();
    let mut values = vec![1, 2, 3];
    assert_eq!(sender.try_send_bulk(&mut values), Ok(3));
    let mut received = receiver.try_recv_bulk(2).unwrap();
    drop(receiver);
    // The values still count as a consumer.
    assert_eq!(sender.try_send(4), Ok(None));
    assert_eq!(received.next(), Some(1));
    assert_eq!(received.next(), Some(2));
    assert_eq!(received.next(), None);
    // Now the last consumer is gone.
    assert_eq!(sender.try_send(5), Err(Error::Closed));
}

#[test]
fn poisoned_channel_reports_poisoned() {
    let (sender, receiver) = ringbeam::mpmc::bounded::<8, u32>();
    assert_eq!(sender.try_send(1), Ok(None));
    receiver.poison();
    assert_eq!(sender.try_send(2), Err(Error::Poisoned));
    let mut values = vec![3];
    assert_eq!(sender.try_send_bulk(&mut values), Err(Error::Poisoned));
    assert_eq!(sender.try_clone().err(), Some(Error::Poisoned));
    assert_eq!(receiver.try_clone().err(), Some(Error::Poisoned));
    // No further consumer can be counted, so what waits is not reserved.
    assert_eq!(receiver.try_recv(), Err(Error::Poisoned));
    assert_eq!(receiver.try_recv(), Err(Error::Poisoned));
}

#[test]
fn more_handles_can_be_made_on_a_shared_side() {
    let (sender, receiver) = ringbeam::mpmc::bounded::<8, u32>();
    let second = sender.try_clone().unwrap();
    let other = receiver.try_clone().unwrap();
    assert_eq!(sender.try_send(1), Ok(None));
    assert_eq!(second.try_send(2), Ok(None));
    drop(sender);
    assert_eq!(second.try_send(3), Ok(None));
    assert_eq!(other.try_recv(), Ok(1));
    assert_eq!(receiver.try_recv(), Ok(2));
    drop(receiver);
    assert_eq!(other.try_recv(), Ok(3));
    drop(second);
    assert_eq!(other.try_recv(), Err(Error::Closed));
}

#[test]
fn too_many_producers() {
    let (sender, _receiver) = ringbeam::mpsc::bounded::<2, u8>();
    let mut senders = Vec::new();
    for _ in 0..0xFFFD {
        senders.push(sender.try_clone().unwrap());
    }
    assert_eq!(sender.try_clone().err(), Some(Error::TooManyProducers));
    senders.pop();
    assert!(sender.try_clone().is_ok());
}

#[test]
fn too_many_consumers() {
    let (sender, receiver) = ringbeam::spmc::bounded::<2, u8>();
    let mut receivers = Vec::new();
    for _ in 0..0xFFFD {
        receivers.push(receiver.try_clone().unwrap());
    }
    assert_eq!(receiver.try_clone().err(), Some(Error::TooManyConsumers));
    // Nothing waits, and no reader can be counted: the count is what fails.
    assert_eq!(receiver.try_recv(), Err(Error::TooManyConsumers));
    assert_eq!(sender.try_send(1), Ok(None));
    assert_eq!(receiver.try_recv(), Err(Error::TooManyConsumers));
    assert_eq!(receiver.try_recv_bulk(1).err(), Some(Error::TooManyConsumers));
    assert_eq!(receiver.try_recv_burst(1).err(), Some(Error::TooManyConsumers));
    receivers.pop();
    // The value was not reserved in vain: it waits for the next receive.
    assert_eq!(receiver.try_recv(), Ok(1));
    assert_eq!(receiver.try_recv(), Err(Error::Empty));
    assert_eq!(sender.try_send(2), Ok(None));
    assert_eq!(receiver.try_recv(), Ok(2));
}

#[test]
fn a_receive_that_fails_leaves_no_consumer_counted() {
    let (sender, receiver) = ringbeam::mpmc::bounded::<4, u8>();
    for _ in 0..70_000 {
        assert_eq!(receiver.try_recv(), Err(Error::Empty));
        assert_eq!(receiver.try_recv_bulk(2).err(), Some(Error::Empty));
    }
    assert_eq!(sender.try_send(1), Ok(None));
    for _ in 0..70_000 {
        assert_eq!(receiver.try_recv_bulk(2).err(), Some(Error::NotEnoughItems));
    }
    let mut receivers = Vec::new();
    for _ in 0..0xFFFD {
        receivers.push(receiver.try_clone().unwrap());
    }
    assert_eq!(receiver.try_clone().err(), Some(Error::TooManyConsumers));
    receivers.clear();
    assert_eq!(receiver.try_recv(), Ok(1));
    // The receiver is still the one consumer: once it is gone the channel is
    // closed.
    drop(receiver);
    assert_eq!(sender.try_send(2), Err(Error::Closed));
}

#[test]
fn a_poisoned_channel_keeps_what_waits() {
    let drops = Arc::new(AtomicUsize::new(0));
    let (sender, receiver) = ringbeam::spsc::bounded::<4, Counted>();
    assert!(matches!(sender.try_send(Counted(1, drops.clone())), Ok(None)));
    sender.poison();
    assert!(matches!(receiver.try_recv(), Err(Error::Poisoned)));
    assert!(matches!(receiver.try_recv_burst(4), Err(Error::Poisoned)));
    // No receive has taken the value out and dropped it.
    assert_eq!(drops.load(Ordering::SeqCst), 0);
    drop(sender);
    drop(receiver);
    assert_eq!(drops.load(Ordering::SeqCst), 1);
}

#[test]
fn dropping_reserved_values_drops_each_once() {
    let drops = Arc::new(AtomicUsize::new(0));
    let (sender, receiver) = ringbeam::spsc::bounded::<8, Counted>();
    let mut values: Vec<Counted> = (0..5).map(|i| Counted(i, drops.clone())).collect();
    assert_eq!(sender.try_send_bulk(&mut values).ok(), Some(5));
    let mut received = receiver.try_recv_bulk(5).ok().unwrap();
    let first = received.next().unwrap();
    let second = received.next().unwrap();
    assert_eq!((first.0, second.0), (0, 1));
    assert_eq!(drops.load(Ordering::SeqCst), 0);
    drop(received);
    assert_eq!(drops.load(Ordering::SeqCst), 3);
    drop(first);
    drop(second);
    assert_eq!(drops.load(Ordering::SeqCst), 5);
    // The claim came back: the whole ring is free again.
    let mut more: Vec<Counted> = (5..12).map(|i| Counted(i, drops.clone())).collect();
    assert_eq!(sender.try_send_bulk(&mut more).ok(), Some(7));
    drop(sender);
    drop(receiver);
    assert_eq!(drops.load(Ordering::SeqCst), 12);
}

#[test]
fn a_value_that_does_not_fit_comes_back() {
    let drops = Arc::new(AtomicUsize::new(0));
    let (sender, _receiver) = ringbeam::spsc::bounded::<2, Counted>();
    assert!(matches!(sender.try_send(Counted(1, drops.clone())), Ok(None)));
    let back = sender.try_send(Counted(2, drops.clone())).ok().unwrap().unwrap();
    assert_eq!(back.0, 2);
    assert_eq!(drops.load(Ordering::SeqCst), 0);
}

fn fifo_over_many_rounds<P: Mode, C: Mode>() {
    let (sender, receiver) = ringbeam::custom::bounded::<16, u32, P, C>();
    let mut next_in = 0u32;
    let mut next_out = 0u32;
    for round in 0..200u32 {
        let mut values: Vec<u32> = (next_in..next_in + 1 + round % 11).collect();
        match sender.try_send_burst(&mut values) {
            Ok(n) => next_in += n as u32,
            Err(Error::Full) => {}
            Err(err) => panic!("{err:?}"),
        }
        match receiver.try_recv_burst((1 + round % 7) as usize) {
            Ok(mut values) => {
                while let Some(value) = values.next() {
                    assert_eq!(value, next_out);
                    next_out += 1;
                }
            }
            Err(Error::Empty) => {}
            Err(err) => panic!("{err:?}"),
        }
        assert!(next_in - next_out <= 15);
    }
    drop(sender);
    loop {
        match receiver.try_recv() {
            Ok(value) => {
                assert_eq!(value, next_out);
                next_out += 1;
            }
            Err(Error::Closed) => break,
            Err(err) => panic!("{err:?}"),
        }
    }
    assert_eq!(next_in, next_out);
    assert!(next_in > 200);
}

#[test]
fn every_pair_of_modes_is_a_queue() {
    fifo_over_many_rounds::<Single, Single>();
    fifo_over_many_rounds::<Single, Multi>();
    fifo_over_many_rounds::<Multi, Single>();
    fifo_over_many_rounds::<Multi, Multi>();
    fifo_over_many_rounds::<HeadTailSync, HeadTailSync>();
    fifo_over_many_rounds::<RelaxedTailSync, RelaxedTailSync>();
    fifo_over_many_rounds::<HeadTailSync, RelaxedTailSync>();
    fifo_over_many_rounds::<RelaxedTailSync, Multi>();
    fifo_over_many_rounds::<Single, HeadTailSync>();
}

#[test]
fn sum_of_what_is_received_is_the_sum_of_what_was_sent() {
    let (sender, receiver) = ringbeam::spmc::bounded::<64, u8>();
    let other = receiver.try_clone().unwrap();
    let mut sums = [0u32, 0u32];
    let mut next = 0u8;
    while next < 100 {
        match sender.try_send(next) {
            Ok(None) => next += 1,
            Ok(Some(_)) => {
                for (i, r) in [&receiver, &other].into_iter().enumerate() {
                    if let Ok(value) = r.try_recv() {
                        sums[i] += value as u32;
                    }
                }
            }
            Err(err) => panic!("{err:?}"),
        }
    }
    drop(sender);
    let mut closed = 0;
    while closed < 2 {
        closed = 0;
        for (i, r) in [&receiver, &other].into_iter().enumerate() {
            match r.try_recv() {
                Ok(value) => sums[i] += value as u32,
                Err(Error::Closed) => closed += 1,
                Err(err) => panic!("{err:?}"),
            }
        }
    }
    assert_eq!(sums[0] + sums[1], 4950);
}

#[test]
fn handles_can_be_sent_and_shared_as_their_side_allows() {
    fn sendable<T: Send>() {}
    fn shareable<T: Sync>() {}
    sendable::<ringbeam::spsc::Sender<8, u32>>();
    sendable::<ringbeam::spsc::Receiver<8, u32>>();
    sendable::<ringbeam::mpmc::Sender<8, u32>>();
    sendable::<ringbeam::mpmc::Receiver<8, u32>>();
    shareable::<ringbeam::mpmc::Sender<8, u32>>();
    shareable::<ringbeam::mpmc::Receiver<8, u32>>();
    shareable::<ringbeam::mpsc::Sender<8, u32>>();
    shareable::<ringbeam::spmc::Receiver<8, u32>>();
    sendable::<ringbeam::spsc::RecvValues<8, u32>>();
}

#[test]
fn errors_say_what_happened() {
    assert_eq!(Error::Closed.description(), "Channel is closed");
    assert_eq!(Error::Empty.description(), "Channel is empty");
    assert_eq!(Error::Full.description(), "Channel is full");
    assert_eq!(
        Error::NotEnoughItems.description(),
        "Channel had items, but not as many as requested"
    );
    assert_eq!(
        Error::NotEnoughItemsAndClosed.description(),
        "Channel is closed but still had items, but not as many as requested"
    );
    assert_eq!(
        Error::NotEnoughSpace.description(),
        "Channel had room, but not enough room for all the items"
    );
    assert_eq!(Error::Poisoned.description(), "Channel is poisoned");
    assert_eq!(
        Error::TooManyConsumers.description(),
        "Maximum amount of consumers in channel has been reached"
    );
    assert_eq!(
        Error::TooManyProducers.description(),
        "Maximum amount of producers in channel has been reached"
    );
}

#[test]
fn a_slot_without_a_value_counts_as_empty() {
    assert_eq!(ringbeam::consumer::received(Some(7u8)), Ok(7));
    assert_eq!(ringbeam::consumer::received::<u8>(None), Err(Error::Empty));
}
