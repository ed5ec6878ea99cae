use ringbeam::modes::hts::HeadTail;
use ringbeam::modes::load_order;
use ringbeam::modes::rts::MaxHeadTailDistance;
use ringbeam::modes::rts::PosCnt;
use ringbeam::modes::HeadTailSync;
use ringbeam::modes::LoadOrder;
use ringbeam::modes::Mode;
use ringbeam::modes::ModeInner;
use ringbeam::modes::Multi;
use ringbeam::modes::RelaxedTailSync;
use ringbeam::modes::Single;
use ringbeam::modes::Tail;
use ringbeam::Error;
use std::sync::atomic::Ordering;

const MARK: u32 = 0x8000_0000;

/// Fills and drains a ring of eight slots through the two sides, and checks
/// where each claim lies.
fn walk<P: Mode, C: Mode>(prod: P, cons: C) {
    // An empty ring.
    assert_eq!(cons.move_head::<8, false, false, P>(&prod, 1).err(), Some(Error::Empty));
    assert_eq!(prod.load_tail(LoadOrder::Acquire), 0);
    assert!(!prod.is_finished());

    // Three slots for the producer.
    let claim = prod.move_head::<8, true, true, C>(&cons, 3).unwrap();
    assert_eq!((claim.start(), claim.entries()), (0, 3));
    // Not given back yet: nothing to read.
    assert_eq!(cons.move_head::<8, false, false, P>(&prod, 1).err(), Some(Error::Empty));
    assert_eq!(prod.load_tail(LoadOrder::Acquire), 0);
    prod.update_tail::<8>(claim);
    assert_eq!(prod.load_tail(LoadOrder::Acquire), 3);

    // The consumer wants five and none else.
    assert_eq!(cons.move_head::<8, false, true, P>(&prod, 5).err(), Some(Error::NotEnoughItems));
    // Or up to five.
    let claim = cons.move_head::<8, false, false, P>(&prod, 5).unwrap();
    assert_eq!((claim.start(), claim.entries()), (0, 3));
    // Not given back yet: four slots are free, not seven.
    let room = prod.move_head::<8, true, false, C>(&cons, 8).unwrap();
    assert_eq!((room.start(), room.entries()), (3, 4));
    prod.update_tail::<8>(room);
    assert_eq!(prod.load_tail(LoadOrder::Acquire), 7);
    assert_eq!(prod.move_head::<8, true, false, C>(&cons, 1).err(), Some(Error::Full));
    cons.update_tail::<8>(claim);
    assert_eq!(cons.load_tail(LoadOrder::Acquire), 3);

    // Across the end of the ring.
    let room = prod.move_head::<8, true, true, C>(&cons, 3).unwrap();
    assert_eq!((room.start(), room.entries()), (7, 3));
    prod.update_tail::<8>(room);
    assert_eq!(prod.load_tail(LoadOrder::Acquire), 2);
    assert_eq!(prod.move_head::<8, true, true, C>(&cons, 1).err(), Some(Error::Full));
    let claim = cons.move_head::<8, false, true, P>(&prod, 7).unwrap();
    assert_eq!((claim.start(), claim.entries()), (3, 7));
    cons.update_tail::<8>(claim);
    assert_eq!(cons.load_tail(LoadOrder::Acquire), 2);

    // The producers leave.
    prod.mark_finished();
    assert!(prod.is_finished());
    assert_eq!(prod.load_tail(LoadOrder::Acquire), 2 | MARK);
    assert_eq!(cons.move_head::<8, false, false, P>(&prod, 1).err(), Some(Error::Closed));
    // The consumers leave.
    assert!(!cons.is_finished());
    cons.mark_finished();
    assert!(cons.is_finished());
    assert_eq!(cons.load_tail(LoadOrder::Relaxed), 2 | MARK);
    assert_eq!(prod.move_head::<8, true, false, C>(&cons, 1).err(), Some(Error::Closed));
}

/// A claim that comes back to a side that was marked as finished meanwhile
/// moves the tail and leaves the mark.
fn mark_stays<P: Mode, C: Mode>(prod: P, cons: C) {
    let claim = prod.move_head::<8, true, true, C>(&cons, 3).unwrap();
    prod.mark_finished();
    assert_eq!(prod.load_tail(LoadOrder::Acquire), MARK);
    prod.update_tail::<8>(claim);
    assert_eq!(prod.load_tail(LoadOrder::Acquire), 3 | MARK);
    assert!(prod.is_finished());
    let claim = cons.move_head::<8, false, true, P>(&prod, 3).unwrap();
    cons.mark_finished();
    cons.update_tail::<8>(claim);
    assert_eq!(cons.load_tail(LoadOrder::Acquire), 3 | MARK);
    assert!(cons.is_finished());
}

#[test]
fn finished_mark_stays_when_a_claim_comes_back() {
    mark_stays(Single::default(), Single::default());
    mark_stays(Multi::default(), Multi::default());
    mark_stays(HeadTailSync::default(), HeadTailSync::default());
    mark_stays(RelaxedTailSync::default(), RelaxedTailSync::default());
}

#[test]
fn single_and_single() {
    walk(Single::default(), Single::default());
}

#[test]
fn multi_and_multi() {
    walk(Multi::default(), Multi::default());
}

#[test]
fn hts_and_hts() {
    walk(HeadTailSync::default(), HeadTailSync::default());
}

#[test]
fn rts_and_rts() {
    walk(RelaxedTailSync::default(), RelaxedTailSync::default());
}

#[test]
fn mixed_modes() {
    walk(Multi::default(), Single::default());
    walk(Single::default(), Multi::default());
    walk(HeadTailSync::default(), RelaxedTailSync::default());
    walk(RelaxedTailSync::default(), HeadTailSync::default());
    walk(Single::new_with(()), RelaxedTailSync::new_with(MaxHeadTailDistance::default()));
    walk(Multi::new_with(()), HeadTailSync::new_with(()));
}

#[test]
fn producer_sees_closed_once_the_consumers_are_finished() {
    let prod = Multi::default();
    let cons = Multi::default();
    cons.mark_finished();
    assert_eq!(prod.move_head::<8, true, false, Multi>(&cons, 1).err(), Some(Error::Closed));
    assert_eq!(prod.move_head::<8, true, true, Multi>(&cons, 7).err(), Some(Error::Closed));
    assert_eq!(prod.move_head::<8, true, true, Multi>(&cons, 1).err(), Some(Error::Closed));
}

#[test]
fn exact_consumer_sees_not_enough_items_and_closed() {
    let prod = Single::default();
    let cons = Single::default();
    let claim = prod.move_head::<8, true, true, Single>(&cons, 3).unwrap();
    prod.update_tail::<8>(claim);
    prod.mark_finished();
    assert_eq!(
        cons.move_head::<8, false, true, Single>(&prod, 5).err(),
        Some(Error::NotEnoughItemsAndClosed)
    );
    let claim = cons.move_head::<8, false, false, Single>(&prod, 5).unwrap();
    assert_eq!((claim.start(), claim.entries()), (0, 3));
    cons.update_tail::<8>(claim);
    assert_eq!(cons.move_head::<8, false, false, Single>(&prod, 1).err(), Some(Error::Closed));
}

#[test]
fn multi_claims_follow_one_another() {
    let prod = Multi::default();
    let cons = Multi::default();
    let first = prod.move_head::<8, true, true, Multi>(&cons, 2).unwrap();
    let second = prod.move_head::<8, true, true, Multi>(&cons, 3).unwrap();
    assert_eq!((first.start(), first.entries()), (0, 2));
    assert_eq!((second.start(), second.entries()), (2, 3));
    prod.update_tail::<8>(first);
    assert_eq!(prod.load_tail(LoadOrder::Acquire), 2);
    prod.update_tail::<8>(second);
    assert_eq!(prod.load_tail(LoadOrder::Acquire), 5);
}

#[test]
fn rts_tail_moves_with_the_last_claim_that_comes_back() {
    let prod = RelaxedTailSync::default();
    let cons = Single::default();
    let first = prod.move_head::<8, true, true, Single>(&cons, 2).unwrap();
    let second = prod.move_head::<8, true, true, Single>(&cons, 3).unwrap();
    assert_eq!((first.start(), first.entries()), (0, 2));
    assert_eq!((second.start(), second.entries()), (2, 3));
    // The second comes back first: the tail stays.
    prod.update_tail::<8>(second);
    assert_eq!(prod.load_tail(LoadOrder::Acquire), 0);
    assert_eq!(cons.move_head::<8, false, false, RelaxedTailSync>(&prod, 1).err(), Some(Error::Empty));
    // The last one moves it past both.
    prod.update_tail::<8>(first);
    assert_eq!(prod.load_tail(LoadOrder::Acquire), 5);
}

#[test]
fn rts_with_a_chosen_distance() {
    let prod = RelaxedTailSync::new(4);
    let cons = Single::default();
    let first = prod.move_head::<8, true, true, Single>(&cons, 4).unwrap();
    assert_eq!((first.start(), first.entries()), (0, 4));
    // Four slots from the tail: a second claim is still taken.
    let second = prod.move_head::<8, true, true, Single>(&cons, 1).unwrap();
    assert_eq!((second.start(), second.entries()), (4, 1));
    prod.update_tail::<8>(first);
    prod.update_tail::<8>(second);
    assert_eq!(prod.load_tail(LoadOrder::Acquire), 5);
    assert_eq!(MaxHeadTailDistance::new(4).get(), 4);
    assert_eq!(MaxHeadTailDistance::default().get(), u32::MAX);
}

#[test]
fn hts_finished_side_reports_instead_of_waiting() {
    let prod = HeadTailSync::default();
    let cons = HeadTailSync::default();
    prod.mark_finished();
    assert_eq!(
        prod.move_head::<8, true, false, HeadTailSync>(&cons, 1).err(),
        Some(Error::Poisoned)
    );
    cons.mark_finished();
    assert_eq!(
        prod.move_head::<8, true, false, HeadTailSync>(&cons, 1).err(),
        Some(Error::Closed)
    );
}

#[test]
fn head_tail_is_packed_with_the_head_on_top() {
    let pair = HeadTail { head: 3, tail: 1 };
    assert_eq!(pair.encode(), 0x0000_0003_0000_0001);
    assert_eq!(HeadTail::decode(0x0000_0003_0000_0001), pair);
    assert!(pair.is_busy());
    assert!(!HeadTail { head: 3, tail: 3 }.is_busy());
    assert!(!HeadTail { head: 3, tail: 3 | MARK }.is_busy());
    assert_eq!(
        HeadTail::released(5, HeadTail { head: 5, tail: 2 }),
        HeadTail { head: 5, tail: 5 }
    );
    assert_eq!(
        HeadTail::released(5, HeadTail { head: 5, tail: 2 | MARK }),
        HeadTail { head: 5, tail: 5 | MARK }
    );
}

#[test]
fn head_tail_reserves_from_the_tail() {
    let idle = HeadTail { head: 6, tail: 6 };
    let (claim, next) = idle.reserve::<8, true, false>(1, 5).unwrap();
    assert_eq!((claim.start(), claim.entries()), (6, 2));
    assert_eq!(next, HeadTail { head: 0, tail: 6 });
    assert_eq!(claim.new_tail::<8>(), 0);
    assert_eq!(idle.reserve::<8, true, true>(1, 5).err(), Some(Error::NotEnoughSpace));
    assert_eq!(idle.reserve::<8, false, false>(6, 1).err(), Some(Error::Empty));
}

#[test]
fn pos_cnt_is_packed_with_the_position_on_top() {
    let pair = PosCnt { pos: 5, cnt: 2 };
    assert_eq!(pair.encode(), 0x0000_0005_0000_0002);
    assert_eq!(PosCnt::decode(0x0000_0005_0000_0002), pair);
}

#[test]
fn pos_cnt_reserve_counts_the_claim() {
    let head = PosCnt { pos: 6, cnt: 7 };
    let (claim, next) = head.reserve::<8, true, false>(1, 5).unwrap();
    assert_eq!((claim.start(), claim.entries()), (6, 2));
    assert_eq!(next, PosCnt { pos: 0, cnt: 0 });
    assert_eq!(claim.new_tail::<8>(), 0);
    assert_eq!(head.reserve::<8, false, true>(6, 1).err(), Some(Error::Empty));
}

#[test]
fn pos_cnt_release_moves_the_position_with_the_last_claim() {
    let head = PosCnt { pos: 5, cnt: 2 };
    let tail = PosCnt { pos: 0, cnt: 0 };
    let once = PosCnt::release::<8>(tail, head);
    assert_eq!(once, PosCnt { pos: 0, cnt: 1 });
    let twice = PosCnt::release::<8>(once, head);
    assert_eq!(twice, PosCnt { pos: 5, cnt: 2 });
    // A marked tail stays marked.
    assert_eq!(
        PosCnt::release::<8>(PosCnt { pos: MARK, cnt: 1 }, head),
        PosCnt { pos: 5 | MARK, cnt: 2 }
    );
    // The count wraps with the ring.
    assert_eq!(
        PosCnt::release::<8>(PosCnt { pos: 1, cnt: 7 }, PosCnt { pos: 4, cnt: 0 }),
        PosCnt { pos: 4, cnt: 0 }
    );
}

#[test]
fn pos_cnt_too_far_compares_the_distance() {
    let tail = PosCnt { pos: 6, cnt: 0 };
    assert!(!PosCnt::too_far::<8>(PosCnt { pos: 1, cnt: 1 }, tail, 3));
    assert!(PosCnt::too_far::<8>(PosCnt { pos: 2, cnt: 1 }, tail, 3));
    assert!(!PosCnt::too_far::<8>(PosCnt { pos: 2, cnt: 1 }, tail, u32::MAX));
    assert!(!PosCnt::too_far::<8>(PosCnt { pos: 1, cnt: 1 }, PosCnt { pos: 6 | MARK, cnt: 0 }, 3));
}

#[test]
fn load_order_names_the_ordering_of_the_standard_library() {
    assert_eq!(load_order(LoadOrder::Relaxed), Ordering::Relaxed);
    assert_eq!(load_order(LoadOrder::Acquire), Ordering::Acquire);
    assert_eq!(load_order(LoadOrder::SeqCst), Ordering::SeqCst);
}
