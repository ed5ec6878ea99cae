use ringbeam::modes::busy;
use ringbeam::modes::calculate_available;
use ringbeam::modes::initialized_entries;
use ringbeam::modes::reserve;
use ringbeam::modes::uninitialized_entries;
use ringbeam::modes::Claim;
use ringbeam::Error;

const MARK: u32 = 0x8000_0000;

#[test]
fn claim_keeps_what_it_was_made_of() {
    let claim = Claim::many(3, 5);
    assert_eq!(claim.entries(), 3);
    assert_eq!(claim.start(), 5);
    assert_eq!(claim.new_tail::<8>(), 0);
}

#[test]
fn new_tail_wraps_round_the_ring() {
    assert_eq!(Claim::many(1, 0).new_tail::<64>(), 1);
    assert_eq!(Claim::many(4, 62).new_tail::<64>(), 2);
    assert_eq!(Claim::many(1, 1).new_tail::<2>(), 0);
    assert_eq!(Claim::many(1, 0x7FFF_FFFF).new_tail::<0x8000_0000>(), 0);
}

#[test]
fn a_producer_finds_all_slots_but_one_in_an_empty_ring() {
    assert_eq!(uninitialized_entries::<64>(0, 0), 63);
    assert_eq!(uninitialized_entries::<64>(10, 10), 63);
    assert_eq!(uninitialized_entries::<2>(0, 0), 1);
    assert_eq!(uninitialized_entries::<0x8000_0000>(0, 0), 0x7FFF_FFFF);
}

#[test]
fn a_producer_finds_the_room_between_its_head_and_the_consumer_tail() {
    assert_eq!(uninitialized_entries::<64>(5, 0), 58);
    assert_eq!(uninitialized_entries::<64>(63, 0), 0);
    assert_eq!(uninitialized_entries::<64>(2, 60), 57);
    assert_eq!(uninitialized_entries::<64>(5, MARK), 58);
}

#[test]
fn a_consumer_finds_the_values_between_its_head_and_the_producer_tail() {
    assert_eq!(initialized_entries::<64>(0, 0), 0);
    assert_eq!(initialized_entries::<64>(0, 5), 5);
    assert_eq!(initialized_entries::<64>(60, 2), 6);
    assert_eq!(initialized_entries::<64>(60, 2 | MARK), 6);
    assert_eq!(initialized_entries::<2>(1, 0), 1);
}

#[test]
fn producer_is_granted_what_it_asks_for_if_there_is_room() {
    assert_eq!(calculate_available::<64, true, false>(0, 0, 10), Ok(10));
    assert_eq!(calculate_available::<64, true, true>(0, 0, 63), Ok(63));
}

#[test]
fn producer_is_granted_what_is_left_if_it_need_not_be_exact() {
    assert_eq!(calculate_available::<64, true, false>(60, 0, 10), Ok(3));
    assert_eq!(calculate_available::<64, true, false>(0, 0, u32::MAX), Ok(63));
}

#[test]
fn producer_sees_closed_before_anything_else() {
    assert_eq!(calculate_available::<64, true, false>(0, MARK, 1), Err(Error::Closed));
    assert_eq!(calculate_available::<64, true, true>(MARK, MARK, 1), Err(Error::Closed));
    assert_eq!(calculate_available::<64, true, true>(63, MARK, 1), Err(Error::Closed));
}

#[test]
fn a_marked_head_is_poisoned() {
    assert_eq!(calculate_available::<64, true, false>(MARK, 0, 1), Err(Error::Poisoned));
    assert_eq!(calculate_available::<64, false, false>(MARK, 5, 1), Err(Error::Poisoned));
    assert_eq!(calculate_available::<64, false, true>(MARK | 3, MARK | 5, 1), Err(Error::Poisoned));
}

#[test]
fn producer_sees_full_when_one_slot_is_left() {
    assert_eq!(calculate_available::<64, true, false>(63, 0, 1), Err(Error::Full));
    assert_eq!(calculate_available::<64, true, true>(63, 0, 5), Err(Error::Full));
    assert_eq!(calculate_available::<2, true, false>(1, 0, 1), Err(Error::Full));
}

#[test]
fn exact_producer_sees_not_enough_space() {
    assert_eq!(calculate_available::<64, true, true>(60, 0, 10), Err(Error::NotEnoughSpace));
    assert_eq!(calculate_available::<4, true, true>(2, 0, 2), Err(Error::NotEnoughSpace));
}

#[test]
fn consumer_sees_empty_or_closed_when_nothing_waits() {
    assert_eq!(calculate_available::<64, false, false>(5, 5, 1), Err(Error::Empty));
    assert_eq!(calculate_available::<64, false, true>(5, 5, 3), Err(Error::Empty));
    assert_eq!(calculate_available::<64, false, false>(5, 5 | MARK, 1), Err(Error::Closed));
}

#[test]
fn consumer_still_gets_what_waits_in_a_closed_ring() {
    assert_eq!(calculate_available::<64, false, false>(2, 5 | MARK, 10), Ok(3));
    assert_eq!(calculate_available::<64, false, true>(2, 5 | MARK, 3), Ok(3));
}

#[test]
fn exact_consumer_sees_not_enough_items() {
    assert_eq!(calculate_available::<64, false, true>(2, 5, 4), Err(Error::NotEnoughItems));
    assert_eq!(
        calculate_available::<64, false, true>(2, 5 | MARK, 4),
        Err(Error::NotEnoughItemsAndClosed)
    );
}

#[test]
fn the_largest_ring_grants_up_to_all_slots_but_one() {
    assert_eq!(
        calculate_available::<0x8000_0000, true, false>(0, 0, u32::MAX),
        Ok(0x7FFF_FFFF)
    );
    assert_eq!(
        calculate_available::<0x8000_0000, true, true>(0x7FFF_FFFF, 0, 1),
        Err(Error::Full)
    );
    assert_eq!(
        calculate_available::<0x8000_0000, false, false>(0x7FFF_FFFF, 1, 5),
        Ok(2)
    );
}

#[test]
fn reserve_gives_the_claim_and_the_new_head() {
    let (claim, head) = reserve::<64, true, false>(60, 0, 10).unwrap();
    assert_eq!(claim.entries(), 3);
    assert_eq!(claim.start(), 60);
    assert_eq!(head, 63);
    assert_eq!(claim.new_tail::<64>(), 63);

    let (claim, head) = reserve::<64, false, true>(62, 3, 5).unwrap();
    assert_eq!(claim.entries(), 5);
    assert_eq!(claim.start(), 62);
    assert_eq!(head, 3);
    assert_eq!(claim.new_tail::<64>(), 3);
}

#[test]
fn reserve_passes_the_error_on() {
    assert_eq!(reserve::<64, true, false>(63, 0, 1).err(), Some(Error::Full));
    assert_eq!(reserve::<64, false, false>(0, 0, 1).err(), Some(Error::Empty));
    assert_eq!(reserve::<64, true, true>(0, MARK, 1).err(), Some(Error::Closed));
}

#[test]
fn a_side_that_gives_up_asks_to_try_again() {
    assert_eq!(busy::<true>(), Error::Full);
    assert_eq!(busy::<false>(), Error::Empty);
}
