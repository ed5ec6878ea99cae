use ringbeam::index::advance;
use ringbeam::index::distance;
use ringbeam::index::high_half;
use ringbeam::index::is_finished_word;
use ringbeam::index::is_valid_capacity;
use ringbeam::index::low_half;
use ringbeam::index::mask;
use ringbeam::index::pack;
use ringbeam::index::position_of;
use ringbeam::index::with_mark_of;
use ringbeam::index::FINISHED;
use ringbeam::index::POSITION;

#[test]
fn mask_is_one_less_than_the_size() {
    assert_eq!(mask::<2>(), 1);
    assert_eq!(mask::<64>(), 63);
    assert_eq!(mask::<0x8000_0000>(), 0x7FFF_FFFF);
}

#[test]
fn advance_wraps_at_the_end_of_the_ring() {
    assert_eq!(advance::<64>(0, 1), 1);
    assert_eq!(advance::<64>(63, 1), 0);
    assert_eq!(advance::<64>(60, 10), 6);
    assert_eq!(advance::<2>(1, 1), 0);
    assert_eq!(advance::<0x8000_0000>(0x7FFF_FFFF, 1), 0);
}

#[test]
fn advance_survives_a_sum_beyond_32_bits() {
    assert_eq!(advance::<64>(u32::MAX, u32::MAX), 62);
    assert_eq!(advance::<0x8000_0000>(u32::MAX, 2), 1);
}

#[test]
fn distance_counts_forward_round_the_ring() {
    assert_eq!(distance::<64>(3, 10), 7);
    assert_eq!(distance::<64>(10, 3), 57);
    assert_eq!(distance::<64>(5, 5), 0);
    assert_eq!(distance::<2>(1, 0), 1);
    assert_eq!(distance::<0x8000_0000>(1, 0), 0x7FFF_FFFF);
}

#[test]
fn finished_mark_is_the_highest_bit() {
    assert_eq!(FINISHED, 0x8000_0000);
    assert_eq!(POSITION, 0x7FFF_FFFF);
    assert!(!is_finished_word(0));
    assert!(!is_finished_word(0x7FFF_FFFF));
    assert!(is_finished_word(0x8000_0000));
    assert!(is_finished_word(0x8000_0005));
    assert_eq!(position_of(0x8000_0005), 5);
    assert_eq!(position_of(5), 5);
    assert_eq!(position_of(u32::MAX), 0x7FFF_FFFF);
}

#[test]
fn pack_puts_the_first_half_on_top() {
    assert_eq!(pack(1, 2), 0x0000_0001_0000_0002);
    assert_eq!(pack(u32::MAX, 0), 0xFFFF_FFFF_0000_0000);
    assert_eq!(high_half(0x0000_0001_0000_0002), 1);
    assert_eq!(low_half(0x0000_0001_0000_0002), 2);
    assert_eq!(high_half(pack(7, 9)), 7);
    assert_eq!(low_half(pack(7, 9)), 9);
}

#[test]
fn a_moved_tail_keeps_the_mark_it_had() {
    assert_eq!(with_mark_of(5, 3), 5);
    assert_eq!(with_mark_of(5, 0x8000_0003), 0x8000_0005);
    assert_eq!(with_mark_of(0, 0x8000_0000), 0x8000_0000);
    assert_eq!(with_mark_of(0x7FFF_FFFF, 0), 0x7FFF_FFFF);
}

#[test]
fn valid_capacities_are_the_powers_of_two_from_2_to_2_31() {
    assert!(!is_valid_capacity(0));
    assert!(!is_valid_capacity(1));
    assert!(is_valid_capacity(2));
    assert!(!is_valid_capacity(3));
    assert!(is_valid_capacity(4));
    assert!(is_valid_capacity(64));
    assert!(!is_valid_capacity(65));
    assert!(!is_valid_capacity(96));
    assert!(is_valid_capacity(0x4000_0000));
    assert!(is_valid_capacity(0x8000_0000));
    assert!(!is_valid_capacity(0x8000_0001));
    assert!(!is_valid_capacity(0xFFFF_FFFF));
    assert!(!is_valid_capacity(0x1_0000_0000));
    let mut powers = 0;
    for k in 0..64u32 {
        if is_valid_capacity(1usize << k) {
            powers += 1;
        }
    }
    assert_eq!(powers, 31);
}
