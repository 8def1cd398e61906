use page_primer::page::{checked_round_up, is_power_of_two_page, mask, round_down, round_up};

#[test]
fn mask_is_one_less_than_the_size() {
    assert_eq!(mask(4096), 0xfff);
    assert_eq!(mask(2 * 1024 * 1024), 0x1f_ffff);
    assert_eq!(mask(2), 1);
}

#[test]
fn page_sizes_are_powers_of_two_above_one() {
    assert!(is_power_of_two_page(2));
    assert!(is_power_of_two_page(4096));
    assert!(is_power_of_two_page(1 << 21));
    assert!(is_power_of_two_page(1 << (usize::BITS - 1)));
    assert!(!is_power_of_two_page(0));
    assert!(!is_power_of_two_page(1));
    assert!(!is_power_of_two_page(3));
    assert!(!is_power_of_two_page(4097));
    assert!(!is_power_of_two_page(usize::MAX));
}

#[test]
fn round_up_keeps_aligned_addresses() {
    assert_eq!(round_up(0x1000, 0xfff), 0x1000);
    assert_eq!(round_up(0, 0xfff), 0);
    assert_eq!(round_up(0x40_0000, 0x1f_ffff), 0x40_0000);
}

#[test]
fn round_up_moves_to_the_next_boundary() {
    assert_eq!(round_up(0x1001, 0xfff), 0x2000);
    assert_eq!(round_up(0x1fff, 0xfff), 0x2000);
    assert_eq!(round_up(1, 0x1f_ffff), 0x20_0000);
    assert_eq!(round_up(7, 0), 7);
}

#[test]
fn round_up_twice_is_round_up_once() {
    for addr in [0usize, 1, 0xfff, 0x1000, 0x1001, 0x12_3456, 0x7fff_ffff_f001] {
        let once = round_up(addr, 0xfff);
        assert_eq!(round_up(once, 0xfff), once);
        assert!(once >= addr && once - addr < 0x1000);
        assert_eq!(once % 0x1000, 0);
    }
}

#[test]
fn round_down_moves_to_the_boundary_below() {
    assert_eq!(round_down(0x1000, 0xfff), 0x1000);
    assert_eq!(round_down(0x1fff, 0xfff), 0x1000);
    assert_eq!(round_down(0x3f_ffff, 0x1f_ffff), 0x20_0000);
    assert_eq!(round_down(5, 0), 5);
}

#[test]
fn checked_round_up_stops_at_the_end_of_the_address_space() {
    assert_eq!(checked_round_up(0x1001, 0xfff), Some(0x2000));
    assert_eq!(checked_round_up(usize::MAX - 0xfff, 0xfff), Some(usize::MAX - 0xfff));
    assert_eq!(checked_round_up(usize::MAX - 0xffe, 0xfff), None);
    assert_eq!(checked_round_up(usize::MAX, 0xfff), None);
    assert_eq!(checked_round_up(usize::MAX, 0), Some(usize::MAX));
}
