use page_primer::probe::debug_bytes;
use page_primer::text::{address, decimal, push_decimal, push_hex};

const SAMPLES: [usize; 16] = [
    0,
    1,
    9,
    10,
    15,
    16,
    255,
    4096,
    0xabc_def,
    0x20_0000,
    0xffff_ffff_ffff,
    0x1_0000_0000_0000,
    0x7f00_0000_2000,
    1234567890,
    usize::MAX - 1,
    usize::MAX,
];

#[test]
fn addresses_have_at_least_twelve_hexadecimal_digits() {
    assert_eq!(address(0), "000000000000");
    assert_eq!(address(0xabc_def), "000000abcdef");
    assert_eq!(address(0xffff_ffff_ffff), "ffffffffffff");
    assert_eq!(address(0x1_0000_0000_0000), "1000000000000");
    assert_eq!(address(usize::MAX), "ffffffffffffffff");
    for n in SAMPLES {
        assert_eq!(address(n), format!("{:012x}", n));
    }
}

#[test]
fn numbers_are_written_in_decimal() {
    assert_eq!(decimal(0), "0");
    assert_eq!(decimal(7), "7");
    assert_eq!(decimal(10), "10");
    assert_eq!(decimal(1234567890), "1234567890");
    assert_eq!(decimal(usize::MAX), "18446744073709551615");
    for n in SAMPLES {
        assert_eq!(decimal(n), format!("{}", n));
    }
}

#[test]
fn digits_are_appended_to_what_is_there() {
    let mut text = String::from("n=");
    push_decimal(&mut text, 4096);
    text.push_str(" x=");
    push_hex(&mut text, 4096);
    assert_eq!(text, "n=4096 x=1000");
    for n in SAMPLES {
        let mut text = String::from("<");
        push_hex(&mut text, n);
        assert_eq!(text, format!("<{:x}", n));
    }
}

#[test]
fn bytes_are_shown_as_a_list() {
    assert_eq!(debug_bytes(b""), "[]");
    assert_eq!(debug_bytes(b"a"), "[97]");
    assert_eq!(debug_bytes(&[0, 9, 10, 99, 100, 255]), "[0, 9, 10, 99, 100, 255]");
    let all: Vec<u8> = (0..=255).collect();
    assert_eq!(debug_bytes(&all), format!("{:?}", all));
}
