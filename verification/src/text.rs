//! Text for the records: numbers, names and what the operating system says
//! of its errors.

use vstd::prelude::*;
use vstd::string::*;
use vstd::utf8::{decode_utf8, valid_utf8};

verus! {

/// The character that shows a digit below sixteen.
pub open spec fn digit_char(d: int) -> char {
    seq!['0', '1', '2', '3', '4', '5', '6', '7', '8', '9', 'a', 'b', 'c', 'd', 'e', 'f'][d]
}

/// A number in hexadecimal, lower case, without leading zeros.
pub open spec fn hex_digits(n: nat) -> Seq<char>
    decreases n,
{
    if n < 16 {
        seq![digit_char(n as int)]
    } else {
        hex_digits(n / 16).push(digit_char((n % 16) as int))
    }
}

/// A number in decimal, without leading zeros.
pub open spec fn decimal_digits(n: nat) -> Seq<char>
    decreases n,
{
    if n < 10 {
        seq![digit_char(n as int)]
    } else {
        decimal_digits(n / 10).push(digit_char((n % 10) as int))
    }
}

/// Text with zeros put before it until it has `width` characters.
pub open spec fn zero_padded(text: Seq<char>, width: nat) -> Seq<char> {
    if text.len() >= width {
        text
    } else {
        Seq::new((width - text.len()) as nat, |i: int| '0') + text
    }
}

/// An address as the records show it: in hexadecimal, with at least twelve
/// digits.
pub open spec fn address_text(addr: usize) -> Seq<char> {
    zero_padded(hex_digits(addr as nat), 12)
}

/// How `String::from_utf8_lossy` reads bytes: as the text that they encode,
/// with a replacement character for each part that encodes none.
pub uninterp spec fn lossy_text(bytes: Seq<u8>) -> Seq<char>;

/// Gives the character of a digit below sixteen, as text.
fn digit_str(d: usize) -> (text: &'static str)
    requires
        d < 16,
    ensures
        text@ == seq![digit_char(d as int)],
{
    proof {
        reveal_strlit("0");
        reveal_strlit("1");
        reveal_strlit("2");
        reveal_strlit("3");
        reveal_strlit("4");
        reveal_strlit("5");
        reveal_strlit("6");
        reveal_strlit("7");
        reveal_strlit("8");
        reveal_strlit("9");
        reveal_strlit("a");
        reveal_strlit("b");
        reveal_strlit("c");
        reveal_strlit("d");
        reveal_strlit("e");
        reveal_strlit("f");
    }
    let text = match d {
        0 => "0",
        1 => "1",
        2 => "2",
        3 => "3",
        4 => "4",
        5 => "5",
        6 => "6",
        7 => "7",
        8 => "8",
        9 => "9",
        10 => "a",
        11 => "b",
        12 => "c",
        13 => "d",
        14 => "e",
        _ => "f",
    };
    assert(text@ =~= seq![digit_char(d as int)]);
    text
}

/// Appends a number in hexadecimal.
pub fn push_hex(out: &mut String, n: usize)
    ensures
        final(out)@ == old(out)@ + hex_digits(n as nat),
    decreases n,
{
    if n >= 16 {
        push_hex(out, n / 16);
    }
    out.append(digit_str(n % 16));
    assert(out@ =~= old(out)@ + hex_digits(n as nat));
}

/// Appends a number in decimal.
pub fn push_decimal(out: &mut String, n: usize)
    ensures
        final(out)@ == old(out)@ + decimal_digits(n as nat),
    decreases n,
{
    if n >= 10 {
        push_decimal(out, n / 10);
    }
    out.append(digit_str(n % 10));
    assert(out@ =~= old(out)@ + decimal_digits(n as nat));
}

/// Counts the hexadecimal digits of a number.
fn hex_len(n: usize) -> (len: usize)
    ensures
        len == hex_digits(n as nat).len(),
        1 <= len <= n + 1,
    decreases n,
{
    if n >= 16 {
        1 + hex_len(n / 16)
    } else {
        1
    }
}

/// Writes an address as the records show it.
pub fn address(addr: usize) -> (text: String)
    ensures
        text@ == address_text(addr),
{
    let mut text = String::new();
    let mut len = hex_len(addr);
    let ghost digits = len;
    while len < 12
        invariant
            digits <= len,
            digits < 12 ==> len <= 12,
            digits >= 12 ==> len == digits,
            digits == hex_digits(addr as nat).len(),
            text@ == Seq::new((len - digits) as nat, |i: int| '0'),
        decreases 12 - len,
    {
        proof {
            reveal_strlit("0");
        }
        text.append("0");
        len += 1;
        assert(text@ =~= Seq::new((len - digits) as nat, |i: int| '0'));
    }
    push_hex(&mut text, addr);
    assert(text@ =~= address_text(addr));
    text
}

/// Writes a number in decimal.
pub fn decimal(n: usize) -> (text: String)
    ensures
        text@ == decimal_digits(n as nat),
{
    let mut text = String::new();
    push_decimal(&mut text, n);
    assert(text@ =~= decimal_digits(n as nat));
    text
}

/// Reads bytes as text with `String::from_utf8_lossy`. Bytes that are valid
/// UTF-8 give the text that they encode; what other bytes give is named, not
/// stated.
#[verifier::external_body]
pub(crate) fn lossy(bytes: &Vec<u8>) -> (text: String)
    ensures
        text@ == lossy_text(bytes@),
        valid_utf8(bytes@) ==> text@ == decode_utf8(bytes@),
{
    String::from_utf8_lossy(bytes).into_owned()
}

/// Describes an error number of the operating system, as the `Display` of
/// `std::io::Error::from_raw_os_error` does. The words depend on the process's
/// locale, so nothing is claimed of them.
#[verifier::external_body]
pub(crate) fn os_error_text(code: i32) -> (text: String) {
    format!("{}", std::io::Error::from_raw_os_error(code))
}

} // verus!
