//! The size of transparent huge pages, as read from the file in which the
//! kernel shows it.

use vstd::prelude::*;
use vstd::string::*;
use vstd::utf8::{decode_utf8, valid_utf8};
use crate::text::{decimal_digits, push_decimal};

verus! {

/// Whether a character is white space as Unicode defines it, which is what
/// `str::trim` removes.
pub open spec fn is_space(c: char) -> bool {
    let u = c as u32;
    ||| 0x09 <= u <= 0x0d
    ||| u == 0x20
    ||| u == 0x85
    ||| u == 0xa0
    ||| u == 0x1680
    ||| 0x2000 <= u <= 0x200a
    ||| u == 0x2028
    ||| u == 0x2029
    ||| u == 0x202f
    ||| u == 0x205f
    ||| u == 0x3000
}

/// Text without the white space at its start.
pub open spec fn trim_start(text: Seq<char>) -> Seq<char>
    decreases text.len(),
{
    if text.len() > 0 && is_space(text[0]) {
        trim_start(text.drop_first())
    } else {
        text
    }
}

/// Text without the white space at its end.
pub open spec fn trim_end(text: Seq<char>) -> Seq<char>
    decreases text.len(),
{
    if text.len() > 0 && is_space(text.last()) {
        trim_end(text.drop_last())
    } else {
        text
    }
}

/// Text without the white space at its start and at its end.
pub open spec fn trim_text(text: Seq<char>) -> Seq<char> {
    trim_end(trim_start(text))
}

/// Whether a character is a decimal digit.
pub open spec fn is_digit(c: char) -> bool {
    '0' <= c <= '9'
}

/// The number that decimal digits stand for.
pub open spec fn digits_value(digits: Seq<char>) -> nat
    decreases digits.len(),
{
    if digits.len() == 0 {
        0
    } else {
        digits_value(digits.drop_last()) * 10 + (digits.last() as u32 - '0' as u32) as nat
    }
}

/// The machine word that text stands for: the text is decimal digits, at
/// least one, after at most one plus sign, and their value fits.
pub open spec fn number_of(text: Seq<char>) -> Option<usize> {
    let digits = if text.len() > 0 && text[0] == '+' {
        text.drop_first()
    } else {
        text
    };
    if digits.len() > 0 && (forall|i: int| 0 <= i < digits.len() ==> is_digit(#[trigger] digits[i]))
        && digits_value(digits) <= usize::MAX {
        Some(digits_value(digits) as usize)
    } else {
        None
    }
}

/// The items of a byte list as `Debug` shows them: in decimal, with a comma
/// and a space between them.
pub open spec fn listed(bytes: Seq<u8>) -> Seq<char>
    decreases bytes.len(),
{
    if bytes.len() == 0 {
        Seq::empty()
    } else if bytes.len() == 1 {
        decimal_digits(bytes[0] as nat)
    } else {
        listed(bytes.drop_last()) + ", "@ + decimal_digits(bytes.last() as nat)
    }
}

/// A byte list as `Debug` shows it: its items in square brackets.
pub open spec fn bytes_debug_text(bytes: Seq<u8>) -> Seq<char> {
    "["@ + listed(bytes) + "]"@
}

/// What `Utf8Error` says of bytes that are not UTF-8.
pub uninterp spec fn utf8_error_text(bytes: Seq<u8>) -> Seq<char>;

/// What `ParseIntError` says of text that stands for no machine word.
pub uninterp spec fn number_error_text(text: Seq<char>) -> Seq<char>;

/// Text as `Debug` shows it: in double quotes, with escapes.
pub uninterp spec fn quoted_text(text: Seq<char>) -> Seq<char>;

/// Reads bytes as text with `std::str::from_utf8`, which succeeds on valid
/// UTF-8 and on nothing else; a failure is handed on in the words of its
/// `Display`.
#[verifier::external_body]
fn utf8<'a>(data: &'a [u8]) -> (text: Result<&'a str, String>)
    ensures
        match text {
            Ok(s) => valid_utf8(data@) && s@ == decode_utf8(data@),
            Err(why) => !valid_utf8(data@) && why@ == utf8_error_text(data@),
        },
{
    match std::str::from_utf8(data) {
        Ok(s) => Ok(s),
        Err(e) => Err(e.to_string()),
    }
}

/// Removes white space at both ends with `str::trim`.
#[verifier::external_body]
fn trimmed<'a>(text: &'a str) -> (inner: &'a str)
    ensures
        inner@ == trim_text(text@),
{
    text.trim()
}

/// Reads text as a machine word with `usize::from_str`, which takes decimal
/// digits after an optional plus sign and fails on anything else and on a
/// value that does not fit; a failure is handed on in the words of its
/// `Display`.
#[verifier::external_body]
fn number(text: &str) -> (n: Result<usize, String>)
    ensures
        match n {
            Ok(n) => number_of(text@) == Some(n),
            Err(why) => number_of(text@) is None && why@ == number_error_text(text@),
        },
{
    match <usize as std::str::FromStr>::from_str(text) {
        Ok(n) => Ok(n),
        Err(e) => Err(e.to_string()),
    }
}

/// Shows bytes as a list: in decimal, with a comma and a space between them,
/// in square brackets.
pub fn debug_bytes(data: &[u8]) -> (text: String)
    ensures
        text@ == bytes_debug_text(data@),
{
    let mut text = String::from_str("[");
    let mut i: usize = 0;
    proof {
        assert(data@.take(0) =~= Seq::<u8>::empty());
    }
    while i < data.len()
        invariant
            i <= data.len(),
            text@ == "["@ + listed(data@.take(i as int)),
        decreases data.len() - i,
    {
        if i > 0 {
            text.append(", ");
        }
        push_decimal(&mut text, data[i] as usize);
        proof {
            assert(data@.take(i + 1).drop_last() =~= data@.take(i as int));
            assert(data@.take(i + 1).last() == data@[i as int]);
            if i == 0 {
                assert(listed(data@.take(0)) =~= Seq::<char>::empty());
                assert(data@.take(1)[0] == data@[0]);
            }
        }
        i += 1;
        assert(text@ =~= "["@ + listed(data@.take(i as int)));
    }
    text.append("]");
    proof {
        assert(data@.take(i as int) =~= data@);
    }
    assert(text@ =~= bytes_debug_text(data@));
    text
}

/// Shows text as the `Debug` of a string slice does.
#[verifier::external_body]
fn debug_text(text: &str) -> (shown: String)
    ensures
        shown@ == quoted_text(text@),
{
    format!("{:?}", text)
}

/// Where the kernel shows the size of transparent huge pages.
pub const HPAGE_PMD_SIZE_PATH: &'static str = "/sys/kernel/mm/transparent_hugepage/hpage_pmd_size";

/// Why the size of huge pages is not known.
#[derive(Clone, Debug, PartialEq, Eq)]
pub enum ProbeError {
    /// The file holds something else than a size: `data` is what it holds.
    InvalidData { data: Vec<u8>, message: String },
    /// The file is there and could not be read.
    Unreadable { message: String },
}

impl ProbeError {
    /// The words of the error.
    pub open spec fn text(self) -> Seq<char> {
        match self {
            ProbeError::InvalidData { data, message } => message@,
            ProbeError::Unreadable { message } => message@,
        }
    }

    /// Gives the words of the error.
    pub fn message(&self) -> (text: &str)
        ensures
            text@ == self.text(),
    {
        match self {
            ProbeError::InvalidData { data, message } => message.as_str(),
            ProbeError::Unreadable { message } => message.as_str(),
        }
    }
}

/// What reading the file gave.
#[derive(Clone, Debug, PartialEq, Eq)]
pub enum FileRead {
    /// The contents of the file.
    Data(Vec<u8>),
    /// There is no such file.
    NotFound,
    /// Reading failed otherwise, with these words.
    Failed(String),
}

/// The size that the contents of the file stand for, if they do for any: the
/// contents are text that, white space at both ends aside, is a number.
pub open spec fn parsed_size(data: Seq<u8>) -> Option<usize> {
    if valid_utf8(data) {
        number_of(trim_text(decode_utf8(data)))
    } else {
        None
    }
}

/// What is said of contents that stand for no size.
pub open spec fn parse_failure_text(data: Seq<u8>) -> Seq<char> {
    if valid_utf8(data) {
        "unable to parse "@ + HPAGE_PMD_SIZE_PATH@ + " contents "@ + quoted_text(
            decode_utf8(data),
        ) + " as usize: "@ + number_error_text(trim_text(decode_utf8(data)))
    } else {
        "unable to parse "@ + HPAGE_PMD_SIZE_PATH@ + " contents "@ + bytes_debug_text(data)
            + " as utf8: "@ + utf8_error_text(data)
    }
}

/// Whether `result` is what parsing `data` gives: the size where the
/// contents stand for one, else an error that holds the contents.
pub open spec fn parses_to(data: Seq<u8>, result: Result<usize, ProbeError>) -> bool {
    match parsed_size(data) {
        Some(size) => result == Ok::<usize, ProbeError>(size),
        None => result matches Err(ProbeError::InvalidData { data: held, message })
            && held@ == data && message@ == parse_failure_text(data),
    }
}

/// Reads the size of huge pages from the contents of the file.
pub fn parse_huge_page_size(data: &[u8]) -> (size: Result<usize, ProbeError>)
    ensures
        parses_to(data@, size),
{
    let text = match utf8(data) {
        Ok(text) => text,
        Err(why) => {
            let mut message = String::from_str("unable to parse ");
            message.append(HPAGE_PMD_SIZE_PATH);
            message.append(" contents ");
            message.append(debug_bytes(data).as_str());
            message.append(" as utf8: ");
            message.append(why.as_str());
            assert(message@ =~= parse_failure_text(data@));
            return Err(ProbeError::InvalidData { data: vstd::slice::slice_to_vec(data), message });
        },
    };
    match number(trimmed(text)) {
        Ok(size) => Ok(size),
        Err(why) => {
            let mut message = String::from_str("unable to parse ");
            message.append(HPAGE_PMD_SIZE_PATH);
            message.append(" contents ");
            message.append(debug_text(text).as_str());
            message.append(" as usize: ");
            message.append(why.as_str());
            assert(message@ =~= parse_failure_text(data@));
            Err(ProbeError::InvalidData { data: vstd::slice::slice_to_vec(data), message })
        },
    }
}

/// Whether `result` is what a read of the file means for huge pages: none
/// where there is no file, the size where the contents stand for one, and an
/// error otherwise.
pub open spec fn probes_to(read: FileRead, result: Result<Option<usize>, ProbeError>) -> bool {
    match read {
        FileRead::NotFound => result == Ok::<Option<usize>, ProbeError>(None),
        FileRead::Failed(why) => result matches Err(ProbeError::Unreadable { message })
            && message@ == why@,
        FileRead::Data(data) => match parsed_size(data@) {
            Some(size) => result == Ok::<Option<usize>, ProbeError>(Some(size)),
            None => result matches Err(ProbeError::InvalidData { data: held, message })
                && held@ == data@ && message@ == parse_failure_text(data@),
        },
    }
}

/// Tells the size of transparent huge pages from what reading the kernel's
/// file gave, `None` where the kernel has none.
pub fn huge_page_size(read: FileRead) -> (size: Result<Option<usize>, ProbeError>)
    ensures
        probes_to(read, size),
{
    match read {
        FileRead::NotFound => Ok(None),
        FileRead::Failed(message) => Err(ProbeError::Unreadable { message }),
        FileRead::Data(data) => match parse_huge_page_size(data.as_slice()) {
            Ok(size) => Ok(Some(size)),
            Err(e) => Err(e),
        },
    }
}

} // verus!
