//! Protection flags: those of a program header, which say how a segment may
//! be accessed, and those that a memory mapping is made with.

use vstd::prelude::*;
use vstd::string::*;

verus! {

/// The program header flag of a segment that may be executed: `libc::PF_X`,
/// which the crate defines as bit 0.
#[verifier::external_body]
fn pf_x() -> (bit: u32)
    ensures
        bit == 1,
{
    libc::PF_X
}

/// The program header flag of a segment that may be written: `libc::PF_W`,
/// which the crate defines as bit 1.
#[verifier::external_body]
fn pf_w() -> (bit: u32)
    ensures
        bit == 2,
{
    libc::PF_W
}

/// The program header flag of a segment that may be read: `libc::PF_R`, which
/// the crate defines as bit 2.
#[verifier::external_body]
fn pf_r() -> (bit: u32)
    ensures
        bit == 4,
{
    libc::PF_R
}

/// The mapping protection that allows reads: `libc::PROT_READ`, which the
/// crate defines as 1.
#[verifier::external_body]
fn prot_read() -> (bit: i32)
    ensures
        bit == 1,
{
    libc::PROT_READ
}

/// The mapping protection that allows writes: `libc::PROT_WRITE`, which the
/// crate defines as 2.
#[verifier::external_body]
fn prot_write() -> (bit: i32)
    ensures
        bit == 2,
{
    libc::PROT_WRITE
}

/// The mapping protection that allows execution: `libc::PROT_EXEC`, which the
/// crate defines as 4.
#[verifier::external_body]
fn prot_exec() -> (bit: i32)
    ensures
        bit == 4,
{
    libc::PROT_EXEC
}

/// Whether program header flags allow reading.
pub open spec fn readable(flags: u32) -> bool {
    flags & 4 != 0
}

/// Whether program header flags allow writing.
pub open spec fn writable(flags: u32) -> bool {
    flags & 2 != 0
}

/// Whether program header flags allow execution.
pub open spec fn executable(flags: u32) -> bool {
    flags & 1 != 0
}

/// The mapping protection that allows what the program header flags allow.
pub open spec fn prot_of(flags: u32) -> i32 {
    (if readable(flags) {
        1i32
    } else {
        0i32
    }) | (if writable(flags) {
        2i32
    } else {
        0i32
    }) | (if executable(flags) {
        4i32
    } else {
        0i32
    })
}

/// The three characters that show what program header flags allow.
pub open spec fn triad(flags: u32) -> Seq<char> {
    seq![
        if readable(flags) {
            'r'
        } else {
            '-'
        },
        if writable(flags) {
            'w'
        } else {
            '-'
        },
        if executable(flags) {
            'x'
        } else {
            '-'
        },
    ]
}

/// Tells whether program header flags allow reading.
pub fn is_readable(flags: u32) -> (yes: bool)
    ensures
        yes == readable(flags),
{
    (flags & pf_r()) != 0
}

/// Tells whether program header flags allow writing.
pub fn is_writable(flags: u32) -> (yes: bool)
    ensures
        yes == writable(flags),
{
    (flags & pf_w()) != 0
}

/// Tells whether program header flags allow execution.
pub fn is_executable(flags: u32) -> (yes: bool)
    ensures
        yes == executable(flags),
{
    (flags & pf_x()) != 0
}

/// Turns program header flags into the protection to make a mapping with.
pub fn transform_prot(p_flags: u32) -> (prot: i32)
    ensures
        prot == prot_of(p_flags),
{
    let mut out: i32 = 0;
    if is_readable(p_flags) {
        out = out | prot_read();
    }
    if is_writable(p_flags) {
        out = out | prot_write();
    }
    if is_executable(p_flags) {
        out = out | prot_exec();
    }
    proof {
        assert(0i32 | 1i32 == 1i32) by (bit_vector);
        assert(forall|v: i32| #[trigger] (v | 0i32) == v) by (bit_vector);
    }
    out
}

/// Describes program header flags as three characters, such as `r-x`.
pub fn debug_prot(p_flags: u32) -> (text: String)
    ensures
        text@ == triad(p_flags),
{
    proof {
        reveal_strlit("r");
        reveal_strlit("w");
        reveal_strlit("x");
        reveal_strlit("-");
    }
    let mut text = String::from_str(
        if is_readable(p_flags) {
            "r"
        } else {
            "-"
        },
    );
    text.append(
        if is_writable(p_flags) {
            "w"
        } else {
            "-"
        },
    );
    text.append(
        if is_executable(p_flags) {
            "x"
        } else {
            "-"
        },
    );
    assert(text@ =~= triad(p_flags));
    text
}

/// The transform keeps each permission and adds none: a mapping may be read,
/// written or executed exactly if the program header says so, and the
/// protection of a union of flags is the union of their protections.
pub proof fn lemma_transform_keeps_permissions(a: u32, b: u32)
    ensures
        prot_of(a) & 1 != 0 <==> readable(a),
        prot_of(a) & 2 != 0 <==> writable(a),
        prot_of(a) & 4 != 0 <==> executable(a),
        prot_of(a) & !7i32 == 0,
        prot_of(a | b) == prot_of(a) | prot_of(b),
{
    assert(prot_of(a) & 1 != 0 <==> readable(a)) by (bit_vector);
    assert(prot_of(a) & 2 != 0 <==> writable(a)) by (bit_vector);
    assert(prot_of(a) & 4 != 0 <==> executable(a)) by (bit_vector);
    assert(prot_of(a) & !7i32 == 0) by (bit_vector);
    assert(prot_of(a | b) == prot_of(a) | prot_of(b)) by (bit_vector);
}

} // verus!
