//! Page sizes, their masks, and rounding addresses to page boundaries.
//!
//! A page size is a power of two; its mask is the size less one. The
//! executable functions work on masks with bitwise operations, and their
//! contracts say what they compute in terms of ordinary integer arithmetic.

use vstd::prelude::*;
use vstd::arithmetic::power2::{is_pow2, is_pow2_equiv, lemma_pow2, lemma_pow2_strictly_increases, pow2};
use vstd::bits::{lemma_usize_low_bits_mask_is_mod, low_bits_mask};
use vstd::layout::unsigned_int_max_values;

verus! {

/// A page size: a power of two greater than one.
pub open spec fn is_page_size(size: int) -> bool {
    size > 1 && is_pow2(size)
}

/// A mask that selects the low bits of an address: one less than a power of
/// two that fits in a machine word.
pub open spec fn is_mask(mask: usize) -> bool {
    mask < usize::MAX && is_pow2(mask + 1)
}

/// The greatest multiple of `size` that is at most `addr`.
pub open spec fn floor_to(addr: int, size: int) -> int {
    addr - addr % size
}

/// The least multiple of `size` that is at least `addr`.
pub open spec fn ceil_to(addr: int, size: int) -> int {
    if addr % size == 0 {
        addr
    } else {
        addr - addr % size + size
    }
}

/// Whether `addr` is a multiple of `size`.
pub open spec fn is_aligned(addr: int, size: int) -> bool {
    addr % size == 0
}

/// Masking an address with a page mask yields its offset within the page, and
/// masking with the complement yields the start of the page.
pub proof fn lemma_mask_splits(addr: usize, mask: usize)
    requires
        is_mask(mask),
    ensures
        addr & mask == (addr as int) % (mask + 1),
        addr & !mask == floor_to(addr as int, mask + 1),
{
    is_pow2_equiv(mask + 1);
    let e = choose|i: nat| vstd::arithmetic::power::pow(2, i) == mask + 1;
    lemma_pow2(e);
    assert(pow2(e) == mask + 1);
    unsigned_int_max_values();
    if e >= usize::BITS {
        if e > usize::BITS {
            lemma_pow2_strictly_increases(usize::BITS as nat, e);
        }
        assert(false);
    }
    lemma_usize_low_bits_mask_is_mod(addr, e);
    assert(low_bits_mask(e) as usize == mask);
    assert((pow2(e) as usize) as int == mask + 1);
    assert(addr & !mask == addr - (addr & mask)) by (bit_vector);
}

/// The floor of an address is a multiple of the size, at most the address and
/// less than one size below it.
pub proof fn lemma_floor_to(addr: int, size: int)
    requires
        size > 0,
    ensures
        is_aligned(floor_to(addr, size), size),
        floor_to(addr, size) <= addr < floor_to(addr, size) + size,
{
    vstd::arithmetic::div_mod::lemma_fundamental_div_mod(addr, size);
    vstd::arithmetic::div_mod::lemma_mod_multiples_basic(addr / size, size);
    vstd::arithmetic::mul::lemma_mul_is_commutative(addr / size, size);
}

/// No multiple of the size lies between the floor of an address and the
/// address.
pub proof fn lemma_floor_is_greatest(addr: int, size: int, m: int)
    requires
        size > 0,
        is_aligned(m, size),
        m <= addr,
    ensures
        m <= floor_to(addr, size),
{
    lemma_floor_to(addr, size);
    lemma_aligned_gap(floor_to(addr, size), m, size);
}

/// The ceiling of an address is a multiple of the size, at least the address
/// and less than one size above it.
pub proof fn lemma_ceil_to(addr: int, size: int)
    requires
        size > 0,
    ensures
        is_aligned(ceil_to(addr, size), size),
        addr <= ceil_to(addr, size) < addr + size,
{
    lemma_floor_to(addr, size);
    if addr % size != 0 {
        vstd::arithmetic::div_mod::lemma_mod_add_multiples_vanish(floor_to(addr, size), size);
    }
}

/// No multiple of the size lies between an address and its ceiling.
pub proof fn lemma_ceil_is_least(addr: int, size: int, m: int)
    requires
        size > 0,
        is_aligned(m, size),
        addr <= m,
    ensures
        ceil_to(addr, size) <= m,
{
    lemma_ceil_to(addr, size);
    lemma_aligned_gap(m, ceil_to(addr, size), size);
}

/// Two multiples of one size are equal or at least that size apart.
pub proof fn lemma_aligned_gap(a: int, b: int, size: int)
    requires
        size > 0,
        is_aligned(a, size),
        is_aligned(b, size),
    ensures
        a < b ==> a + size <= b,
{
    vstd::arithmetic::div_mod::lemma_fundamental_div_mod(a, size);
    vstd::arithmetic::div_mod::lemma_fundamental_div_mod(b, size);
    if a < b {
        let qa = a / size;
        let qb = b / size;
        assert(size * qa < size * qb);
        if qa >= qb {
            vstd::arithmetic::mul::lemma_mul_inequality(qb, qa, size);
            vstd::arithmetic::mul::lemma_mul_is_commutative(qa, size);
            vstd::arithmetic::mul::lemma_mul_is_commutative(qb, size);
            assert(false);
        }
        vstd::arithmetic::mul::lemma_mul_inequality(qa + 1, qb, size);
        vstd::arithmetic::mul::lemma_mul_is_commutative(qa + 1, size);
        vstd::arithmetic::mul::lemma_mul_is_commutative(qb, size);
        vstd::arithmetic::mul::lemma_mul_is_distributive_add(size, qa, 1);
    }
}

/// A multiple of a size is a multiple of every page size that divides it.
pub proof fn lemma_aligned_to_divisor(addr: int, small: int, large: int)
    requires
        small > 0,
        large > 0,
        is_aligned(large, small),
        is_aligned(addr, large),
    ensures
        is_aligned(addr, small),
{
    vstd::arithmetic::div_mod::lemma_fundamental_div_mod(addr, large);
    vstd::arithmetic::div_mod::lemma_fundamental_div_mod(large, small);
    let q = addr / large;
    let k = large / small;
    assert(addr == large * q);
    assert(large == small * k);
    vstd::arithmetic::mul::lemma_mul_is_associative(small, k, q);
    vstd::arithmetic::div_mod::lemma_mod_multiples_basic(k * q, small);
    vstd::arithmetic::mul::lemma_mul_is_commutative(k * q, small);
}

/// Of two powers of two the larger is a multiple of the smaller.
pub proof fn lemma_page_sizes_nest(small: int, large: int)
    requires
        is_pow2(small),
        is_pow2(large),
        small <= large,
    ensures
        is_aligned(large, small),
    decreases small,
{
    reveal(is_pow2);
    if small > 1 {
        let s = small / 2;
        let l = large / 2;
        lemma_page_sizes_nest(s, l);
        vstd::arithmetic::div_mod::lemma_fundamental_div_mod(l, s);
        let q = l / s;
        assert(l == s * q);
        assert(large == 2 * (s * q));
        vstd::arithmetic::mul::lemma_mul_is_associative(2, s, q);
        assert(large == small * q);
        vstd::arithmetic::div_mod::lemma_mod_multiples_basic(q, small);
        vstd::arithmetic::mul::lemma_mul_is_commutative(q, small);
    } else {
        assert(small == 1);
    }
}

/// Tells whether `size` is a page size.
pub fn is_power_of_two_page(size: usize) -> (ok: bool)
    ensures
        ok == is_page_size(size as int),
{
    if size <= 1 {
        return false;
    }
    let mut rest: usize = size;
    while rest % 2 == 0
        invariant
            rest >= 1,
            is_pow2(rest as int) == is_pow2(size as int),
        decreases rest,
    {
        proof {
            reveal(is_pow2);
        }
        rest = rest / 2;
    }
    proof {
        reveal(is_pow2);
    }
    rest == 1
}

/// Turns a page size into the mask of the address bits within a page.
pub fn mask(page_size: usize) -> (mask: usize)
    requires
        is_page_size(page_size as int),
    ensures
        mask == page_size - 1,
        is_mask(mask),
{
    page_size - 1
}

/// Rounds `addr` down to a multiple of the page size whose mask is `mask`.
pub fn round_down(addr: usize, mask: usize) -> (floor: usize)
    requires
        is_mask(mask),
    ensures
        floor == floor_to(addr as int, mask + 1),
{
    proof {
        lemma_mask_splits(addr, mask);
    }
    addr & !mask
}

/// Rounds `addr` up to a multiple of the page size whose mask is `mask`.
pub fn round_up(addr: usize, mask: usize) -> (ceil: usize)
    requires
        is_mask(mask),
        ceil_to(addr as int, mask + 1) <= usize::MAX,
    ensures
        ceil == ceil_to(addr as int, mask + 1),
{
    proof {
        lemma_mask_splits(addr, mask);
    }
    if (addr & mask) != 0 {
        (addr & !mask) + mask + 1
    } else {
        addr
    }
}

/// Rounds `addr` up as [`round_up`] does, or returns `None` where the result
/// is not an address.
pub fn checked_round_up(addr: usize, mask: usize) -> (ceil: Option<usize>)
    requires
        is_mask(mask),
    ensures
        ceil == if ceil_to(addr as int, mask + 1) <= usize::MAX {
            Some(ceil_to(addr as int, mask + 1) as usize)
        } else {
            None
        },
{
    proof {
        lemma_mask_splits(addr, mask);
    }
    if (addr & mask) != 0 {
        match (addr & !mask).checked_add(mask) {
            Some(last) => last.checked_add(1),
            None => None,
        }
    } else {
        Some(addr)
    }
}

/// Rounding up leaves a multiple of the page size where it is, so rounding
/// twice is rounding once; any other address moves to the first multiple above
/// it.
pub proof fn lemma_round_up_idempotent_and_minimal(addr: int, size: int, m: int)
    requires
        size > 0,
    ensures
        is_aligned(addr, size) ==> ceil_to(addr, size) == addr,
        ceil_to(ceil_to(addr, size), size) == ceil_to(addr, size),
        is_aligned(ceil_to(addr, size), size),
        addr <= ceil_to(addr, size),
        is_aligned(m, size) && addr <= m ==> ceil_to(addr, size) <= m,
{
    lemma_ceil_to(addr, size);
    if is_aligned(m, size) && addr <= m {
        lemma_ceil_is_least(addr, size, m);
    }
}

} // verus!
