//! Pointer and length alignment.

use vstd::arithmetic::div_mod::{
    lemma_fundamental_div_mod_converse, lemma_mod_mod, lemma_mod_multiples_basic,
};
use vstd::arithmetic::power::pow;
use vstd::arithmetic::power2::{
    is_pow2, is_pow2_equiv, lemma2_to64, lemma2_to64_rest, lemma_pow2_adds, lemma_pow2_pos,
    lemma_pow2_strictly_increases, pow2,
};
use vstd::prelude::*;

verus! {

/// `ptr` is a multiple of `align`.
pub open spec fn aligned(ptr: int, align: int) -> bool {
    ptr % align == 0
}

/// Whether `ptr` is aligned to `align` bytes; `align` must be a power of two.
pub fn is_aligned(ptr: usize, align: usize) -> (r: bool)
    requires
        is_pow2(align as int),
    ensures
        r == aligned(ptr as int, align as int),
{
    proof {
        reveal(is_pow2);
    }
    ptr % align == 0
}

/// Whether both a pointer and a length are multiples of the page size, as a
/// buffer wrapped without a copy must be.
pub fn is_page_aligned(ptr: usize, len: usize, page: usize) -> (r: bool)
    requires
        is_pow2(page as int),
    ensures
        r == (aligned(ptr as int, page as int) && aligned(len as int, page as int)),
{
    is_aligned(ptr, page) && is_aligned(len, page)
}

/// Everything is aligned to one byte.
pub proof fn aligned_to_one_always(ptr: usize)
    ensures
        aligned(ptr as int, 1),
{
}

/// A machine-word product with a power of two is aligned to that power of
/// two, even when the product wraps.
pub proof fn wrapped_multiple_is_aligned(base: usize, align: usize)
    requires
        is_pow2(align as int),
    ensures
        aligned((base * align) % (usize::MAX + 1), align as int),
{
    is_pow2_equiv(align as int);
    let k = choose|k: nat| pow(2, k) == align as int;
    lemma_pow2_pos(k);
    lemma2_to64();
    lemma2_to64_rest();
    let bits: nat = if usize::MAX == 0xffff_ffff {
        32
    } else {
        64
    };
    assert(usize::MAX + 1 == pow2(bits));
    if k > bits {
        lemma_pow2_strictly_increases(bits, k);
    }
    lemma_pow2_adds(k, (bits - k) as nat);
    lemma_pow2_pos((bits - k) as nat);
    lemma_mod_mod(base * align, align as int, pow2((bits - k) as nat) as int);
    lemma_mod_multiples_basic(base as int, align as int);
}

/// A whole number of pages is page-aligned.
pub proof fn whole_pages_are_aligned(pages: nat, page: usize)
    requires
        is_pow2(page as int),
    ensures
        aligned((pages * page) as int, page as int),
{
    reveal(is_pow2);
    lemma_mod_multiples_basic(pages as int, page as int);
}

/// An aligned address is a whole number of steps of the alignment, and no other
/// address is.
pub proof fn aligned_addresses_are_multiples(ptr: int, align: int, steps: int, rest: int)
    requires
        align > 0,
        ptr == steps * align + rest,
        0 <= rest < align,
    ensures
        aligned(ptr, align) <==> rest == 0,
{
    lemma_fundamental_div_mod_converse(ptr, align, steps, rest);
}

} // verus!
