use vstd::prelude::*;

verus! {

use vstd::arithmetic::power2::{is_pow2, is_pow2_equiv, pow2, lemma_pow2_adds, lemma2_to64};
use vstd::arithmetic::div_mod::{
    lemma_fundamental_div_mod_converse, lemma_mod_breakdown, lemma_mod_mod, lemma_mod_multiples_basic,
};

/// The alignment of the start address that the capacity bound assumes: a
/// value is admitted only if it fits behind any start aligned to it.
pub const INLINE_ALIGN: usize = 16;

/// Number of bytes to skip from address `base` so that the next address is a
/// multiple of `align`.
pub open spec fn spec_padding(base: int, align: int) -> int {
    (align - base % align) % align
}

/// Clearing the low bits of `x` below a power-of-two `a` rounds `x` down to a
/// multiple of `a`.
proof fn lemma_mask_rounds_down(x: usize, a: usize)
    requires
        is_pow2(a as int),
    ensures
        x & !((a - 1) as usize) == x - x % a,
    decreases a,
{
    reveal(is_pow2);
    let m: usize = (a - 1) as usize;
    if a == 1 {
        assert(x & !m == x) by (bit_vector)
            requires m == 0usize;
    } else {
        let b: usize = a / 2;
        let mb: usize = (b - 1) as usize;
        let h: usize = x / 2;
        assert(is_pow2(b as int));
        lemma_mask_rounds_down(h, b);
        assert(x & !m == ((x / 2) & !mb) * 2) by (bit_vector)
            requires a == b + b, b >= 1usize, m == a - 1, mb == b - 1;
        lemma_mod_breakdown(x as int, 2, b as int);
        assert(x == 2 * h + x % 2);
    }
}

/// The padding after `base` is the least offset that makes the address a
/// multiple of `align`: it is below `align`, it aligns `base`, and no smaller
/// offset does.
pub proof fn lemma_padding_is_least_aligning_offset(base: int, align: int)
    requires
        align > 0,
    ensures
        0 <= spec_padding(base, align) < align,
        (base + spec_padding(base, align)) % align == 0,
        forall|q: int| 0 <= q < spec_padding(base, align) ==> #[trigger] ((base + q) % align) != 0,
{
    let q = base / align;
    let r = base % align;
    assert(base == q * align + r) by (nonlinear_arith)
        requires align > 0, q == base / align, r == base % align;
    assert((q + 1) * align == q * align + align) by (nonlinear_arith);
    if r == 0 {
        lemma_fundamental_div_mod_converse(align, align, 1, 0);
        lemma_fundamental_div_mod_converse(base, align, q, 0);
    } else {
        lemma_fundamental_div_mod_converse(align - r, align, 0, align - r);
        lemma_fundamental_div_mod_converse(base + (align - r), align, q + 1, 0);
    }
    assert forall|k: int| 0 <= k < spec_padding(base, align) implies #[trigger] ((base + k) % align) != 0 by {
        lemma_fundamental_div_mod_converse(base + k, align, q, r + k);
    }
}

/// Padding needed after address `base` so that a value of alignment `align`
/// placed there is correctly aligned: the distance from `base` up to the next
/// multiple of `align` (zero when `base` is already aligned).
pub fn padding_for(base: usize, align: usize) -> (padding: usize)
    requires
        is_pow2(align as int),
        base + align - 1 <= usize::MAX,
    ensures
        padding == spec_padding(base as int, align as int),
        padding < align,
        (base + padding) % (align as int) == 0,
        forall|q: int| 0 <= q < padding ==> #[trigger] ((base + q) % (align as int)) != 0,
{
    proof {
        reveal(is_pow2);
    }
    let m: usize = align - 1;
    let t: usize = base + m;
    proof {
        lemma_mask_rounds_down(t, align);
        let q = base as int / align as int;
        let r = base as int % align as int;
        assert(base == q * align + r) by (nonlinear_arith)
            requires align > 0, q == base as int / align as int, r == base as int % align as int;
        assert(t == q * align + (align - 1) + r);
        assert((q + 1) * align == q * align + align) by (nonlinear_arith);
        if r == 0 {
            lemma_fundamental_div_mod_converse(t as int, align as int, q, align - 1);
        } else {
            lemma_fundamental_div_mod_converse(t as int, align as int, q + 1, r - 1);
        }
        if r == 0 {
            lemma_fundamental_div_mod_converse(align as int, align as int, 1, 0);
        } else {
            lemma_fundamental_div_mod_converse(align - r, align as int, 0, align - r);
        }
        assert forall|k: int| 0 <= k < spec_padding(base as int, align as int) implies
            #[trigger] ((base + k) % (align as int)) != 0 by {
            lemma_fundamental_div_mod_converse(base + k, align as int, q, r + k);
        }
        if r == 0 {
            lemma_fundamental_div_mod_converse(base as int, align as int, q, 0);
        } else {
            lemma_fundamental_div_mod_converse(base + (align - r), align as int, q + 1, 0);
        }
    }
    let aligned: usize = t & !m;
    aligned - base
}

/// Bytes a buffer that starts at an `INLINE_ALIGN`-aligned address must offer
/// so that a value of the given size and alignment fits in it wherever the
/// buffer lies: the worst-case padding plus the size.
pub open spec fn spec_required_capacity(size: int, align: int) -> int {
    spec_padding(INLINE_ALIGN as int, align) + size
}

/// A power of two and `INLINE_ALIGN` divide one another.
proof fn lemma_pow2_and_inline_align(align: int)
    requires
        is_pow2(align),
    ensures
        align <= INLINE_ALIGN ==> (INLINE_ALIGN as int) % align == 0,
        align >= INLINE_ALIGN ==> align % (INLINE_ALIGN as int) == 0,
        align > 0,
{
    is_pow2_equiv(align);
    let i = choose|i: nat| vstd::arithmetic::power::pow(2, i) == align;
    vstd::arithmetic::power::lemma_pow_positive(2, i);
    assert(pow2(i) == align);
    lemma2_to64();
    vstd::arithmetic::power2::lemma_pow2_pos(i);
    if i <= 4 {
        lemma_pow2_adds(i, (4 - i) as nat);
        vstd::arithmetic::power2::lemma_pow2_pos((4 - i) as nat);
        assert(pow2(i) * pow2((4 - i) as nat) == 16);
        assert((INLINE_ALIGN as int) == pow2((4 - i) as nat) * align) by (nonlinear_arith)
            requires pow2(i) * pow2((4 - i) as nat) == 16, pow2(i) == align;
        lemma_mod_multiples_basic(pow2((4 - i) as nat) as int, align);
        if i < 4 {
            vstd::arithmetic::power2::lemma_pow2_strictly_increases(i, 4);
        }
    } else {
        lemma_pow2_adds(4, (i - 4) as nat);
        assert(pow2(4) * pow2((i - 4) as nat) == align);
        assert(align == pow2((i - 4) as nat) * 16) by (nonlinear_arith)
            requires pow2(4) * pow2((i - 4) as nat) == align, pow2(4) == 16;
        lemma_mod_multiples_basic(pow2((i - 4) as nat) as int, 16);
        vstd::arithmetic::power2::lemma_pow2_strictly_increases(4, i);
    }
}

/// Wherever an `INLINE_ALIGN`-aligned buffer lies, the padding a value of
/// power-of-two alignment `align` needs there is at most the worst case that
/// `spec_required_capacity` reserves; so a value that passes the capacity check
/// fits in the buffer at every such address.
pub proof fn lemma_placement_within_capacity(base: int, align: int, size: int, capacity: int)
    requires
        base >= 0,
        base % (INLINE_ALIGN as int) == 0,
        is_pow2(align),
        spec_required_capacity(size, align) <= capacity,
    ensures
        spec_padding(base, align) + size <= capacity,
{
    lemma_pow2_and_inline_align(align);
    let r = base % align;
    if align <= INLINE_ALIGN {
        lemma_mod_mod(base, align, 16int / align);
        assert(align * (16int / align) == 16) by (nonlinear_arith)
            requires 16int % align == 0, align > 0;
        assert(base % (align * (16int / align)) == 0);
        assert(0int % align == 0);
        assert(r == 0);
        lemma_fundamental_div_mod_converse(align, align, 1, 0);
    } else {
        lemma_fundamental_div_mod_converse(INLINE_ALIGN as int, align, 0, INLINE_ALIGN as int);
        lemma_fundamental_div_mod_converse(align - 16, align, 0, align - 16);
        assert(16 * (align / 16) == align) by (nonlinear_arith)
            requires align % 16 == 0, align > 0;
        lemma_mod_mod(base, 16int, align / 16);
        assert(r % 16 == 0);
        if r == 0 {
            lemma_fundamental_div_mod_converse(align, align, 1, 0);
        } else {
            lemma_fundamental_div_mod_converse(align - r, align, 0, align - r);
        }
    }
}

/// The capacity bound is exact: a value of size `size` and power-of-two
/// alignment `align` passes the bound `capacity` if and only if, behind every
/// `INLINE_ALIGN`-aligned start, some offset below `align` aligns the value
/// and leaves it within `capacity` bytes.
pub proof fn lemma_required_capacity_exact(size: int, align: int, capacity: int)
    requires
        is_pow2(align),
    ensures
        spec_required_capacity(size, align) <= capacity <==> (forall|base: int|
            #![trigger base % (INLINE_ALIGN as int)]
            base >= 0 && base % (INLINE_ALIGN as int) == 0 ==> exists|p: int|
                0 <= p < align && #[trigger] ((base + p) % align) == 0 && p + size <= capacity),
{
    lemma_pow2_and_inline_align(align);
    if spec_required_capacity(size, align) <= capacity {
        assert forall|base: int|
            #![trigger base % (INLINE_ALIGN as int)]
            base >= 0 && base % (INLINE_ALIGN as int) == 0 implies exists|p: int|
                0 <= p < align && #[trigger] ((base + p) % align) == 0 && p + size <= capacity by {
            lemma_placement_within_capacity(base, align, size, capacity);
            lemma_padding_is_least_aligning_offset(base, align);
            let p = spec_padding(base, align);
            assert((base + p) % align == 0);
        }
    }
    if forall|base: int|
        #![trigger base % (INLINE_ALIGN as int)]
        base >= 0 && base % (INLINE_ALIGN as int) == 0 ==> exists|p: int|
            0 <= p < align && #[trigger] ((base + p) % align) == 0 && p + size <= capacity {
        let start: int = INLINE_ALIGN as int;
        assert(start % (INLINE_ALIGN as int) == 0);
        let p = choose|p: int| 0 <= p < align && #[trigger] ((start + p) % align) == 0 && p + size <= capacity;
        lemma_padding_is_least_aligning_offset(start, align);
        if p < spec_padding(start, align) {
            assert((start + p) % align != 0);
        }
    }
}

/// A value whose alignment divides `INLINE_ALIGN` needs no padding: it passes
/// the bound `capacity` exactly when its size is at most `capacity`.
pub proof fn lemma_small_alignment_needs_no_padding(size: int, align: int, capacity: int)
    requires
        is_pow2(align),
        align <= INLINE_ALIGN,
    ensures
        spec_required_capacity(size, align) <= capacity <==> size <= capacity,
{
    lemma_pow2_and_inline_align(align);
    lemma_fundamental_div_mod_converse(align, align, 1, 0);
}

/// Whether a value of the given size and alignment fits in an inline buffer of
/// `capacity` bytes: the worst-case padding for `align` behind an
/// `INLINE_ALIGN`-aligned start, plus `size`, must not exceed `capacity`.
pub fn fits_inline(capacity: usize, size: usize, align: usize) -> (fits: bool)
    requires
        align > 0,
    ensures
        fits == (spec_required_capacity(size as int, align as int) <= capacity),
{
    let padding: usize = (align - INLINE_ALIGN % align) % align;
    match padding.checked_add(size) {
        Some(required) => required <= capacity,
        None => false,
    }
}

} // verus!
