//! Rounding to multiples of powers of two.

use vstd::arithmetic::div_mod::*;
use vstd::arithmetic::power::*;
use vstd::arithmetic::power2::*;
use vstd::bits::*;
use vstd::prelude::*;

verus! {

/// The least multiple of `align` that is not below `val`.
pub open spec fn round_up(val: int, align: int) -> int
    recommends
        align > 0,
{
    if val % align == 0 {
        val
    } else {
        val + (align - val % align)
    }
}

/// `round_up` lands on a multiple of `align`, at or above `val` and less than
/// one `align` away from it.
pub proof fn lemma_round_up_is_multiple(val: int, align: int)
    requires
        align > 0,
    ensures
        round_up(val, align) % align == 0,
        val <= round_up(val, align) < val + align,
{
    lemma_fundamental_div_mod(val, align);
    lemma_mod_bound(val, align);
    let q = val / align;
    if val % align == 0 {
    } else {
        assert(round_up(val, align) == align * (q + 1)) by (nonlinear_arith)
            requires
                val == align * q + val % align,
                round_up(val, align) == val + (align - val % align),
        ;
        lemma_mod_multiples_basic(q + 1, align);
        assert((q + 1) * align == align * (q + 1)) by (nonlinear_arith);
    }
}

/// No multiple of `align` lies between `val` and `round_up(val, align)`.
pub proof fn lemma_round_up_is_least(val: int, align: int, m: int)
    requires
        align > 0,
        m % align == 0,
        val <= m,
    ensures
        round_up(val, align) <= m,
{
    lemma_fundamental_div_mod(val, align);
    lemma_mod_bound(val, align);
    lemma_fundamental_div_mod(m, align);
    let q = val / align;
    let k = m / align;
    if val % align != 0 {
        assert(k >= q + 1) by (nonlinear_arith)
            requires
                m == align * k,
                val == align * q + val % align,
                0 < val % align < align,
                val <= m,
                align > 0,
        ;
        assert(align * k >= align * (q + 1)) by (nonlinear_arith)
            requires
                k >= q + 1,
                align > 0,
        ;
        assert(round_up(val, align) == align * (q + 1)) by (nonlinear_arith)
            requires
                val == align * q + val % align,
                round_up(val, align) == val + (align - val % align),
        ;
    }
}

/// A power of two that fits a `usize` is `pow2(n)` for some `n` below the
/// width of `usize`.
pub proof fn lemma_power_of_two_exponent(align: usize) -> (n: nat)
    requires
        is_pow2(align as int),
    ensures
        n < usize::BITS,
        pow2(n) == align,
        align > 0,
{
    is_pow2_equiv(align as int);
    let n = choose|i: nat| pow(2, i) == align as int;
    lemma_pow2(n);
    lemma_pow2_pos(n);
    if n >= usize::BITS {
        lemma2_to64();
        if n > usize::BITS {
            lemma_pow2_strictly_increases(usize::BITS as nat, n);
        }
        assert(usize::BITS == 32 || usize::BITS == 64);
        assert(false);
    }
    n
}

/// Clearing the bits of `val` below a power of two `align` lands on the
/// greatest multiple of `align` that is not above `val`.
pub proof fn lemma_mask_rounds_down(val: usize, align: usize, mask: usize)
    requires
        is_pow2(align as int),
        mask == align - 1,
    ensures
        val & !mask == val - val % align,
{
    let n = lemma_power_of_two_exponent(align);
    lemma_usize_low_bits_mask_is_mod(val, n);
    assert(low_bits_mask(n) as usize == mask);
    assert(val & mask == val % align);
    assert(val & mask <= val) by (bit_vector);
    assert(val & !mask == (val - (val & mask)) as usize) by (bit_vector);
}

/// Of two powers of two, the smaller divides the larger.
pub proof fn lemma_power_of_two_divides(small: int, large: int)
    requires
        is_pow2(small),
        is_pow2(large),
        small <= large,
    ensures
        large % small == 0,
    decreases large,
{
    reveal(is_pow2);
    if small == large {
        lemma_mod_multiples_basic(1, small);
    } else if small == 1 {
    } else {
        assert(large > 1);
        // both are even, so halve both
        assert(small / 2 <= large / 2);
        if small / 2 == large / 2 {
            assert(small == large);
        }
        lemma_power_of_two_divides(small / 2, large / 2);
        lemma_fundamental_div_mod(large / 2, small / 2);
        let q = (large / 2) / (small / 2);
        assert(large == small * q) by (nonlinear_arith)
            requires
                large / 2 == (small / 2) * q,
                large == 2 * (large / 2),
                small == 2 * (small / 2),
        ;
        lemma_mod_multiples_basic(q, small);
        assert(q * small == small * q) by (nonlinear_arith);
    }
}

/// The sum of two multiples of `align` is a multiple of `align`.
pub proof fn lemma_sum_of_multiples(a: int, b: int, align: int)
    requires
        align > 0,
        a % align == 0,
        b % align == 0,
    ensures
        (a + b) % align == 0,
{
    lemma_fundamental_div_mod(a, align);
    lemma_fundamental_div_mod(b, align);
    let i = a / align;
    let j = b / align;
    assert(a + b == (i + j) * align) by (nonlinear_arith)
        requires
            a == align * i,
            b == align * j,
    ;
    lemma_mod_multiples_basic(i + j, align);
}

/// Tells whether `align` is a power of two.
pub fn is_power_of_two(align: usize) -> (yes: bool)
    ensures
        yes == is_pow2(align as int),
{
    if align == 0 {
        proof {
            reveal(is_pow2);
        }
        return false;
    }
    let mut rest: usize = align;
    while rest % 2 == 0
        invariant
            rest > 0,
            is_pow2(rest as int) == is_pow2(align as int),
        decreases rest,
    {
        proof {
            reveal(is_pow2);
            assert(is_pow2(rest as int) == is_pow2(rest as int / 2));
        }
        rest = rest / 2;
    }
    proof {
        reveal(is_pow2);
    }
    rest == 1
}

/// Two multiples of `align` less than `align` apart are the same number.
pub proof fn lemma_close_multiples_equal(a: int, b: int, align: int)
    requires
        align > 0,
        a % align == 0,
        b % align == 0,
        a <= b < a + align,
    ensures
        a == b,
{
    lemma_fundamental_div_mod(a, align);
    lemma_fundamental_div_mod(b, align);
    let i = a / align;
    let j = b / align;
    assert(i == j) by (nonlinear_arith)
        requires
            a == align * i,
            b == align * j,
            a <= b < a + align,
            align > 0,
    ;
}

/// `num_traits::CheckedAdd::checked_add` at `usize`, which forwards to the
/// primitive's own checked addition: the sum, or `None` where it does not fit.
#[verifier::external_body]
fn checked_add_usize(val: usize, other: usize) -> (sum: Option<usize>)
    ensures
        sum == (if val + other <= usize::MAX {
            Some((val + other) as usize)
        } else {
            None
        }),
{
    num_traits::CheckedAdd::checked_add(&val, &other)
}

/// `num_traits::CheckedSub::checked_sub` at `usize`, which forwards to the
/// primitive's own checked subtraction: the difference, or `None` where it
/// would fall below zero.
#[verifier::external_body]
fn checked_sub_usize(val: usize, other: usize) -> (difference: Option<usize>)
    ensures
        difference == (if val >= other {
            Some((val - other) as usize)
        } else {
            None
        }),
{
    num_traits::CheckedSub::checked_sub(&val, &other)
}

/// Rounds `val` up to the next multiple of the power of two `align`.
///
/// Gives `None` exactly when `val + align` does not fit a `usize`.
pub fn align_up_checked(val: usize, align: usize) -> (aligned: Option<usize>)
    requires
        is_pow2(align as int),
    ensures
        aligned == (if val + align <= usize::MAX {
            Some(round_up(val as int, align as int) as usize)
        } else {
            None
        }),
        aligned is Some ==> aligned.unwrap() == round_up(val as int, align as int),
{
    proof {
        lemma_power_of_two_exponent(align);
    }
    let Some(sum) = checked_add_usize(val, align) else {
        return None;
    };
    let Some(top) = checked_sub_usize(sum, 1) else {
        return None;
    };
    let Some(low) = checked_sub_usize(align, 1) else {
        return None;
    };
    let mask: usize = !low;
    let aligned: usize = top & mask;
    proof {
        lemma_mask_rounds_down(top, align, low);
        lemma_fundamental_div_mod(top as int, align as int);
        lemma_mod_bound(top as int, align as int);
        let q = top as int / align as int;
        lemma_mod_multiples_basic(q, align as int);
        assert(aligned as int == align * q);
        assert(q * align == align * q) by (nonlinear_arith);
        lemma_round_up_is_multiple(val as int, align as int);
        lemma_round_up_is_least(val as int, align as int, aligned as int);
        lemma_close_multiples_equal(
            round_up(val as int, align as int),
            aligned as int,
            align as int,
        );
    }
    Some(aligned)
}

/// Rounds `val` up to the next multiple of the power of two `align`.
pub fn align_up(val: usize, align: usize) -> (aligned: usize)
    requires
        is_pow2(align as int),
        val + align <= usize::MAX,
    ensures
        aligned == round_up(val as int, align as int),
{
    match align_up_checked(val, align) {
        Some(aligned) => aligned,
        None => val,
    }
}

} // verus!
