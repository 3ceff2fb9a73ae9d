use vstd::prelude::*;
use vstd::arithmetic::power2::{is_pow2, is_pow2_equiv, pow2, lemma_pow2_strictly_increases, lemma2_to64};
use vstd::arithmetic::power::pow;
use vstd::layout::{unsigned_int_max_values, signed_int_min_max_values};
use vstd::bits::{low_bits_mask, lemma_u64_low_bits_mask_is_mod};
use vstd::arithmetic::div_mod::{lemma_fundamental_div_mod, lemma_mod_multiples_basic};

verus! {

/// A power of two is positive.
pub proof fn lemma_pow2_positive(a: int)
    requires
        is_pow2(a),
    ensures
        a > 0,
{
    reveal(is_pow2);
}

/// A power of two divides every power of two that is not smaller.
pub proof fn lemma_pow2_divides(a: int, m: int)
    requires
        is_pow2(a),
        is_pow2(m),
        m <= a,
    ensures
        a % m == 0,
    decreases a,
{
    reveal(is_pow2);
    if m != 1 {
        assert(m % 2 == 0 && is_pow2(m / 2));
        assert(a % 2 == 0 && is_pow2(a / 2));
        lemma_pow2_divides(a / 2, m / 2);
        lemma_pow2_positive(m / 2);
        lemma_fundamental_div_mod(a / 2, m / 2);
        let q = (a / 2) / (m / 2);
        assert(a == q * m) by (nonlinear_arith)
            requires
                a / 2 == (m / 2) * q + (a / 2) % (m / 2),
                (a / 2) % (m / 2) == 0,
                a == 2 * (a / 2),
                m == 2 * (m / 2),
        ;
        lemma_mod_multiples_basic(q, m);
    }
}

/// For a power of two `a`, masking with `a - 1` keeps the remainder modulo `a`.
pub proof fn lemma_mask_is_mod(x: usize, a: usize)
    requires
        is_pow2(a as int),
    ensures
        x & ((a - 1) as usize) == x % a,
{
    lemma_pow2_positive(a as int);
    is_pow2_equiv(a as int);
    let n = choose|i: nat| pow(2, i) == a as int;
    assert(pow2(n) == a);
    if n >= 64 {
        lemma2_to64();
        if n > 64 {
            lemma_pow2_strictly_increases(64, n);
        }
        assert(false);
    }
    lemma_u64_low_bits_mask_is_mod(x as u64, n);
    let m: usize = (a - 1) as usize;
    assert(low_bits_mask(n) == m);
    assert((x as u64) & (m as u64) == (x & m) as u64) by (bit_vector);
}

/// A power of two that fits in a `usize` is at most `isize::MAX + 1`.
pub proof fn lemma_pow2_le_half_range(a: usize)
    requires
        is_pow2(a as int),
    ensures
        a <= isize::MAX + 1,
{
    lemma_pow2_positive(a as int);
    is_pow2_equiv(a as int);
    let n = choose|i: nat| pow(2, i) == a as int;
    assert(pow2(n) == a);
    unsigned_int_max_values();
    signed_int_min_max_values();
    let b = usize::BITS as nat;
    if n >= b {
        if n > b {
            lemma_pow2_strictly_increases(b, n);
        }
        assert(false);
    }
    if n < (b - 1) as nat {
        lemma_pow2_strictly_increases(n, (b - 1) as nat);
    }
}

/// Clearing the bits below a power of two `a` gives the largest multiple of `a`
/// that does not exceed `x`.
pub proof fn lemma_align_down_pow2(x: usize, a: usize)
    requires
        is_pow2(a as int),
    ensures
        (x & !((a - 1) as usize)) % a == 0,
        (x & !((a - 1) as usize)) == x - x % a,
{
    lemma_pow2_positive(a as int);
    let m: usize = (a - 1) as usize;
    lemma_mask_is_mod(x, a);
    assert(x & !m == x - (x & m)) by (bit_vector);
    lemma_fundamental_div_mod(x as int, a as int);
    assert(x - x % a == (x / a) * a) by (nonlinear_arith)
        requires x as int == a * (x / a) + x % a;
    lemma_mod_multiples_basic((x / a) as int, a as int);
}

} // verus!
