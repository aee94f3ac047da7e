//! Integer arithmetic.
use vstd::arithmetic::div_mod::*;
use vstd::arithmetic::mul::*;
use vstd::arithmetic::power2::*;
use vstd::bits::*;
use vstd::prelude::*;

verus! {

/// `n` without its sign.
pub open spec fn magnitude(n: int) -> int {
    if n >= 0 {
        n
    } else {
        -n
    }
}

/// `n / d`, rounded towards zero.
pub open spec fn towards_zero(n: int, d: int) -> int {
    if n >= 0 {
        n / d
    } else {
        -((-n) / d)
    }
}

/// The greatest common divisor of `a` and `b`, by Euclid's rule.
pub open spec fn gcd_of(a: nat, b: nat) -> nat
    decreases b,
{
    if b == 0 {
        a
    } else {
        gcd_of(b, a % b)
    }
}

/// The greatest common divisor of two numbers divides both.
pub proof fn law_gcd_divides(a: nat, b: nat)
    requires
        a > 0 || b > 0,
    ensures
        gcd_of(a, b) > 0,
        a % gcd_of(a, b) == 0,
        b % gcd_of(a, b) == 0,
    decreases b,
{
    if b > 0 {
        let g = gcd_of(a, b) as int;
        let (a, b) = (a as int, b as int);
        law_gcd_divides(b as nat, (a % b) as nat);
        let q = a / b;
        let (m, n) = (b / g, (a % b) / g);
        lemma_fundamental_div_mod(a, b);
        lemma_fundamental_div_mod(b, g);
        lemma_fundamental_div_mod(a % b, g);
        assert(a == g * (m * q + n)) by (nonlinear_arith)
            requires
                a == b * q + (a % b),
                b == g * m,
                a % b == g * n,
        ;
        lemma_mod_multiples_basic(m * q + n, g);
        lemma_mul_is_commutative(m * q + n, g);
    } else {
        lemma_mod_self_0(a as int);
    }
}

/// Whatever divides two numbers divides their greatest common divisor: none is greater.
pub proof fn law_gcd_is_greatest(a: nat, b: nat, d: nat)
    requires
        a > 0 || b > 0,
        d > 0,
        a % d == 0,
        b % d == 0,
    ensures
        gcd_of(a, b) % d == 0,
        d <= gcd_of(a, b),
    decreases b,
{
    if b > 0 {
        let (x, y, k) = (a as int, b as int, d as int);
        let q = x / y;
        let (m, n) = (x / k, y / k);
        lemma_fundamental_div_mod(x, y);
        lemma_fundamental_div_mod(x, k);
        lemma_fundamental_div_mod(y, k);
        assert(x % y == k * (m - n * q)) by (nonlinear_arith)
            requires
                x == y * q + (x % y),
                x == k * m,
                y == k * n,
        ;
        lemma_mod_multiples_basic(m - n * q, k);
        lemma_mul_is_commutative(m - n * q, k);
        law_gcd_is_greatest(b, a % b, d);
    } else {
        if a < d {
            lemma_small_mod(a, d);
        }
    }
}

/// The greatest common divisor of `a` and `b`.
pub fn gcd(a: u32, b: u32) -> (r: u32)
    ensures
        r == gcd_of(a as nat, b as nat),
{
    let mut x: u32 = a;
    let mut y: u32 = b;
    while y != 0
        invariant
            gcd_of(x as nat, y as nat) == gcd_of(a as nat, b as nat),
        decreases y,
    {
        let rest: u32 = x % y;
        x = y;
        y = rest;
    }
    x
}

/// The denominator of `numer / denom` in lowest terms.
pub open spec fn reduced_denominator(numer: int, denom: int) -> int {
    denom / gcd_of(numer as nat, denom as nat) as int
}

/// The least multiple of `m` above `n`.
pub open spec fn next_multiple(n: int, m: int) -> int {
    (n / m + 1) * m
}

/// A positive denominator stays positive in lowest terms.
pub proof fn law_reduced_denominator_is_positive(numer: int, denom: int)
    requires
        numer >= 0,
        denom > 0,
    ensures
        0 < reduced_denominator(numer, denom) <= denom,
{
    let g = gcd_of(numer as nat, denom as nat) as int;
    law_gcd_divides(numer as nat, denom as nat);
    lemma_fundamental_div_mod(denom, g);
    assert(0 < denom / g <= denom) by (nonlinear_arith)
        requires
            denom == g * (denom / g),
            g > 0,
            denom > 0,
    ;
}

/// A multiple of the denominator in lowest terms is scaled by the ratio without a remainder, to the
/// same multiple of the numerator in lowest terms.
pub proof fn law_reduced_denominator_scales_exactly(numer: int, denom: int, k: int)
    requires
        numer >= 0,
        denom > 0,
    ensures
        (k * reduced_denominator(numer, denom)) * numer == denom * (k * (numer / gcd_of(
            numer as nat,
            denom as nat,
        ) as int)),
{
    let g = gcd_of(numer as nat, denom as nat) as int;
    law_gcd_divides(numer as nat, denom as nat);
    lemma_fundamental_div_mod(denom, g);
    lemma_fundamental_div_mod(numer, g);
    let (n, d) = (numer / g, denom / g);
    assert((k * d) * (g * n) == (g * d) * (k * n)) by (nonlinear_arith);
}

/// The next multiple is a multiple, lies above, and is the first that does.
pub proof fn law_next_multiple(n: int, m: int)
    requires
        m > 0,
    ensures
        next_multiple(n, m) % m == 0,
        n < next_multiple(n, m) <= n + m,
{
    lemma_fundamental_div_mod(n, m);
    lemma_mod_bound(n, m);
    lemma_mod_multiples_basic(n / m + 1, m);
    assert((n / m + 1) * m == m * (n / m) + m) by (nonlinear_arith);
}

/// Whether `n` is one of 1, 2, 4, 8, ...
pub open spec fn is_power_of_two(n: int) -> bool {
    exists|e: nat| n == #[trigger] pow2(e)
}

/// The least power of two that is not below `n`.
pub fn next_power_of_two(n: usize) -> (r: usize)
    requires
        n <= usize::MAX / 2 + 1,
    ensures
        is_power_of_two(r as int),
        r >= n,
        forall|p: int| #[trigger] is_power_of_two(p) && p >= n ==> p >= r,
{
    let mut r: usize = 1;
    let ghost mut e: nat = 0;
    proof {
        lemma2_to64();
    }
    while r < n
        invariant
            r == pow2(e),
            r >= 1,
            n <= usize::MAX / 2 + 1,
            e > 0 ==> pow2((e - 1) as nat) < n,
        decreases 2 * n - r,
    {
        r = r * 2;
        proof {
            lemma_pow2_unfold(e + 1);
            e = e + 1;
        }
    }
    assert forall|p: int| #[trigger] is_power_of_two(p) && p >= n implies p >= r by {
        let f = choose|f: nat| p == #[trigger] pow2(f);
        if f < e {
            if f < e - 1 {
                lemma_pow2_strictly_increases(f, (e - 1) as nat);
            }
        } else if f > e {
            lemma_pow2_strictly_increases(e, f);
        }
    }
    r
}

/// Masking with one less than a power of two is the remainder by that power.
pub proof fn lemma_mask_is_remainder(x: usize, len: usize)
    requires
        is_power_of_two(len as int),
    ensures
        len > 0,
        x & ((len - 1) as usize) == x % len,
{
    let e = choose|e: nat| len as int == #[trigger] pow2(e);
    lemma_pow2_pos(e);
    if e >= usize::BITS {
        lemma2_to64();
        lemma2_to64_rest();
        if e > usize::BITS {
            lemma_pow2_strictly_increases(usize::BITS as nat, e);
        }
    }
    lemma_usize_low_bits_mask_is_mod(x, e);
}

/// The denominator in lowest terms is the denominator without its greatest common divisor with the
/// numerator, and has none left with what remains of the numerator.
pub proof fn law_reduced_denominator(numer: int, denom: int)
    requires
        numer >= 0,
        denom > 0,
    ensures
        reduced_denominator(numer, denom) * gcd_of(numer as nat, denom as nat) == denom,
{
    let g = gcd_of(numer as nat, denom as nat) as int;
    law_gcd_divides(numer as nat, denom as nat);
    lemma_fundamental_div_mod(denom, g);
    lemma_mul_is_commutative(denom / g, g);
}

/// Rounding towards zero is rounding the magnitude down, and keeps the sign.
pub proof fn law_towards_zero(n: int, d: int)
    requires
        d > 0,
    ensures
        n >= 0 ==> 0 <= towards_zero(n, d) * d <= n < (towards_zero(n, d) + 1) * d,
        towards_zero(-n, d) == -towards_zero(n, d),
        magnitude(n) >= 0,
        magnitude(n) == n || magnitude(n) == -n,
{
    if n >= 0 {
        lemma_fundamental_div_mod(n, d);
        lemma_mod_bound(n, d);
        lemma_div_pos_is_pos(n, d);
        lemma_mul_is_commutative(n / d, d);
        lemma_mul_is_distributive_add_other_way(d, n / d, 1);
        lemma_mul_basics(d);
        lemma_mul_nonnegative(n / d, d);
    }
    lemma_div_basics(d);
}

/// One is a power of two, twice a power of two is one, and there are no others.
pub proof fn law_powers_of_two(n: int)
    ensures
        is_power_of_two(1),
        is_power_of_two(n) ==> n > 0 && is_power_of_two(2 * n),
        is_power_of_two(n) && n > 1 ==> n % 2 == 0 && is_power_of_two(n / 2),
{
    lemma2_to64();
    assert(is_power_of_two(pow2(0) as int));
    if is_power_of_two(n) {
        let e = choose|e: nat| n == #[trigger] pow2(e);
        lemma_pow2_pos(e);
        lemma_pow2_unfold(e + 1);
        assert(is_power_of_two(pow2(e + 1) as int));
        if n > 1 {
            lemma_pow2_unfold(e);
            assert(is_power_of_two(pow2((e - 1) as nat) as int));
        }
    }
}

} // verus!
