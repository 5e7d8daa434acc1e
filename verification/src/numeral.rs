//! Powers and positional numerals over the naturals: the arithmetic that
//! both codecs are specified with.

use vstd::prelude::*;

verus! {

/// `base` raised to the power `exp`.
pub open spec fn power(base: nat, exp: nat) -> nat
    decreases exp,
{
    if exp == 0 {
        1
    } else {
        base * power(base, (exp - 1) as nat)
    }
}

/// The number that a sequence of digits denotes in the given radix, the
/// least significant digit first.
pub open spec fn digits_value(digits: Seq<u8>, radix: nat) -> nat
    decreases digits.len(),
{
    if digits.len() == 0 {
        0
    } else {
        digits[0] as nat + radix * digits_value(digits.drop_first(), radix)
    }
}

/// Every digit of the sequence is below the radix.
pub open spec fn digits_below(digits: Seq<u8>, radix: nat) -> bool {
    forall|i: int| 0 <= i < digits.len() ==> (#[trigger] digits[i] as nat) < radix
}

/// A power of a positive base is positive.
pub proof fn lemma_power_positive(base: nat, exp: nat)
    requires
        base > 0,
    ensures
        power(base, exp) > 0,
    decreases exp,
{
    if exp > 0 {
        let rest = power(base, (exp - 1) as nat);
        lemma_power_positive(base, (exp - 1) as nat);
        assert(base * rest > 0) by (nonlinear_arith)
            requires
                base > 0,
                rest > 0,
        ;
    }
}

/// Exponents add where powers multiply.
pub proof fn lemma_power_add(base: nat, a: nat, b: nat)
    ensures
        power(base, a + b) == power(base, a) * power(base, b),
    decreases a,
{
    if a == 0 {
        assert(power(base, 0) == 1);
        assert(1 * power(base, b) == power(base, b)) by (nonlinear_arith);
    } else {
        let pa = power(base, (a - 1) as nat);
        let pb = power(base, b);
        lemma_power_add(base, (a - 1) as nat, b);
        assert((a + b - 1) as nat == (a - 1) as nat + b);
        assert(base * (pa * pb) == (base * pa) * pb) by (nonlinear_arith);
    }
}

/// With a base of at least one, a larger exponent never gives a smaller
/// power.
pub proof fn lemma_power_monotone(base: nat, a: nat, b: nat)
    requires
        base >= 1,
        a <= b,
    ensures
        power(base, a) <= power(base, b),
    decreases b,
{
    if a < b {
        let rest = power(base, (b - 1) as nat);
        lemma_power_monotone(base, a, (b - 1) as nat);
        assert(base * rest >= rest) by (nonlinear_arith)
            requires
                base >= 1,
        ;
    }
}

/// A power of a power: the exponents multiply.
pub proof fn lemma_power_of_power(base: nat, a: nat, b: nat)
    ensures
        power(power(base, a), b) == power(base, a * b),
    decreases b,
{
    if b == 0 {
        assert(a * b == 0) by (nonlinear_arith)
            requires
                b == 0,
        ;
    } else {
        lemma_power_of_power(base, a, (b - 1) as nat);
        lemma_power_add(base, a, a * ((b - 1) as nat));
        assert(a + a * ((b - 1) as nat) == a * b) by (nonlinear_arith)
            requires
                b >= 1,
        ;
    }
}

/// The power of a product is the product of the powers.
pub proof fn lemma_power_of_product(x: nat, y: nat, exp: nat)
    ensures
        power(x * y, exp) == power(x, exp) * power(y, exp),
    decreases exp,
{
    if exp > 0 {
        lemma_power_of_product(x, y, (exp - 1) as nat);
        let px = power(x, (exp - 1) as nat);
        let py = power(y, (exp - 1) as nat);
        assert((x * y) * (px * py) == (x * px) * (y * py)) by (nonlinear_arith);
    } else {
        assert(1nat * 1nat == 1nat);
    }
}

/// A larger base never gives a smaller power.
pub proof fn lemma_power_base_monotone(x: nat, y: nat, exp: nat)
    requires
        x <= y,
    ensures
        power(x, exp) <= power(y, exp),
    decreases exp,
{
    if exp > 0 {
        lemma_power_base_monotone(x, y, (exp - 1) as nat);
        let px = power(x, (exp - 1) as nat);
        let py = power(y, (exp - 1) as nat);
        assert(x * px <= y * py) by (nonlinear_arith)
            requires
                x <= y,
                px <= py,
        ;
    }
}

/// A hundred to the `k` is ten to the `2k`.
pub proof fn lemma_power_hundred(k: nat)
    ensures
        power(100, k) == power(10, 2 * k),
    decreases k,
{
    if k > 0 {
        lemma_power_hundred((k - 1) as nat);
        let rest = power(10, (2 * k - 2) as nat);
        assert(power(10, (2 * k - 1) as nat) == 10 * rest);
        assert(power(10, 2 * k) == 10 * power(10, (2 * k - 1) as nat));
        assert(10 * (10 * rest) == 100 * rest) by (nonlinear_arith);
    }
}

/// Digits whose most significant one is not zero denote a number of at
/// least the radix to the power of their count less one.
pub proof fn lemma_digits_value_lower(digits: Seq<u8>, radix: nat)
    requires
        radix >= 1,
        digits.len() > 0,
        digits.last() != 0,
    ensures
        digits_value(digits, radix) >= power(radix, (digits.len() - 1) as nat),
    decreases digits.len(),
{
    if digits.len() == 1 {
        assert(digits.last() == digits[0]);
        assert(power(radix, 0) == 1);
    } else {
        let rest = digits.drop_first();
        assert(rest.last() == digits.last());
        lemma_digits_value_lower(rest, radix);
        let v = digits_value(rest, radix);
        let p = power(radix, (rest.len() - 1) as nat);
        assert(radix * v >= radix * p) by (nonlinear_arith)
            requires
                v >= p,
        ;
    }
}

} // verus!
