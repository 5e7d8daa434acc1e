//! The tiered base-100 form of a natural number: a sequence of pairs of
//! decimal digits whose length tells the tier of the number.
//!
//! Tier `k` holds the `100^k` numbers from `power_sum(k - 1)` up to, and not
//! including, `power_sum(k)`. A number is written as its distance from the
//! start of its tier, in exactly `k` pairs. So every sequence of `k` valid
//! pairs names one number of tier `k`, and no number has two names.

use vstd::prelude::*;
use num_bigint::BigUint;
use crate::bignum::{
    big_add, big_from_u32, big_ge, big_mul, big_pow, big_sub, big_to_radix_le, big_value,
};
use crate::errors::CodecError;
use crate::numeral::{
    digits_below, digits_value, lemma_digits_value_lower, lemma_power_hundred,
    lemma_power_monotone, lemma_power_positive, power,
};

verus! {

/// The sum of the powers of a hundred from the first to the `k`-th: the
/// first number above tier `k`.
pub open spec fn power_sum(k: nat) -> nat
    decreases k,
{
    if k == 0 {
        0
    } else {
        power_sum((k - 1) as nat) + power(100, k)
    }
}

/// The first tier from `k` on whose upper bound lies above `n`.
pub open spec fn tier_from(n: nat, k: nat) -> nat
    decreases (if n >= power_sum(k) { n - power_sum(k) + 1 } else { 0 }),
{
    if n < power_sum(k) {
        k
    } else {
        proof {
            lemma_power_positive(100, k + 1);
        }
        tier_from(n, k + 1)
    }
}

/// The tier of `n`: the least `k >= 1` with `n < power_sum(k)`.
pub open spec fn tier(n: nat) -> nat {
    tier_from(n, 1)
}

/// The number that a pair of decimal digits denotes: tens, then units.
pub open spec fn pair_value(p: (u8, u8)) -> nat {
    p.0 as nat * 10 + p.1 as nat
}

/// Both members of the pair are decimal digits.
pub open spec fn pair_valid(p: (u8, u8)) -> bool {
    p.0 < 10 && p.1 < 10
}

/// Every pair of the sequence is made of decimal digits.
pub open spec fn pairs_valid(pairs: Seq<(u8, u8)>) -> bool {
    forall|i: int| 0 <= i < pairs.len() ==> pair_valid(#[trigger] pairs[i])
}

/// The number that the pairs denote when read as plain base-100 digits, the
/// most significant pair first.
pub open spec fn pairs_value(pairs: Seq<(u8, u8)>) -> nat
    decreases pairs.len(),
{
    if pairs.len() == 0 {
        0
    } else {
        pairs_value(pairs.drop_last()) * 100 + pair_value(pairs.last())
    }
}

/// The pair that writes the last two decimal digits of `v`.
pub open spec fn pair_of(v: nat) -> (u8, u8) {
    (((v % 100) / 10) as u8, (v % 10) as u8)
}

/// The last `k` base-100 digits of `v` as pairs, the most significant first.
pub open spec fn pairs_of(v: nat, k: nat) -> Seq<(u8, u8)>
    decreases k,
{
    if k == 0 {
        Seq::empty()
    } else {
        pairs_of(v / 100, (k - 1) as nat).push(pair_of(v))
    }
}

/// The tiered base-100 form of `n`: its distance from the start of its tier,
/// written in as many pairs as the tier's number.
pub open spec fn base10x10_of(n: nat) -> Seq<(u8, u8)> {
    pairs_of((n - power_sum((tier(n) - 1) as nat)) as nat, tier(n))
}

/// The number that a sequence of pairs names: its plain base-100 value,
/// moved up by all the tiers below its length.
pub open spec fn base10x10_value(pairs: Seq<(u8, u8)>) -> nat {
    if pairs.len() == 0 {
        0
    } else {
        pairs_value(pairs) + power_sum((pairs.len() - 1) as nat)
    }
}

/// Each tier ends above the one before it.
pub proof fn lemma_power_sum_increasing(a: nat, b: nat)
    requires
        a < b,
    ensures
        power_sum(a) < power_sum(b),
    decreases b,
{
    lemma_power_positive(100, b);
    if a + 1 < b {
        lemma_power_sum_increasing(a, (b - 1) as nat);
    }
}

proof fn lemma_tier_from_bounds(n: nat, k: nat)
    requires
        k >= 1,
        power_sum((k - 1) as nat) <= n,
    ensures
        tier_from(n, k) >= k,
        power_sum((tier_from(n, k) - 1) as nat) <= n < power_sum(tier_from(n, k)),
    decreases (if n >= power_sum(k) { n - power_sum(k) + 1 } else { 0 }),
{
    if n >= power_sum(k) {
        lemma_power_positive(100, k + 1);
        lemma_tier_from_bounds(n, k + 1);
    }
}

/// A number lies in its tier: at or above the end of the tier before, and
/// below the end of its own.
pub proof fn lemma_tier_bounds(n: nat)
    ensures
        tier(n) >= 1,
        power_sum((tier(n) - 1) as nat) <= n < power_sum(tier(n)),
{
    lemma_tier_from_bounds(n, 1);
}

/// A number lies in one tier only.
pub proof fn lemma_tier_unique(n: nat, k: nat)
    requires
        k >= 1,
        power_sum((k - 1) as nat) <= n < power_sum(k),
    ensures
        tier(n) == k,
{
    let t = tier(n);
    lemma_tier_bounds(n);
    if t < k {
        if t < k - 1 {
            lemma_power_sum_increasing(t, (k - 1) as nat);
        }
    } else if t > k {
        if k < t - 1 {
            lemma_power_sum_increasing(k, (t - 1) as nat);
        }
    }
}

/// The tier of a number is the least whose end lies above it: the end of
/// every lower tier is at or below the number.
pub proof fn lemma_tier_minimal(n: nat, j: nat)
    requires
        j < tier(n),
    ensures
        power_sum(j) <= n,
{
    lemma_tier_bounds(n);
    if j < tier(n) - 1 {
        lemma_power_sum_increasing(j, (tier(n) - 1) as nat);
    }
}

/// A larger number never lies in a lower tier.
pub proof fn lemma_tier_monotone(n: nat, m: nat)
    requires
        n <= m,
    ensures
        tier(n) <= tier(m),
{
    lemma_tier_bounds(m);
    if tier(m) < tier(n) {
        lemma_tier_minimal(n, tier(m));
    }
}

/// `pairs_of` gives exactly `k` pairs, all of decimal digits.
pub proof fn lemma_pairs_of_shape(v: nat, k: nat)
    ensures
        pairs_of(v, k).len() == k,
        pairs_valid(pairs_of(v, k)),
    decreases k,
{
    if k > 0 {
        lemma_pairs_of_shape(v / 100, (k - 1) as nat);
    }
}

/// The pairs of a number below `100^k` denote that number.
pub proof fn lemma_pairs_of_value(v: nat, k: nat)
    requires
        v < power(100, k),
    ensures
        pairs_value(pairs_of(v, k)) == v,
    decreases k,
{
    if k > 0 {
        let head = pairs_of(v / 100, (k - 1) as nat);
        let all = pairs_of(v, k);
        assert(power(100, k) == 100 * power(100, (k - 1) as nat));
        lemma_pairs_of_value(v / 100, (k - 1) as nat);
        assert(all.drop_last() =~= head);
        assert(all.last() == pair_of(v));
        assert(pair_value(pair_of(v)) == v % 100);
    }
}

/// Valid pairs denote a number below a hundred to the power of their count.
pub proof fn lemma_pairs_value_bound(pairs: Seq<(u8, u8)>)
    requires
        pairs_valid(pairs),
    ensures
        pairs_value(pairs) < power(100, pairs.len()),
    decreases pairs.len(),
{
    if pairs.len() > 0 {
        lemma_pairs_value_bound(pairs.drop_last());
        assert(pair_valid(pairs.last()));
        assert(power(100, pairs.len()) == 100 * power(100, (pairs.len() - 1) as nat));
    }
}

/// Valid pairs are the pairs of the number that they denote.
pub proof fn lemma_pairs_of_pairs_value(pairs: Seq<(u8, u8)>)
    requires
        pairs_valid(pairs),
    ensures
        pairs_of(pairs_value(pairs), pairs.len()) == pairs,
    decreases pairs.len(),
{
    if pairs.len() > 0 {
        let head = pairs.drop_last();
        let last = pairs.last();
        let v = pairs_value(pairs);
        lemma_pairs_of_pairs_value(head);
        assert(pair_valid(last));
        assert(v / 100 == pairs_value(head));
        assert(pair_of(v) == last);
        assert(head.push(last) =~= pairs);
    } else {
        assert(pairs_of(pairs_value(pairs), 0) =~= pairs);
    }
}

/// A pair put in front of a sequence counts for its value times a hundred
/// to the power of the sequence's length.
pub proof fn lemma_pairs_value_front(first: (u8, u8), rest: Seq<(u8, u8)>)
    ensures
        pairs_value(seq![first] + rest) == pair_value(first) * power(100, rest.len())
            + pairs_value(rest),
    decreases rest.len(),
{
    let all = seq![first] + rest;
    if rest.len() == 0 {
        assert(all.drop_last() =~= Seq::<(u8, u8)>::empty());
        assert(all.last() == first);
        assert(pairs_value(all.drop_last()) == 0);
        assert(power(100, 0) == 1);
    } else {
        let shorter = rest.drop_last();
        lemma_pairs_value_front(first, shorter);
        assert(all.drop_last() =~= seq![first] + shorter);
        assert(all.last() == rest.last());
        let a = pair_value(first);
        let p = power(100, shorter.len());
        assert(power(100, rest.len()) == 100 * p);
        assert((a * p + pairs_value(shorter)) * 100 == a * (100 * p) + pairs_value(shorter) * 100)
            by (nonlinear_arith);
    }
}

/// A number fits a codec of `max` tiers exactly when it lies below the end
/// of the last tier.
pub proof fn lemma_tier_within(n: nat, max: nat)
    requires
        max >= 1,
    ensures
        tier(n) <= max <==> n < power_sum(max),
{
    lemma_tier_bounds(n);
    if tier(n) < max {
        lemma_power_sum_increasing(tier(n), max);
    }
    if max < tier(n) {
        lemma_tier_minimal(n, max);
    }
}

/// The value of the digits from position `i` on: the digit there, and the
/// radix times the value of those after it.
proof fn lemma_digits_value_skip(digits: Seq<u8>, radix: nat, i: int)
    requires
        0 <= i < digits.len(),
    ensures
        digits_value(digits.skip(i), radix) == digits[i] as nat + radix * digits_value(
            digits.skip(i + 1),
            radix,
        ),
{
    assert(digits.skip(i).drop_first() =~= digits.skip(i + 1));
}

/// The form of a number has as many pairs as the number's tier, each of
/// decimal digits.
pub proof fn lemma_base10x10_of_shape(n: nat)
    ensures
        base10x10_of(n).len() == tier(n),
        pairs_valid(base10x10_of(n)),
{
    lemma_pairs_of_shape((n - power_sum((tier(n) - 1) as nat)) as nat, tier(n));
}

/// Decoding undoes encoding: the form of a number names that number.
pub proof fn lemma_decode_encode(n: nat)
    ensures
        base10x10_value(base10x10_of(n)) == n,
{
    let k = tier(n);
    let below = power_sum((k - 1) as nat);
    lemma_tier_bounds(n);
    lemma_base10x10_of_shape(n);
    lemma_pairs_of_value((n - below) as nat, k);
}

/// Encoding undoes decoding: valid pairs, at least one, are the form of
/// the number that they name. No number has a second, longer form.
pub proof fn lemma_encode_decode(pairs: Seq<(u8, u8)>)
    requires
        pairs.len() >= 1,
        pairs_valid(pairs),
    ensures
        tier(base10x10_value(pairs)) == pairs.len(),
        base10x10_of(base10x10_value(pairs)) == pairs,
{
    let k = pairs.len();
    let n = base10x10_value(pairs);
    lemma_pairs_value_bound(pairs);
    lemma_tier_unique(n, k);
    lemma_pairs_of_pairs_value(pairs);
}

/// The form of a number has exactly as many pairs as the least tier whose
/// end lies above the number.
pub proof fn lemma_encode_length_is_least_tier(n: nat)
    ensures
        base10x10_of(n).len() >= 1,
        n < power_sum(base10x10_of(n).len()),
        forall|k: nat| k < base10x10_of(n).len() ==> power_sum(k) <= n,
{
    lemma_base10x10_of_shape(n);
    lemma_tier_bounds(n);
    assert forall|k: nat| k < base10x10_of(n).len() implies power_sum(k) <= n by {
        lemma_tier_minimal(n, k);
    }
}

/// A codec reads back what it wrote: the form of a number within the
/// capacity of a codec of `max_pairs` pairs is one that the codec accepts,
/// and it names that number.
pub proof fn lemma_round_trip(n: nat, max_pairs: nat)
    requires
        max_pairs >= 1,
        n < power_sum(max_pairs),
    ensures
        base10x10_of(n).len() <= max_pairs,
        pairs_valid(base10x10_of(n)),
        base10x10_value(base10x10_of(n)) == n,
{
    lemma_base10x10_of_shape(n);
    lemma_tier_within(n, max_pairs);
    lemma_decode_encode(n);
}

/// The number of pairs in the form of a number never falls as the number
/// grows.
pub proof fn lemma_encode_length_monotone(n: nat, m: nat)
    requires
        n <= m,
    ensures
        base10x10_of(n).len() <= base10x10_of(m).len(),
{
    lemma_base10x10_of_shape(n);
    lemma_base10x10_of_shape(m);
    lemma_tier_monotone(n, m);
}

/// Pairs up decimal digits, given least significant first, from the least
/// significant end, and fills up with zero pairs in front to `count` pairs,
/// the most significant first. A single digit left over at the top is paired
/// with a zero.
fn pairs_from_digits(digits: &Vec<u8>, count: usize) -> (pairs: Vec<(u8, u8)>)
    requires
        digits_below(digits@, 10),
        digits@.len() / 2 + digits@.len() % 2 <= count,
    ensures
        pairs@.len() == count,
        pairs_valid(pairs@),
        pairs_value(pairs@) == digits_value(digits@, 10),
{
    let len = digits.len();
    let filled = len / 2 + len % 2;
    let mut pairs: Vec<(u8, u8)> = Vec::new();
    while pairs.len() < count - filled
        invariant
            filled <= count,
            pairs@.len() <= count - filled,
            pairs_valid(pairs@),
            pairs_value(pairs@) == 0,
        decreases count - filled - pairs@.len(),
    {
        let ghost before = pairs@;
        pairs.push((0, 0));
        proof {
            assert(pairs@.drop_last() =~= before);
        }
    }
    let mut i: usize = len;
    proof {
        assert(digits@.skip(len as int) =~= Seq::<u8>::empty());
    }
    if len % 2 == 1 {
        let ghost before = pairs@;
        pairs.push((0, digits[len - 1]));
        i = len - 1;
        proof {
            assert(pairs@.drop_last() =~= before);
            lemma_digits_value_skip(digits@, 10, i as int);
        }
    }
    while i > 0
        invariant
            i <= len,
            len == digits@.len(),
            i % 2 == 0,
            filled == len / 2 + len % 2,
            filled <= count,
            digits_below(digits@, 10),
            pairs@.len() == count - i / 2,
            pairs_valid(pairs@),
            pairs_value(pairs@) == digits_value(digits@.skip(i as int), 10),
        decreases i,
    {
        let ghost before = pairs@;
        let tens = digits[i - 1];
        let units = digits[i - 2];
        pairs.push((tens, units));
        proof {
            assert(pairs@.drop_last() =~= before);
            lemma_digits_value_skip(digits@, 10, i - 2);
            lemma_digits_value_skip(digits@, 10, i - 1);
        }
        i = i - 2;
    }
    proof {
        assert(digits@.skip(0) =~= digits@);
    }
    pairs
}

/// A codec between natural numbers and their tiered base-100 forms of up to
/// a fixed number of pairs.
pub struct Base10x10Codec {
    max_digits: usize,
    power_sums: Vec<BigUint>,
    offsets: Vec<BigUint>,
}

impl Base10x10Codec {
    #[verifier::type_invariant]
    closed spec fn well_formed(self) -> bool {
        &&& self.max_digits >= 1
        &&& self.tables_hold()
    }

    /// The largest number of pairs that the codec writes or reads.
    pub closed spec fn max_pairs(&self) -> nat {
        self.max_digits as nat
    }

    /// The table of offsets: the width of each tier, from the first on.
    pub closed spec fn offsets(&self) -> Seq<BigUint> {
        self.offsets@
    }

    /// The table of power sums: the end of each tier, from the first on.
    pub closed spec fn power_sums(&self) -> Seq<BigUint> {
        self.power_sums@
    }

    /// The tables hold, for each tier up to the last, its width and its
    /// end.
    pub open spec fn tables_hold(&self) -> bool {
        &&& self.offsets().len() == self.max_pairs()
        &&& self.power_sums().len() == self.max_pairs()
        &&& forall|i: int|
            0 <= i < self.offsets().len() ==> big_value(#[trigger] self.offsets()[i]) == power(
                100,
                (i + 1) as nat,
            )
        &&& forall|i: int|
            0 <= i < self.power_sums().len() ==> big_value(#[trigger] self.power_sums()[i])
                == power_sum((i + 1) as nat)
    }

    /// A codec of up to `max_digits` pairs, with its tables filled. A
    /// capacity of zero is refused.
    pub fn new(max_digits: usize) -> (r: Result<Self, CodecError>)
        ensures
            max_digits == 0 ==> r == Err::<Self, CodecError>(CodecError::InvalidConfig),
            max_digits > 0 ==> (r matches Ok(codec) && codec.max_pairs() == max_digits
                && codec.tables_hold()),
    {
        if max_digits == 0 {
            return Err(CodecError::InvalidConfig);
        }
        let hundred = big_from_u32(100);
        let mut power_sums: Vec<BigUint> = Vec::new();
        let mut offsets: Vec<BigUint> = Vec::new();
        let mut running = big_from_u32(0);
        let mut i: usize = 0;
        while i < max_digits
            invariant
                i <= max_digits,
                big_value(hundred) == 100,
                big_value(running) == power_sum(i as nat),
                power_sums@.len() == i,
                offsets@.len() == i,
                forall|j: int|
                    0 <= j < power_sums@.len() ==> big_value(#[trigger] power_sums@[j])
                        == power_sum((j + 1) as nat),
                forall|j: int|
                    0 <= j < offsets@.len() ==> big_value(#[trigger] offsets@[j]) == power(
                        100,
                        (j + 1) as nat,
                    ),
            decreases max_digits - i,
        {
            i = i + 1;
            let offset = big_pow(&hundred, i);
            running = big_add(&running, &offset);
            power_sums.push(running.clone());
            offsets.push(offset);
        }
        Ok(Base10x10Codec { max_digits, power_sums, offsets })
    }

    /// Writes a number in its tiered base-100 form, the most significant
    /// pair first. A number at or above the end of the codec's last tier is
    /// refused.
    pub fn encode_to_base10x10(&self, input: BigUint) -> (r: Result<Vec<(u8, u8)>, CodecError>)
        ensures
            big_value(input) < power_sum(self.max_pairs()) ==> (r matches Ok(pairs) && pairs@
                == base10x10_of(big_value(input)) && pairs@.len() == tier(big_value(input))),
            big_value(input) >= power_sum(self.max_pairs()) ==> r == Err::<
                Vec<(u8, u8)>,
                CodecError,
            >(CodecError::ValueTooLarge),
    {
        proof {
            use_type_invariant(self);
        }
        let ghost n = big_value(input);
        let tiers = self.power_sums.len();
        let mut below: usize = 0;
        let mut searching = true;
        while searching && below < tiers
            invariant
                below <= tiers,
                tiers == self.power_sums@.len(),
                n == big_value(input),
                forall|i: int|
                    0 <= i < self.power_sums@.len() ==> big_value(#[trigger] self.power_sums@[i])
                        == power_sum((i + 1) as nat),
                power_sum(below as nat) <= n,
                !searching ==> below < tiers && n < power_sum((below + 1) as nat),
            decreases tiers - below + (if searching { 1int } else { 0int }),
        {
            if big_ge(&input, &self.power_sums[below]) {
                below = below + 1;
            } else {
                searching = false;
            }
        }
        if searching {
            return Err(CodecError::ValueTooLarge);
        }
        let count = below + 1;
        proof {
            lemma_tier_unique(n, count as nat);
            if count < tiers {
                lemma_power_sum_increasing(count as nat, tiers as nat);
            }
        }
        let mut shifted = input;
        let mut t: usize = 0;
        while t < below
            invariant
                t <= below < tiers,
                tiers == self.offsets@.len(),
                forall|i: int|
                    0 <= i < self.offsets@.len() ==> big_value(#[trigger] self.offsets@[i])
                        == power(100, (i + 1) as nat),
                power_sum(below as nat) <= n,
                big_value(shifted) == n - power_sum(t as nat),
            decreases below - t,
        {
            proof {
                if t + 1 < below {
                    lemma_power_sum_increasing((t + 1) as nat, below as nat);
                }
            }
            shifted = big_sub(&shifted, &self.offsets[t]);
            t = t + 1;
        }
        let digits = big_to_radix_le(&shifted, 10);
        proof {
            let len = digits@.len();
            lemma_power_hundred(count as nat);
            if big_value(shifted) > 0 {
                lemma_digits_value_lower(digits@, 10);
                if len - 1 >= 2 * count {
                    lemma_power_monotone(10, (2 * count) as nat, (len - 1) as nat);
                }
            }
        }
        let pairs = pairs_from_digits(&digits, count);
        proof {
            lemma_pairs_of_pairs_value(pairs@);
        }
        Ok(pairs)
    }

    /// Reads the number that a sequence of pairs names. More pairs than the
    /// codec has are refused, and so is a pair with a member that is no
    /// decimal digit.
    pub fn decode_from_base10x10(&self, input: Vec<(u8, u8)>) -> (r: Result<BigUint, CodecError>)
        ensures
            input@.len() > self.max_pairs() ==> r == Err::<BigUint, CodecError>(
                CodecError::TooManyPairs,
            ),
            input@.len() <= self.max_pairs() && !pairs_valid(input@) ==> r == Err::<
                BigUint,
                CodecError,
            >(CodecError::InvalidDigit),
            input@.len() <= self.max_pairs() && pairs_valid(input@) ==> (r matches Ok(value)
                && big_value(value) == base10x10_value(input@)),
    {
        proof {
            use_type_invariant(self);
        }
        let len = input.len();
        if len > self.max_digits {
            return Err(CodecError::TooManyPairs);
        }
        let hundred = big_from_u32(100);
        let mut result = big_from_u32(0);
        let mut done: usize = 0;
        proof {
            assert(input@.skip(len as int) =~= Seq::<(u8, u8)>::empty());
        }
        while done < len
            invariant
                done <= len,
                len == input@.len(),
                len <= self.max_digits,
                big_value(hundred) == 100,
                pairs_valid(input@.skip(len - done)),
                big_value(result) == pairs_value(input@.skip(len - done)),
            decreases len - done,
        {
            let at = len - 1 - done;
            let (first, second) = input[at];
            if first >= 10 || second >= 10 {
                proof {
                    assert(!pair_valid(input@[at as int]));
                }
                return Err(CodecError::InvalidDigit);
            }
            let pair = big_from_u32(first as u32 * 10 + second as u32);
            let weight = big_pow(&hundred, done);
            let term = big_mul(&pair, &weight);
            result = big_add(&result, &term);
            proof {
                let rest = input@.skip(len - done);
                let more = input@.skip(at as int);
                assert(more =~= seq![input@[at as int]] + rest);
                lemma_pairs_value_front(input@[at as int], rest);
                assert forall|i: int| 0 <= i < more.len() implies pair_valid(
                    #[trigger] more[i],
                ) by {
                    if i > 0 {
                        assert(more[i] == rest[i - 1]);
                    }
                }
            }
            done = done + 1;
        }
        proof {
            assert(input@.skip(0) =~= input@);
        }
        if len == 0 {
            return Ok(result);
        }
        let mut t: usize = 0;
        while t < len - 1
            invariant
                t <= len - 1,
                1 <= len <= self.offsets@.len(),
                forall|i: int|
                    0 <= i < self.offsets@.len() ==> big_value(#[trigger] self.offsets@[i])
                        == power(100, (i + 1) as nat),
                big_value(result) == pairs_value(input@) + power_sum(t as nat),
            decreases len - 1 - t,
        {
            result = big_add(&result, &self.offsets[t]);
            t = t + 1;
        }
        Ok(result)
    }
}

} // verus!
