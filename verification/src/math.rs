//! The two codecs in the sizes that chunk identifiers are built with.

use vstd::prelude::*;
use num_bigint::BigUint;
use crate::base10x10_codec::{
    base10x10_of, base10x10_value, pairs_valid, power_sum, tier, Base10x10Codec,
};
use crate::base57_codec::{base57_of, base57_value, symbols_valid, Base57Codec};
use crate::bignum::big_value;
use crate::errors::CodecError;
use crate::numeral::{
    lemma_power_add, lemma_power_base_monotone, lemma_power_hundred, lemma_power_of_power,
    lemma_power_of_product, power,
};

verus! {

/// The number of pairs of the shared tiered base-100 converter.
pub const BASE10X10_MAX_PAIRS: usize = 64;

/// The number of symbols of the shared base-57 converter.
pub const BASE57_MAX_SYMBOLS: usize = 73;

/// The tiered base-100 codec under the name that chunk identifiers know it
/// by.
pub struct Base10x10Converter {
    codec: Base10x10Codec,
}

impl Base10x10Converter {
    /// The largest number of pairs that the converter writes or reads.
    pub closed spec fn max_pairs(&self) -> nat {
        self.codec.max_pairs()
    }

    /// A converter of up to `max_digits` pairs. A capacity of zero is
    /// refused.
    pub fn new(max_digits: usize) -> (r: Result<Self, CodecError>)
        ensures
            max_digits == 0 ==> r == Err::<Self, CodecError>(CodecError::InvalidConfig),
            max_digits > 0 ==> (r matches Ok(converter) && converter.max_pairs() == max_digits),
    {
        match Base10x10Codec::new(max_digits) {
            Ok(codec) => Ok(Base10x10Converter { codec }),
            Err(e) => Err(e),
        }
    }

    /// Writes a number in its tiered base-100 form, the most significant
    /// pair first. A number at or above the end of the last tier is refused.
    pub fn convert_to_base10x10(&self, input: BigUint) -> (r: Result<Vec<(u8, u8)>, CodecError>)
        ensures
            big_value(input) < power_sum(self.max_pairs()) ==> (r matches Ok(pairs) && pairs@
                == base10x10_of(big_value(input)) && pairs@.len() == tier(big_value(input))),
            big_value(input) >= power_sum(self.max_pairs()) ==> r == Err::<
                Vec<(u8, u8)>,
                CodecError,
            >(CodecError::ValueTooLarge),
    {
        self.codec.encode_to_base10x10(input)
    }

    /// Reads the number that a sequence of pairs names. More pairs than the
    /// converter has are refused, and so is a pair with a member that is no
    /// decimal digit.
    pub fn convert_from_base10x10(&self, input: Vec<(u8, u8)>) -> (r: Result<BigUint, CodecError>)
        ensures
            input@.len() > self.max_pairs() ==> r == Err::<BigUint, CodecError>(
                CodecError::TooManyPairs,
            ),
            input@.len() <= self.max_pairs() && !pairs_valid(input@) ==> r == Err::<
                BigUint,
                CodecError,
            >(CodecError::InvalidDigit),
            input@.len() <= self.max_pairs() && pairs_valid(input@) ==> (r matches Ok(value)
                && big_value(value) == base10x10_value(input@)),
    {
        self.codec.decode_from_base10x10(input)
    }
}

/// The base-57 codec under the name that chunk identifiers know it by.
pub struct Base57Converter {
    codec: Base57Codec,
}

impl Base57Converter {
    /// The number of symbols that the converter writes, and the most that
    /// it reads.
    pub closed spec fn max_symbols(&self) -> nat {
        self.codec.max_symbols()
    }

    /// A converter of `max_digits` symbols. A width of zero is refused.
    pub fn new(max_digits: usize) -> (r: Result<Self, CodecError>)
        ensures
            max_digits == 0 ==> r == Err::<Self, CodecError>(CodecError::InvalidConfig),
            max_digits > 0 ==> (r matches Ok(converter) && converter.max_symbols() == max_digits),
    {
        match Base57Codec::new(max_digits) {
            Ok(codec) => Ok(Base57Converter { codec }),
            Err(e) => Err(e),
        }
    }

    /// Writes a number in base 57 with exactly as many symbols as the
    /// converter has. A number that needs more symbols is refused.
    pub fn convert_to_base57(&self, input: BigUint) -> (r: Result<String, CodecError>)
        ensures
            big_value(input) < power(57, self.max_symbols()) ==> (r matches Ok(text) && text@
                == base57_of(big_value(input), self.max_symbols()) && text@.len()
                == self.max_symbols()),
            big_value(input) >= power(57, self.max_symbols()) ==> r == Err::<String, CodecError>(
                CodecError::ValueTooLarge,
            ),
    {
        self.codec.encode_to_base57(input)
    }

    /// Reads the number that a string of symbols denotes in base 57. More
    /// symbols than the converter has are refused, and so is a symbol that
    /// the alphabet lacks.
    pub fn convert_from_base57(&self, input: &str) -> (r: Result<BigUint, CodecError>)
        ensures
            input@.len() > self.max_symbols() ==> r == Err::<BigUint, CodecError>(
                CodecError::InputTooLong,
            ),
            input@.len() <= self.max_symbols() && !symbols_valid(input@) ==> r == Err::<
                BigUint,
                CodecError,
            >(CodecError::InvalidSymbol),
            input@.len() <= self.max_symbols() && symbols_valid(input@) ==> (r matches Ok(value)
                && big_value(value) == base57_value(input@)),
    {
        self.codec.decode_from_base57(input)
    }
}

/// The tiered base-100 converter that every chunk identifier is built with.
pub fn base10x10_converter() -> (converter: Base10x10Converter)
    ensures
        converter.max_pairs() == BASE10X10_MAX_PAIRS,
{
    Base10x10Converter::new(BASE10X10_MAX_PAIRS).unwrap()
}

/// The base-57 converter that every chunk and cluster identifier is built
/// with.
pub fn base57_converter() -> (converter: Base57Converter)
    ensures
        converter.max_symbols() == BASE57_MAX_SYMBOLS,
{
    Base57Converter::new(BASE57_MAX_SYMBOLS).unwrap()
}

/// Ninety-nine times the end of a tier is a hundred short of the next power
/// of a hundred.
pub proof fn lemma_power_sum_closed(k: nat)
    ensures
        99 * power_sum(k) + 100 == power(100, k + 1),
    decreases k,
{
    if k == 0 {
        assert(power(100, 1) == 100 * power(100, 0));
    } else {
        lemma_power_sum_closed((k - 1) as nat);
        assert(power(100, k + 1) == 100 * power(100, k));
    }
}

proof fn lemma_power_57_8()
    ensures
        power(57, 8) == 111429157112001,
{
    assert(power(57, 0) == 1);
    assert(power(57, 1) == 57);
    assert(power(57, 2) == 3249);
    assert(power(57, 3) == 185193);
    assert(power(57, 4) == 10556001);
    assert(power(57, 5) == 601692057);
    assert(power(57, 6) == 34296447249);
    assert(power(57, 7) == 1954897493193);
    assert(power(57, 8) == 111429157112001);
}

proof fn lemma_power_111_9()
    ensures
        power(111, 9) == 2558036924386500591,
{
    assert(power(111, 0) == 1);
    assert(power(111, 1) == 111);
    assert(power(111, 2) == 12321);
    assert(power(111, 3) == 1367631);
    assert(power(111, 4) == 151807041);
    assert(power(111, 5) == 16850581551);
    assert(power(111, 6) == 1870414552161);
    assert(power(111, 7) == 207616015289871);
    assert(power(111, 8) == 23045377697175681);
    assert(power(111, 9) == 2558036924386500591);
}

proof fn lemma_power_10_22()
    ensures
        power(10, 12) == 1000000000000,
        power(10, 22) == 10000000000000000000000,
{
    assert(power(10, 0) == 1);
    assert(power(10, 1) == 10);
    assert(power(10, 2) == 100);
    assert(power(10, 3) == 1000);
    assert(power(10, 4) == 10000);
    assert(power(10, 5) == 100000);
    assert(power(10, 6) == 1000000);
    assert(power(10, 7) == 10000000);
    assert(power(10, 8) == 100000000);
    assert(power(10, 9) == 1000000000);
    assert(power(10, 10) == 10000000000);
    assert(power(10, 11) == 100000000000);
    assert(power(10, 12) == 1000000000000);
    assert(power(10, 13) == 10000000000000);
    assert(power(10, 14) == 100000000000000);
    assert(power(10, 15) == 1000000000000000);
    assert(power(10, 16) == 10000000000000000);
    assert(power(10, 17) == 100000000000000000);
    assert(power(10, 18) == 1000000000000000000);
    assert(power(10, 19) == 10000000000000000000);
    assert(power(10, 20) == 100000000000000000000);
    assert(power(10, 21) == 1000000000000000000000);
    assert(power(10, 22) == 10000000000000000000000);
}

/// Every number that the tiered base-100 converter can write, the base-57
/// converter can write too: the end of tier 64 lies below 57 to the 73.
pub proof fn lemma_shared_capacity()
    ensures
        power_sum(BASE10X10_MAX_PAIRS as nat) < power(57, BASE57_MAX_SYMBOLS as nat),
{
    let unit = power(10, 108);
    lemma_power_57_8();
    lemma_power_111_9();
    lemma_power_10_22();
    // 57^72 = (57^8)^9 >= (111 * 10^12)^9 = 111^9 * 10^108
    lemma_power_of_power(57, 8, 9);
    lemma_power_base_monotone(111 * power(10, 12), power(57, 8), 9);
    lemma_power_of_product(111, power(10, 12), 9);
    lemma_power_of_power(10, 12, 9);
    assert(power(57, 72) >= 2558036924386500591 * unit);
    assert(power(57, 73) == 57 * power(57, 72));
    // 100^65 = 10^130 = 10^22 * 10^108
    lemma_power_hundred(65);
    lemma_power_add(10, 22, 108);
    assert(power(100, 65) == 10000000000000000000000 * unit);
    lemma_power_sum_closed(64);
    assert(99 * (57 * (2558036924386500591 * unit)) >= 10000000000000000000000 * unit)
        by (nonlinear_arith)
        requires
            unit >= 0,
    ;
}

} // verus!
