//! The fixed-width base-57 form of a natural number: a string of a set
//! length over an alphabet of 57 symbols, the most significant symbol first
//! and the symbol of zero filling the front.

use vstd::prelude::*;
use vstd::string::StrSliceExecFns;
use num_bigint::BigUint;
use crate::bignum::{
    big_add, big_div, big_eq, big_from_u32, big_mul, big_rem, big_to_u8, big_value,
};
use crate::errors::CodecError;
use crate::numeral::{lemma_power_monotone, power};

verus! {

/// The number of symbols in the alphabet.
pub const RADIX: u32 = 57;

/// The alphabet: the symbol at each place stands for the digit of that
/// value.
pub open spec fn alphabet() -> Seq<char> {
    seq![
        'a', 'b', 'c', 'd', 'e', 'f', 'g', 'h', 'i', 'j', 'k', 'l', 'm', 'n', 'o', 'p',
        'q', 'r', 's', 't', 'u', 'v', 'w', 'x', 'y', 'z', '0', '1', '2', '3', '4', '5',
        '6', '7', '8', '9', '+', ',', ';', '_', '-', '\'', '~', '`', '\u{b4}', '@', '!',
        '$', '%', '&', '(', ')', '[', ']', '{', '}', '=',
    ]
}

/// The digit that a symbol of the alphabet stands for.
pub open spec fn symbol_index(symbol: char) -> nat {
    alphabet().index_of(symbol) as nat
}

/// Every symbol of the sequence belongs to the alphabet.
pub open spec fn symbols_valid(symbols: Seq<char>) -> bool {
    forall|i: int| 0 <= i < symbols.len() ==> alphabet().contains(#[trigger] symbols[i])
}

/// The last `width` base-57 digits of `n` as symbols, the most significant
/// first.
pub open spec fn base57_of(n: nat, width: nat) -> Seq<char>
    decreases width,
{
    if width == 0 {
        Seq::empty()
    } else {
        base57_of(n / 57, (width - 1) as nat).push(alphabet()[(n % 57) as int])
    }
}

/// The number that the symbols denote as base-57 digits, the most
/// significant first.
pub open spec fn base57_value(symbols: Seq<char>) -> nat
    decreases symbols.len(),
{
    if symbols.len() == 0 {
        0
    } else {
        base57_value(symbols.drop_last()) * 57 + symbol_index(symbols.last())
    }
}

/// The symbol that stands for a digit.
pub fn symbol_at(digit: u8) -> (symbol: char)
    requires
        digit < 57,
    ensures
        symbol == alphabet()[digit as int],
{
    match digit {
        0 => 'a',
        1 => 'b',
        2 => 'c',
        3 => 'd',
        4 => 'e',
        5 => 'f',
        6 => 'g',
        7 => 'h',
        8 => 'i',
        9 => 'j',
        10 => 'k',
        11 => 'l',
        12 => 'm',
        13 => 'n',
        14 => 'o',
        15 => 'p',
        16 => 'q',
        17 => 'r',
        18 => 's',
        19 => 't',
        20 => 'u',
        21 => 'v',
        22 => 'w',
        23 => 'x',
        24 => 'y',
        25 => 'z',
        26 => '0',
        27 => '1',
        28 => '2',
        29 => '3',
        30 => '4',
        31 => '5',
        32 => '6',
        33 => '7',
        34 => '8',
        35 => '9',
        36 => '+',
        37 => ',',
        38 => ';',
        39 => '_',
        40 => '-',
        41 => '\'',
        42 => '~',
        43 => '`',
        44 => '\u{b4}',
        45 => '@',
        46 => '!',
        47 => '$',
        48 => '%',
        49 => '&',
        50 => '(',
        51 => ')',
        52 => '[',
        53 => ']',
        54 => '{',
        55 => '}',
        _ => '=',
    }
}

/// The alphabet has as many symbols as the radix, and no symbol twice: each
/// symbol stands for one digit, the number of its place.
pub proof fn lemma_alphabet_distinct()
    ensures
        alphabet().len() == RADIX,
        alphabet().no_duplicates(),
        forall|i: int| 0 <= i < 57 ==> symbol_index(#[trigger] alphabet()[i]) == i,
{
    let a = alphabet();
    assert(a.len() == 57);
    assert forall|i: int, j: int| 0 <= i < a.len() && 0 <= j < a.len() && i != j implies a[i]
        != a[j] by {
        assert(a[i] as int != a[j] as int);
    }
    assert forall|i: int| 0 <= i < 57 implies symbol_index(#[trigger] a[i]) == i by {
        let k = a.index_of(a[i]);
        assert(a.contains(a[i]));
        assert(0 <= k < a.len() && a[k] == a[i]);
    }
}

/// The digit that a symbol stands for, where it belongs to the alphabet.
pub fn symbol_position(symbol: char) -> (r: Option<u8>)
    ensures
        alphabet().contains(symbol) ==> r == Some(symbol_index(symbol) as u8),
        !alphabet().contains(symbol) ==> r is None,
{
    let mut digit: u8 = 0;
    while digit < 57
        invariant
            digit <= 57,
            forall|j: int| 0 <= j < digit ==> alphabet()[j] != symbol,
        decreases 57 - digit,
    {
        if symbol_at(digit) == symbol {
            proof {
                lemma_alphabet_distinct();
                assert(alphabet()[digit as int] == symbol);
            }
            return Some(digit);
        }
        digit = digit + 1;
    }
    None
}

/// `String::push`: the string grows by the given character at its end.
pub assume_specification[ String::push ](s: &mut String, ch: char)
    ensures
        final(s)@ == old(s)@.push(ch),
;

/// The form of a number has as many symbols as asked for, all of the
/// alphabet.
pub proof fn lemma_base57_of_shape(n: nat, width: nat)
    ensures
        base57_of(n, width).len() == width,
        symbols_valid(base57_of(n, width)),
    decreases width,
{
    if width > 0 {
        lemma_base57_of_shape(n / 57, (width - 1) as nat);
        let head = base57_of(n / 57, (width - 1) as nat);
        let all = base57_of(n, width);
        assert forall|i: int| 0 <= i < all.len() implies alphabet().contains(#[trigger] all[i]) by {
            if i < head.len() {
                assert(all[i] == head[i]);
            } else {
                assert(all[i] == alphabet()[(n % 57) as int]);
            }
        }
    }
}

/// Decoding undoes encoding: the form of a number that fits the width
/// denotes that number.
pub proof fn lemma_base57_decode_encode(n: nat, width: nat)
    requires
        n < power(57, width),
    ensures
        base57_value(base57_of(n, width)) == n,
    decreases width,
{
    if width > 0 {
        let head = base57_of(n / 57, (width - 1) as nat);
        let all = base57_of(n, width);
        assert(power(57, width) == 57 * power(57, (width - 1) as nat));
        lemma_base57_decode_encode(n / 57, (width - 1) as nat);
        lemma_alphabet_distinct();
        assert(all.drop_last() =~= head);
        assert(all.last() == alphabet()[(n % 57) as int]);
    }
}

/// A codec reads back what it wrote: the form of a number that fits
/// `width` symbols is one that a codec of that width accepts, and it
/// denotes that number.
pub proof fn lemma_base57_round_trip(n: nat, width: nat)
    requires
        n < power(57, width),
    ensures
        base57_of(n, width).len() == width,
        symbols_valid(base57_of(n, width)),
        base57_value(base57_of(n, width)) == n,
{
    lemma_base57_of_shape(n, width);
    lemma_base57_decode_encode(n, width);
}

/// Encoding undoes decoding: symbols of the alphabet are the form, in
/// their own width, of the number that they denote.
pub proof fn lemma_base57_encode_decode(symbols: Seq<char>)
    requires
        symbols_valid(symbols),
    ensures
        base57_of(base57_value(symbols), symbols.len()) == symbols,
    decreases symbols.len(),
{
    if symbols.len() > 0 {
        let head = symbols.drop_last();
        let last = symbols.last();
        let v = base57_value(symbols);
        assert forall|i: int| 0 <= i < head.len() implies alphabet().contains(
            #[trigger] head[i],
        ) by {
            assert(head[i] == symbols[i]);
        }
        lemma_base57_encode_decode(head);
        assert(alphabet().contains(last));
        assert(v / 57 == base57_value(head));
        assert(v % 57 == symbol_index(last));
        assert(head.push(last) =~= symbols);
    } else {
        assert(base57_of(base57_value(symbols), 0) =~= symbols);
    }
}

/// A codec between natural numbers and their base-57 forms of a fixed
/// number of symbols.
pub struct Base57Codec {
    max_digits: usize,
}

impl Base57Codec {
    #[verifier::type_invariant]
    closed spec fn well_formed(self) -> bool {
        self.max_digits >= 1
    }

    /// The number of symbols that the codec writes, and the most that it
    /// reads.
    pub closed spec fn max_symbols(&self) -> nat {
        self.max_digits as nat
    }

    /// A codec of `max_digits` symbols. A width of zero is refused.
    pub fn new(max_digits: usize) -> (r: Result<Self, CodecError>)
        ensures
            max_digits == 0 ==> r == Err::<Self, CodecError>(CodecError::InvalidConfig),
            max_digits > 0 ==> (r matches Ok(codec) && codec.max_symbols() == max_digits),
    {
        if max_digits == 0 {
            return Err(CodecError::InvalidConfig);
        }
        Ok(Base57Codec { max_digits })
    }

    /// Writes a number in base 57 with exactly as many symbols as the codec
    /// has, the most significant first. A number that needs more symbols is
    /// refused.
    pub fn encode_to_base57(&self, input: BigUint) -> (r: Result<String, CodecError>)
        ensures
            big_value(input) < power(57, self.max_symbols()) ==> (r matches Ok(text) && text@
                == base57_of(big_value(input), self.max_symbols()) && text@.len()
                == self.max_symbols()),
            big_value(input) >= power(57, self.max_symbols()) ==> r == Err::<String, CodecError>(
                CodecError::ValueTooLarge,
            ),
    {
        proof {
            use_type_invariant(self);
        }
        let ghost n = big_value(input);
        let width = self.max_digits;
        let base = big_from_u32(57);
        let zero = big_from_u32(0);
        let mut rest = input;
        let mut low: Vec<u8> = Vec::new();
        let ghost mut quotients: Seq<nat> = seq![n];
        proof {
            assert(power(57, 0) == 1);
        }
        while !big_eq(&rest, &zero)
            invariant
                n == big_value(input),
                width == self.max_digits,
                low@.len() <= width,
                quotients.len() == low@.len() + 1,
                quotients[0] == n,
                big_value(rest) == quotients.last(),
                big_value(base) == 57,
                big_value(zero) == 0,
                forall|t: int|
                    0 <= t < low@.len() ==> (#[trigger] low@[t]) as nat == quotients[t] % 57
                        && quotients[t + 1] == quotients[t] / 57,
                power(57, low@.len()) * quotients.last() <= n,
                n < power(57, low@.len()) * (quotients.last() + 1),
            decreases big_value(rest),
        {
            let ghost weight = power(57, low@.len());
            let ghost q = quotients.last();
            if low.len() == width {
                proof {
                    assert(weight * q >= weight) by (nonlinear_arith)
                        requires
                            q >= 1,
                    ;
                }
                return Err(CodecError::ValueTooLarge);
            }
            let remainder = big_rem(&rest, &base);
            let digit = match big_to_u8(&remainder) {
                Some(digit) => digit,
                None => {
                    proof {
                        assert(big_value(remainder) == q % 57);
                        assert(false);
                    }
                    return Err(CodecError::ValueTooLarge);
                },
            };
            low.push(digit);
            rest = big_div(&rest, &base);
            proof {
                let next = q / 57;
                quotients = quotients.push(next);
                assert(power(57, low@.len()) == 57 * weight);
                assert((57 * weight) * next <= weight * q) by (nonlinear_arith)
                    requires
                        57 * next <= q,
                ;
                assert(weight * (q + 1) <= (57 * weight) * (next + 1)) by (nonlinear_arith)
                    requires
                        q + 1 <= 57 * (next + 1),
                ;
            }
        }
        proof {
            lemma_power_monotone(57, low@.len(), width as nat);
            assert(power(57, low@.len()) * 1 == power(57, low@.len())) by (nonlinear_arith);
            lemma_base57_of_shape(n, width as nat);
        }
        let digits = low.len();
        let mut text = String::new();
        let mut filled: usize = 0;
        while filled < width - digits
            invariant
                digits <= width,
                filled <= width - digits,
                text@ == base57_of(0, filled as nat),
            decreases width - digits - filled,
        {
            text.push(symbol_at(0));
            filled = filled + 1;
        }
        let mut j: usize = digits;
        while j > 0
            invariant
                j <= digits <= width,
                digits == low@.len(),
                quotients.len() == digits + 1,
                quotients[0] == n,
                forall|t: int|
                    0 <= t < low@.len() ==> (#[trigger] low@[t]) as nat == quotients[t] % 57
                        && quotients[t + 1] == quotients[t] / 57,
                text@ == base57_of(quotients[j as int], (width - j) as nat),
            decreases j,
        {
            j = j - 1;
            text.push(symbol_at(low[j]));
        }
        Ok(text)
    }

    /// Reads the number that a string of symbols denotes in base 57. More
    /// symbols than the codec has are refused, and so is a symbol that the
    /// alphabet lacks.
    pub fn decode_from_base57(&self, input: &str) -> (r: Result<BigUint, CodecError>)
        ensures
            input@.len() > self.max_symbols() ==> r == Err::<BigUint, CodecError>(
                CodecError::InputTooLong,
            ),
            input@.len() <= self.max_symbols() && !symbols_valid(input@) ==> r == Err::<
                BigUint,
                CodecError,
            >(CodecError::InvalidSymbol),
            input@.len() <= self.max_symbols() && symbols_valid(input@) ==> (r matches Ok(value)
                && big_value(value) == base57_value(input@)),
    {
        let len = input.unicode_len();
        if len > self.max_digits {
            return Err(CodecError::InputTooLong);
        }
        let base = big_from_u32(57);
        let mut result = big_from_u32(0);
        let mut i: usize = 0;
        while i < len
            invariant
                i <= len,
                len == input@.len(),
                len <= self.max_digits,
                big_value(base) == 57,
                symbols_valid(input@.take(i as int)),
                big_value(result) == base57_value(input@.take(i as int)),
            decreases len - i,
        {
            let symbol = input.get_char(i);
            match symbol_position(symbol) {
                None => {
                    return Err(CodecError::InvalidSymbol);
                },
                Some(digit) => {
                    let scaled = big_mul(&result, &base);
                    let unit = big_from_u32(digit as u32);
                    result = big_add(&scaled, &unit);
                    proof {
                        let before = input@.take(i as int);
                        let after = input@.take(i + 1);
                        assert(after.drop_last() =~= before);
                        assert(after.last() == symbol);
                        assert forall|t: int| 0 <= t < after.len() implies alphabet().contains(
                            #[trigger] after[t],
                        ) by {
                            if t < i {
                                assert(after[t] == before[t]);
                            }
                        }
                        lemma_alphabet_distinct();
                    }
                },
            }
            i = i + 1;
        }
        proof {
            assert(input@.take(len as int) =~= input@);
        }
        Ok(result)
    }
}

} // verus!
