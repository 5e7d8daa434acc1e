use chunk_address::base10x10_codec::Base10x10Codec;
use chunk_address::errors::CodecError;
use chunk_address::math::Base10x10Converter;
use num_bigint::BigUint;

fn codec3() -> Base10x10Codec {
    match Base10x10Codec::new(3) {
        Ok(codec) => codec,
        Err(_) => panic!("a codec of three pairs must be accepted"),
    }
}

fn big(n: u64) -> BigUint {
    BigUint::from(n)
}

#[test]
fn zero_capacity_is_refused() {
    assert!(matches!(Base10x10Codec::new(0), Err(CodecError::InvalidConfig)));
    assert!(matches!(Base10x10Converter::new(0), Err(CodecError::InvalidConfig)));
    assert!(Base10x10Codec::new(1).is_ok());
}

#[test]
fn encode_zero_is_one_zero_pair() {
    assert_eq!(codec3().encode_to_base10x10(big(0)), Ok(vec![(0, 0)]));
}

#[test]
fn decode_one_zero_pair_is_zero() {
    assert_eq!(codec3().decode_from_base10x10(vec![(0, 0)]), Ok(big(0)));
}

#[test]
fn encode_one() {
    assert_eq!(codec3().encode_to_base10x10(big(1)), Ok(vec![(0, 1)]));
}

#[test]
fn encode_hundred_opens_second_tier() {
    assert_eq!(codec3().encode_to_base10x10(big(100)), Ok(vec![(0, 0), (0, 0)]));
}

#[test]
fn decode_two_zero_pairs_is_hundred() {
    assert_eq!(codec3().decode_from_base10x10(vec![(0, 0), (0, 0)]), Ok(big(100)));
}

#[test]
fn encode_hundred_and_one() {
    assert_eq!(codec3().encode_to_base10x10(big(101)), Ok(vec![(0, 0), (0, 1)]));
}

#[test]
fn decode_three_zero_pairs() {
    assert_eq!(
        codec3().decode_from_base10x10(vec![(0, 0), (0, 0), (0, 0)]),
        Ok(big(10100))
    );
}

#[test]
fn decode_refuses_digit_ten() {
    assert_eq!(
        codec3().decode_from_base10x10(vec![(0, 10)]),
        Err(CodecError::InvalidDigit)
    );
    assert_eq!(
        codec3().decode_from_base10x10(vec![(10, 0), (0, 0)]),
        Err(CodecError::InvalidDigit)
    );
    assert_eq!(
        codec3().decode_from_base10x10(vec![(1, 2), (255, 3), (4, 5)]),
        Err(CodecError::InvalidDigit)
    );
}

#[test]
fn decode_refuses_too_many_pairs() {
    assert_eq!(
        codec3().decode_from_base10x10(vec![(0, 0), (0, 0), (0, 0), (0, 0)]),
        Err(CodecError::TooManyPairs)
    );
}

#[test]
fn too_many_pairs_is_told_before_a_bad_digit() {
    assert_eq!(
        codec3().decode_from_base10x10(vec![(0, 0), (0, 0), (0, 0), (0, 10)]),
        Err(CodecError::TooManyPairs)
    );
}

#[test]
fn decode_of_no_pairs_is_zero() {
    assert_eq!(codec3().decode_from_base10x10(vec![]), Ok(big(0)));
}

#[test]
fn encode_last_of_each_tier() {
    assert_eq!(codec3().encode_to_base10x10(big(99)), Ok(vec![(9, 9)]));
    assert_eq!(codec3().encode_to_base10x10(big(10099)), Ok(vec![(9, 9), (9, 9)]));
    assert_eq!(
        codec3().encode_to_base10x10(big(1010099)),
        Ok(vec![(9, 9), (9, 9), (9, 9)])
    );
}

#[test]
fn encode_refuses_the_end_of_the_last_tier() {
    assert_eq!(
        codec3().encode_to_base10x10(big(1010100)),
        Err(CodecError::ValueTooLarge)
    );
    assert_eq!(
        codec3().encode_to_base10x10(big(u64::MAX)),
        Err(CodecError::ValueTooLarge)
    );
}

#[test]
fn encode_shifts_by_the_lower_tiers() {
    // 12345 lies in tier 3, which starts at 10100: 12345 - 10100 = 2245.
    assert_eq!(
        codec3().encode_to_base10x10(big(12345)),
        Ok(vec![(0, 0), (2, 2), (4, 5)])
    );
    // 105 lies in tier 2, which starts at 100: a single digit is left.
    assert_eq!(codec3().encode_to_base10x10(big(105)), Ok(vec![(0, 0), (0, 5)]));
    // 4321 lies in tier 2: 4321 - 100 = 4221.
    assert_eq!(codec3().encode_to_base10x10(big(4321)), Ok(vec![(4, 2), (2, 1)]));
    // 350 lies in tier 2: 350 - 100 = 250, an odd count of digits.
    assert_eq!(codec3().encode_to_base10x10(big(350)), Ok(vec![(0, 2), (5, 0)]));
}

#[test]
fn decode_adds_the_lower_tiers_back() {
    assert_eq!(
        codec3().decode_from_base10x10(vec![(0, 0), (2, 2), (4, 5)]),
        Ok(big(12345))
    );
    assert_eq!(codec3().decode_from_base10x10(vec![(4, 2), (2, 1)]), Ok(big(4321)));
    assert_eq!(
        codec3().decode_from_base10x10(vec![(9, 9), (9, 9), (9, 9)]),
        Ok(big(1010099))
    );
}

#[test]
fn decode_undoes_encode_below_the_capacity() {
    let codec = codec3();
    let mut n: u64 = 0;
    while n < 1010100 {
        let pairs = match codec.encode_to_base10x10(big(n)) {
            Ok(pairs) => pairs,
            Err(_) => panic!("{} must be encoded", n),
        };
        assert_eq!(codec.decode_from_base10x10(pairs), Ok(big(n)));
        n += 37;
    }
}

#[test]
fn encode_undoes_decode() {
    let codec = codec3();
    let forms = vec![
        vec![(0u8, 7u8)],
        vec![(0, 0), (0, 0)],
        vec![(1, 2), (3, 4)],
        vec![(0, 0), (0, 0), (0, 1)],
        vec![(9, 8), (7, 6), (5, 4)],
    ];
    for form in forms {
        let n = match codec.decode_from_base10x10(form.clone()) {
            Ok(n) => n,
            Err(_) => panic!("the form must be decoded"),
        };
        assert_eq!(codec.encode_to_base10x10(n), Ok(form));
    }
}

#[test]
fn pair_count_is_the_least_tier_and_never_falls() {
    let codec = codec3();
    let mut last = 0usize;
    let mut n: u64 = 0;
    while n < 1010100 {
        let pairs = match codec.encode_to_base10x10(big(n)) {
            Ok(pairs) => pairs,
            Err(_) => panic!("{} must be encoded", n),
        };
        let expected = if n < 100 {
            1
        } else if n < 10100 {
            2
        } else {
            3
        };
        assert_eq!(pairs.len(), expected);
        assert!(pairs.len() >= last);
        last = pairs.len();
        n += 101;
    }
}

#[test]
fn base10x10_large_numbers_round_trip() {
    let codec = match Base10x10Codec::new(64) {
        Ok(codec) => codec,
        Err(_) => panic!("a codec of 64 pairs must be accepted"),
    };
    let n = BigUint::from(10u32).pow(100) + BigUint::from(123456789u64);
    let pairs = match codec.encode_to_base10x10(n.clone()) {
        Ok(pairs) => pairs,
        Err(_) => panic!("10^100 fits 64 pairs"),
    };
    // 10^100 = 100^50 lies in tier 50, which ends at 100^50 + 100^49 + ...
    assert_eq!(pairs.len(), 50);
    assert_eq!(codec.decode_from_base10x10(pairs), Ok(n));
}

#[test]
fn base10x10_converter_agrees_with_codec() {
    let converter = match Base10x10Converter::new(3) {
        Ok(converter) => converter,
        Err(_) => panic!("a converter of three pairs must be accepted"),
    };
    assert_eq!(converter.convert_to_base10x10(big(101)), Ok(vec![(0, 0), (0, 1)]));
    assert_eq!(
        converter.convert_from_base10x10(vec![(0, 0), (0, 0), (0, 0)]),
        Ok(big(10100))
    );
    assert_eq!(
        converter.convert_to_base10x10(big(1010100)),
        Err(CodecError::ValueTooLarge)
    );
    assert_eq!(
        converter.convert_from_base10x10(vec![(0, 0); 4]),
        Err(CodecError::TooManyPairs)
    );
    assert_eq!(
        converter.convert_from_base10x10(vec![(0, 11)]),
        Err(CodecError::InvalidDigit)
    );
}
