use chunk_address::errors::CodecError;
use chunk_address::math::{
    base10x10_converter, base57_converter, BASE10X10_MAX_PAIRS, BASE57_MAX_SYMBOLS,
};
use chunk_address::universe::chunk::ChunkID;
use chunk_address::universe::cluster::ClusterID;
use num_bigint::BigUint;

fn big(n: u64) -> BigUint {
    BigUint::from(n)
}

fn chunk(n: u64) -> ChunkID {
    match ChunkID::from_base10_global(big(n)) {
        Ok(chunk) => chunk,
        Err(_) => panic!("{} must have a chunk identifier", n),
    }
}

/// The end of the last tier: 100 + 100^2 + ... + 100^64.
fn capacity() -> BigUint {
    let mut sum = BigUint::from(0u32);
    let mut k = 1u32;
    while k <= 64 {
        sum += BigUint::from(100u32).pow(k);
        k += 1;
    }
    sum
}

fn padded(tail: &str) -> String {
    let mut text = "a".repeat(73 - tail.chars().count());
    text.push_str(tail);
    text
}

#[test]
fn shared_converters_have_their_sizes() {
    assert_eq!(BASE10X10_MAX_PAIRS, 64);
    assert_eq!(BASE57_MAX_SYMBOLS, 73);
    let pairs = base10x10_converter();
    assert!(pairs.convert_from_base10x10(vec![(0, 0); 64]).is_ok());
    assert_eq!(
        pairs.convert_from_base10x10(vec![(0, 0); 65]),
        Err(CodecError::TooManyPairs)
    );
    let symbols = base57_converter();
    assert_eq!(
        symbols.convert_to_base57(big(0)).map(|text| text.chars().count()),
        Ok(73)
    );
}

#[test]
fn chunk_from_number_holds_all_forms() {
    let c = chunk(12345);
    assert_eq!(c.get_global_id_base10(), &big(12345));
    assert_eq!(c.get_global_id_base10x10(), &vec![(0, 0), (2, 2), (4, 5)]);
    // 12345 = 3 * 57^2 + 45 * 57 + 33
    assert_eq!(c.get_global_id_base57(), &padded("d@7"));
    assert_eq!(c.get_scale_level(), 3);
    assert_eq!(c.get_local_id(), 45);
    assert_eq!(c.get_cluster_id().get_global_id_base10(), &big(123));
    // 123 = 2 * 57 + 9
    assert_eq!(c.get_cluster_id().get_global_id_base57(), &padded("cj"));
}

#[test]
fn chunk_zero() {
    let c = chunk(0);
    assert_eq!(c.get_global_id_base10x10(), &vec![(0, 0)]);
    assert_eq!(c.get_global_id_base57(), &padded(""));
    assert_eq!(c.get_scale_level(), 1);
    assert_eq!(c.get_local_id(), 0);
    assert_eq!(c.get_cluster_id().get_global_id_base10(), &big(0));
}

#[test]
fn local_id_is_the_remainder_and_cluster_the_quotient() {
    let samples: Vec<u64> = vec![0, 1, 99, 100, 101, 199, 10099, 10100, 123456789, u64::MAX];
    for n in samples {
        let c = chunk(n);
        assert_eq!(c.get_local_id() as u64, n % 100);
        assert_eq!(c.get_cluster_id().get_global_id_base10(), &big(n / 100));
        assert_eq!(c.get_scale_level() as usize, c.get_global_id_base10x10().len());
    }
}

#[test]
fn chunk_rebuilt_from_base57_is_equal() {
    let samples: Vec<u64> = vec![0, 1, 56, 57, 100, 101, 10100, 987654321, u64::MAX];
    for n in samples {
        let first = chunk(n);
        let rebuilt = match ChunkID::from_base57_global(first.get_global_id_base57()) {
            Ok(chunk) => chunk,
            Err(_) => panic!("the base-57 form of {} must be accepted", n),
        };
        assert!(rebuilt == first);
        assert_eq!(rebuilt.get_global_id_base10(), first.get_global_id_base10());
        assert_eq!(rebuilt.get_global_id_base57(), first.get_global_id_base57());
        assert_eq!(rebuilt.get_global_id_base10x10(), first.get_global_id_base10x10());
        assert_eq!(rebuilt.get_local_id(), first.get_local_id());
        assert_eq!(rebuilt.get_scale_level(), first.get_scale_level());
        assert!(rebuilt.get_cluster_id() == first.get_cluster_id());
    }
}

#[test]
fn chunk_rebuilt_from_base10x10_is_equal() {
    let samples: Vec<u64> = vec![0, 1, 99, 100, 101, 10099, 10100, 987654321, u64::MAX];
    for n in samples {
        let first = chunk(n);
        let rebuilt =
            match ChunkID::from_base10x10_global(first.get_global_id_base10x10().clone()) {
                Ok(chunk) => chunk,
                Err(_) => panic!("the pairs of {} must be accepted", n),
            };
        assert!(rebuilt == first);
        assert_eq!(rebuilt.get_global_id_base10(), first.get_global_id_base10());
        assert_eq!(rebuilt.get_global_id_base57(), first.get_global_id_base57());
        assert_eq!(rebuilt.get_global_id_base10x10(), first.get_global_id_base10x10());
        assert_eq!(rebuilt.get_local_id(), first.get_local_id());
    }
}

#[test]
fn chunk_from_pairs() {
    let c = match ChunkID::from_base10x10_global(vec![(0, 0), (0, 0), (0, 0)]) {
        Ok(chunk) => chunk,
        Err(_) => panic!("three zero pairs must be accepted"),
    };
    assert_eq!(c.get_global_id_base10(), &big(10100));
    assert_eq!(c.get_scale_level(), 3);
    assert_eq!(c.get_local_id(), 0);
    assert_eq!(c.get_cluster_id().get_global_id_base10(), &big(101));
    assert_eq!(c.get_global_id_base10x10(), &vec![(0, 0), (0, 0), (0, 0)]);
}

#[test]
fn chunk_from_no_pairs_is_chunk_zero() {
    let c = match ChunkID::from_base10x10_global(vec![]) {
        Ok(chunk) => chunk,
        Err(_) => panic!("no pairs name zero"),
    };
    assert!(c == chunk(0));
    assert_eq!(c.get_global_id_base10x10(), &vec![(0, 0)]);
    assert_eq!(c.get_scale_level(), 1);
}

#[test]
fn chunk_from_short_base57_holds_the_full_width() {
    let c = match ChunkID::from_base57_global("b") {
        Ok(chunk) => chunk,
        Err(_) => panic!("a short form must be accepted"),
    };
    assert!(c == chunk(1));
    assert_eq!(c.get_global_id_base57(), &padded("b"));
    let d = match ChunkID::from_base57_global("d@7") {
        Ok(chunk) => chunk,
        Err(_) => panic!("a short form must be accepted"),
    };
    assert!(d == chunk(12345));
}

#[test]
fn chunk_constructors_refuse_bad_input() {
    assert_eq!(
        ChunkID::from_base10x10_global(vec![(0, 10)]).err(),
        Some(CodecError::InvalidDigit)
    );
    assert_eq!(
        ChunkID::from_base10x10_global(vec![(0, 0); 65]).err(),
        Some(CodecError::TooManyPairs)
    );
    assert_eq!(
        ChunkID::from_base57_global(&"a".repeat(74)).err(),
        Some(CodecError::InputTooLong)
    );
    assert_eq!(
        ChunkID::from_base57_global("abc?").err(),
        Some(CodecError::InvalidSymbol)
    );
}

#[test]
fn chunk_capacity_is_the_end_of_tier_64() {
    let limit = capacity();
    assert_eq!(
        ChunkID::from_base10_global(limit.clone()).err(),
        Some(CodecError::ValueTooLarge)
    );
    let last = limit - BigUint::from(1u32);
    let c = match ChunkID::from_base10_global(last.clone()) {
        Ok(chunk) => chunk,
        Err(_) => panic!("the last number below the capacity must be accepted"),
    };
    assert_eq!(c.get_scale_level(), 64);
    assert_eq!(c.get_global_id_base10x10(), &vec![(9, 9); 64]);
    assert_eq!(c.get_global_id_base57().chars().count(), 73);
    assert_eq!(
        c.get_cluster_id().get_global_id_base10(),
        &(last / BigUint::from(100u32))
    );
    // 57^73 - 1 has a base-57 form, and is too large for 64 pairs
    assert_eq!(
        ChunkID::from_base57_global(&"=".repeat(73)).err(),
        Some(CodecError::ValueTooLarge)
    );
}

#[test]
fn chunks_are_equal_when_their_numbers_are() {
    assert!(chunk(7) == chunk(7));
    assert!(chunk(7) != chunk(8));
    assert!(chunk(100) != chunk(0));
    let c = chunk(424242);
    let copy = c.clone();
    assert!(c == copy);
    assert_eq!(copy.get_global_id_base57(), c.get_global_id_base57());
    assert_eq!(copy.get_local_id(), 42);
}

#[test]
fn cluster_from_chunk_drops_the_last_pair() {
    let c = chunk(98765);
    let cluster = ClusterID::from_chunk_id(c.clone());
    assert_eq!(cluster.get_global_id_base10(), &big(987));
    assert!(&cluster == c.get_cluster_id());
    // 987 = 17 * 57 + 18
    assert_eq!(cluster.get_global_id_base57(), &padded("rs"));
    // chunks of one cluster have equal cluster identifiers
    assert!(chunk(98700).get_cluster_id() == chunk(98799).get_cluster_id());
    assert!(chunk(98700).get_cluster_id() != chunk(98800).get_cluster_id());
    let copy = cluster.clone();
    assert!(copy == cluster);
}
