//! Chunks: the identifier of a chunk in its three forms.

use vstd::prelude::*;
use vstd::std_specs::cmp::PartialEqSpecImpl;
use num_bigint::BigUint;
use crate::base10x10_codec::{
    base10x10_of, base10x10_value, lemma_base10x10_of_shape, lemma_decode_encode,
    lemma_encode_decode, lemma_pairs_value_bound, lemma_power_sum_increasing, lemma_round_trip,
    lemma_tier_within, pairs_valid, power_sum, tier,
};
use crate::base57_codec::{base57_of, base57_value, lemma_base57_round_trip, symbols_valid};
use crate::bignum::{big_from_u32, big_rem, big_to_u8, big_value};
use crate::errors::CodecError;
use crate::math::{
    base10x10_converter, base57_converter, lemma_shared_capacity, Base57Converter,
    BASE10X10_MAX_PAIRS, BASE57_MAX_SYMBOLS,
};
use crate::universe::cluster::ClusterID;

verus! {

/// The first number that is too large for a chunk: the end of the last tier
/// of the shared tiered base-100 converter.
pub open spec fn chunk_capacity() -> nat {
    power_sum(BASE10X10_MAX_PAIRS as nat)
}

/// A copy of a sequence of pairs.
fn copy_pairs(pairs: &Vec<(u8, u8)>) -> (copy: Vec<(u8, u8)>)
    ensures
        copy@ == pairs@,
{
    let mut copy: Vec<(u8, u8)> = Vec::new();
    let mut i: usize = 0;
    while i < pairs.len()
        invariant
            i <= pairs@.len(),
            copy@ == pairs@.take(i as int),
        decreases pairs@.len() - i,
    {
        copy.push(pairs[i]);
        proof {
            assert(copy@ =~= pairs@.take(i + 1));
        }
        i = i + 1;
    }
    proof {
        assert(pairs@.take(pairs@.len() as int) =~= pairs@);
    }
    copy
}

/// Whether two sequences of pairs are the same.
fn pairs_equal(a: &Vec<(u8, u8)>, b: &Vec<(u8, u8)>) -> (r: bool)
    ensures
        r == (a@ == b@),
{
    if a.len() != b.len() {
        return false;
    }
    let mut i: usize = 0;
    while i < a.len()
        invariant
            a@.len() == b@.len(),
            i <= a@.len(),
            a@.take(i as int) == b@.take(i as int),
        decreases a@.len() - i,
    {
        let (a_tens, a_units) = a[i];
        let (b_tens, b_units) = b[i];
        if a_tens != b_tens || a_units != b_units {
            proof {
                assert(a@[i as int] != b@[i as int]);
            }
            return false;
        }
        proof {
            assert(a@.take(i + 1) =~= a@.take(i as int).push(a@[i as int]));
            assert(b@.take(i + 1) =~= b@.take(i as int).push(b@[i as int]));
        }
        i = i + 1;
    }
    proof {
        assert(a@.take(a@.len() as int) =~= a@);
        assert(b@.take(b@.len() as int) =~= b@);
    }
    true
}

/// Two numbers with the same tiered base-100 form are the same number.
pub proof fn lemma_forms_tell_numbers_apart(n: nat, m: nat)
    ensures
        base10x10_of(n) == base10x10_of(m) <==> n == m,
{
    lemma_decode_encode(n);
    lemma_decode_encode(m);
}

/// The identifier of a chunk: its number, the two other forms of that
/// number, and what follows from it: the tier, the place within the cluster
/// and the cluster.
#[derive(Debug)]
pub struct ChunkID {
    scale_level: u8,
    local_id: u8,
    cluster_id: ClusterID,
    global_id_base10: BigUint,
    global_id_base10x10: Vec<(u8, u8)>,
    global_id_base57: String,
}

impl View for ChunkID {
    type V = nat;

    /// The number of the chunk.
    closed spec fn view(&self) -> nat {
        big_value(self.global_id_base10)
    }
}

impl ChunkID {
    /// The tier that the identifier holds.
    pub closed spec fn scale_level(&self) -> u8 {
        self.scale_level
    }

    /// The place within the cluster that the identifier holds.
    pub closed spec fn local_id(&self) -> u8 {
        self.local_id
    }

    /// The cluster identifier that the identifier holds.
    pub closed spec fn cluster_id(&self) -> ClusterID {
        self.cluster_id
    }

    /// The tiered base-100 form that the identifier holds.
    pub closed spec fn base10x10(&self) -> Seq<(u8, u8)> {
        self.global_id_base10x10@
    }

    /// The base-57 form that the identifier holds.
    pub closed spec fn base57(&self) -> Seq<char> {
        self.global_id_base57@
    }

    /// The identifier is that of chunk `n`: it holds `n`, both forms of `n`,
    /// the tier of `n`, the last two decimal digits of `n` and the
    /// identifier of cluster `n / 100`.
    pub open spec fn represents(&self, n: nat) -> bool {
        &&& self@ == n
        &&& self.base10x10() == base10x10_of(n)
        &&& self.base57() == base57_of(n, BASE57_MAX_SYMBOLS as nat)
        &&& self.scale_level() == tier(n)
        &&& self.local_id() == n % 100
        &&& self.cluster_id().represents(n / 100)
    }

    /// What holds of every chunk identifier: its number lies below the
    /// capacity, and everything else it holds belongs to that number.
    pub open spec fn valid(&self) -> bool {
        &&& self@ < chunk_capacity()
        &&& self.represents(self@)
    }

    #[verifier::type_invariant]
    closed spec fn well_formed(self) -> bool {
        self.valid()
    }

    /// Puts an identifier together from the number and its two forms.
    fn assemble(
        base10: BigUint,
        base10x10: Vec<(u8, u8)>,
        base57: String,
        converter: &Base57Converter,
    ) -> (chunk: ChunkID)
        requires
            converter.max_symbols() == BASE57_MAX_SYMBOLS,
            big_value(base10) < chunk_capacity(),
            base10x10@ == base10x10_of(big_value(base10)),
            base57@ == base57_of(big_value(base10), BASE57_MAX_SYMBOLS as nat),
        ensures
            chunk.represents(big_value(base10)),
    {
        let ghost n = big_value(base10);
        proof {
            lemma_shared_capacity();
            lemma_base10x10_of_shape(n);
            lemma_tier_within(n, BASE10X10_MAX_PAIRS as nat);
        }
        let hundred = big_from_u32(100);
        let remainder = big_rem(&base10, &hundred);
        let local_id = big_to_u8(&remainder).unwrap();
        let scale_level = base10x10.len() as u8;
        let cluster_id = ClusterID::derive(&base10, converter);
        ChunkID {
            scale_level,
            local_id,
            cluster_id,
            global_id_base10: base10,
            global_id_base10x10: base10x10,
            global_id_base57: base57,
        }
    }

    /// The identifier of the chunk of the given number. A number at or
    /// above the capacity is refused.
    pub fn from_base10_global(global_id_base10: BigUint) -> (r: Result<ChunkID, CodecError>)
        ensures
            big_value(global_id_base10) < chunk_capacity() ==> (r matches Ok(chunk)
                && chunk.represents(big_value(global_id_base10))),
            big_value(global_id_base10) >= chunk_capacity() ==> r == Err::<ChunkID, CodecError>(
                CodecError::ValueTooLarge,
            ),
    {
        let pair_converter = base10x10_converter();
        let symbol_converter = base57_converter();
        proof {
            lemma_shared_capacity();
        }
        let base10x10 = match pair_converter.convert_to_base10x10(global_id_base10.clone()) {
            Ok(pairs) => pairs,
            Err(e) => {
                return Err(e);
            },
        };
        let base57 = match symbol_converter.convert_to_base57(global_id_base10.clone()) {
            Ok(text) => text,
            Err(e) => {
                return Err(e);
            },
        };
        Ok(ChunkID::assemble(global_id_base10, base10x10, base57, &symbol_converter))
    }

    /// The identifier of the chunk that the given pairs name. More pairs
    /// than the shared converter has are refused, and so is a pair with a
    /// member that is no decimal digit.
    pub fn from_base10x10_global(global_id_base10x10: Vec<(u8, u8)>) -> (r: Result<
        ChunkID,
        CodecError,
    >)
        ensures
            global_id_base10x10@.len() > BASE10X10_MAX_PAIRS ==> r == Err::<ChunkID, CodecError>(
                CodecError::TooManyPairs,
            ),
            global_id_base10x10@.len() <= BASE10X10_MAX_PAIRS && !pairs_valid(global_id_base10x10@)
                ==> r == Err::<ChunkID, CodecError>(CodecError::InvalidDigit),
            global_id_base10x10@.len() <= BASE10X10_MAX_PAIRS && pairs_valid(global_id_base10x10@)
                ==> (r matches Ok(chunk) && chunk.represents(
                base10x10_value(global_id_base10x10@),
            )),
    {
        let pair_converter = base10x10_converter();
        let symbol_converter = base57_converter();
        let base10 = match pair_converter.convert_from_base10x10(copy_pairs(&global_id_base10x10)) {
            Ok(value) => value,
            Err(e) => {
                return Err(e);
            },
        };
        proof {
            let len = global_id_base10x10@.len();
            if len > 0 {
                lemma_pairs_value_bound(global_id_base10x10@);
                lemma_encode_decode(global_id_base10x10@);
            }
            if len < BASE10X10_MAX_PAIRS {
                lemma_power_sum_increasing(len, BASE10X10_MAX_PAIRS as nat);
            }
            lemma_shared_capacity();
        }
        let base57 = symbol_converter.convert_to_base57(base10.clone()).unwrap();
        let base10x10 = if global_id_base10x10.len() == 0 {
            pair_converter.convert_to_base10x10(base10.clone()).unwrap()
        } else {
            global_id_base10x10
        };
        Ok(ChunkID::assemble(base10, base10x10, base57, &symbol_converter))
    }

    /// The identifier of the chunk whose number the given symbols denote in
    /// base 57. More symbols than the shared converter has are refused, and
    /// so are a symbol that the alphabet lacks and a number at or above the
    /// capacity.
    pub fn from_base57_global(global_id_base57: &str) -> (r: Result<ChunkID, CodecError>)
        ensures
            global_id_base57@.len() > BASE57_MAX_SYMBOLS ==> r == Err::<ChunkID, CodecError>(
                CodecError::InputTooLong,
            ),
            global_id_base57@.len() <= BASE57_MAX_SYMBOLS && !symbols_valid(global_id_base57@)
                ==> r == Err::<ChunkID, CodecError>(CodecError::InvalidSymbol),
            global_id_base57@.len() <= BASE57_MAX_SYMBOLS && symbols_valid(global_id_base57@)
                && base57_value(global_id_base57@) >= chunk_capacity() ==> r == Err::<
                ChunkID,
                CodecError,
            >(CodecError::ValueTooLarge),
            global_id_base57@.len() <= BASE57_MAX_SYMBOLS && symbols_valid(global_id_base57@)
                && base57_value(global_id_base57@) < chunk_capacity() ==> (r matches Ok(chunk)
                && chunk.represents(base57_value(global_id_base57@))),
    {
        let pair_converter = base10x10_converter();
        let symbol_converter = base57_converter();
        let base10 = match symbol_converter.convert_from_base57(global_id_base57) {
            Ok(value) => value,
            Err(e) => {
                return Err(e);
            },
        };
        let base10x10 = match pair_converter.convert_to_base10x10(base10.clone()) {
            Ok(pairs) => pairs,
            Err(e) => {
                return Err(e);
            },
        };
        proof {
            lemma_shared_capacity();
        }
        let base57 = symbol_converter.convert_to_base57(base10.clone()).unwrap();
        Ok(ChunkID::assemble(base10, base10x10, base57, &symbol_converter))
    }

    /// The tier of the chunk: the number of pairs in its tiered base-100
    /// form.
    pub fn get_scale_level(&self) -> (r: u8)
        ensures
            r == self.scale_level(),
            self.valid(),
    {
        proof {
            use_type_invariant(self);
        }
        self.scale_level
    }

    /// The place of the chunk within its cluster: the last two decimal
    /// digits of its number.
    pub fn get_local_id(&self) -> (r: u8)
        ensures
            r == self.local_id(),
            self.valid(),
    {
        proof {
            use_type_invariant(self);
        }
        self.local_id
    }

    /// The identifier of the cluster that holds the chunk.
    pub fn get_cluster_id(&self) -> (r: &ClusterID)
        ensures
            *r == self.cluster_id(),
            self.valid(),
    {
        proof {
            use_type_invariant(self);
        }
        &self.cluster_id
    }

    /// The number of the chunk.
    pub fn get_global_id_base10(&self) -> (r: &BigUint)
        ensures
            big_value(*r) == self@,
            self.valid(),
    {
        proof {
            use_type_invariant(self);
        }
        &self.global_id_base10
    }

    /// The tiered base-100 form of the chunk's number.
    pub fn get_global_id_base10x10(&self) -> (r: &Vec<(u8, u8)>)
        ensures
            r@ == self.base10x10(),
            self.valid(),
    {
        proof {
            use_type_invariant(self);
        }
        &self.global_id_base10x10
    }

    /// The base-57 form of the chunk's number.
    pub fn get_global_id_base57(&self) -> (r: &String)
        ensures
            r@ == self.base57(),
            self.valid(),
    {
        proof {
            use_type_invariant(self);
        }
        &self.global_id_base57
    }
}

/// A chunk identifier can be built again from its base-57 form: the form
/// is one that `from_base57_global` accepts, and it denotes the chunk's own
/// number, so that the identifier built from it is that of the same chunk.
pub proof fn lemma_rebuild_from_base57(chunk: ChunkID)
    requires
        chunk.valid(),
    ensures
        chunk.base57().len() <= BASE57_MAX_SYMBOLS,
        symbols_valid(chunk.base57()),
        base57_value(chunk.base57()) == chunk@,
        base57_value(chunk.base57()) < chunk_capacity(),
{
    lemma_shared_capacity();
    lemma_base57_round_trip(chunk@, BASE57_MAX_SYMBOLS as nat);
}

/// A chunk identifier can be built again from its tiered base-100 form: the
/// form is one that `from_base10x10_global` accepts, and it names the
/// chunk's own number, so that the identifier built from it is that of the
/// same chunk.
pub proof fn lemma_rebuild_from_base10x10(chunk: ChunkID)
    requires
        chunk.valid(),
    ensures
        chunk.base10x10().len() <= BASE10X10_MAX_PAIRS,
        pairs_valid(chunk.base10x10()),
        base10x10_value(chunk.base10x10()) == chunk@,
{
    lemma_round_trip(chunk@, BASE10X10_MAX_PAIRS as nat);
}

/// Two identifiers of the same chunk hold the same in every part.
pub proof fn lemma_same_chunk_same_parts(a: ChunkID, b: ChunkID, n: nat)
    requires
        a.represents(n),
        b.represents(n),
    ensures
        a@ == b@,
        a.base10x10() == b.base10x10(),
        a.base57() == b.base57(),
        a.scale_level() == b.scale_level(),
        a.local_id() == b.local_id(),
        a.cluster_id()@ == b.cluster_id()@,
        a.cluster_id().base57() == b.cluster_id().base57(),
{
}

impl PartialEq for ChunkID {
    /// Two chunk identifiers are equal when their tiered base-100 forms
    /// are, which is when they hold the same number.
    fn eq(&self, other: &Self) -> (r: bool) {
        proof {
            use_type_invariant(self);
            use_type_invariant(other);
            lemma_forms_tell_numbers_apart(self@, other@);
        }
        pairs_equal(&self.global_id_base10x10, &other.global_id_base10x10)
    }
}

impl PartialEqSpecImpl for ChunkID {
    open spec fn obeys_eq_spec() -> bool {
        true
    }

    open spec fn eq_spec(&self, other: &Self) -> bool {
        self@ == other@
    }
}

impl Clone for ChunkID {
    /// The copy is the identifier of the same chunk.
    fn clone(&self) -> (r: Self)
        ensures
            r.represents(self@),
    {
        proof {
            use_type_invariant(self);
        }
        ChunkID {
            scale_level: self.scale_level,
            local_id: self.local_id,
            cluster_id: self.cluster_id.clone(),
            global_id_base10: self.global_id_base10.clone(),
            global_id_base10x10: copy_pairs(&self.global_id_base10x10),
            global_id_base57: self.global_id_base57.clone(),
        }
    }
}

} // verus!
