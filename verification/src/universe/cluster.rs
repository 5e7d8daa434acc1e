//! Clusters: the identifier of a cluster, derived from that of any of its
//! chunks, and what is loaded of a cluster, step by step: its registration,
//! then its metadata, then its data.

use vstd::prelude::*;
use vstd::std_specs::cmp::PartialEqSpecImpl;
use std::sync::Arc;
use num_bigint::BigUint;
use crate::base57_codec::base57_of;
use crate::bignum::{big_div, big_eq, big_from_u32, big_value};
use crate::math::{base57_converter, lemma_shared_capacity, Base57Converter, BASE57_MAX_SYMBOLS};
use crate::numeral::power;
use crate::universe::chunk::ChunkID;

verus! {

/// The identifier of a cluster: the number of any of its chunks without the
/// last two decimal digits, with its base-57 form.
#[derive(Debug)]
pub struct ClusterID {
    global_id_base10: BigUint,
    global_id_base57: String,
}

impl View for ClusterID {
    type V = nat;

    /// The number of the cluster.
    closed spec fn view(&self) -> nat {
        big_value(self.global_id_base10)
    }
}

impl ClusterID {
    /// The base-57 form that the identifier holds.
    pub closed spec fn base57(&self) -> Seq<char> {
        self.global_id_base57@
    }

    /// The identifier is that of cluster `n`: it holds `n` and the base-57
    /// form of `n`.
    pub open spec fn represents(&self, n: nat) -> bool {
        &&& self@ == n
        &&& self.base57() == base57_of(n, BASE57_MAX_SYMBOLS as nat)
    }

    /// What holds of every cluster identifier: its number has a base-57
    /// form, and that is the form it holds.
    pub open spec fn valid(&self) -> bool {
        &&& self@ < power(57, BASE57_MAX_SYMBOLS as nat)
        &&& self.represents(self@)
    }

    #[verifier::type_invariant]
    closed spec fn well_formed(self) -> bool {
        self.valid()
    }

    /// The identifier of the cluster that holds the chunk of the given
    /// number.
    pub(crate) fn derive(chunk_base10: &BigUint, converter: &Base57Converter) -> (cluster:
        ClusterID)
        requires
            converter.max_symbols() == BASE57_MAX_SYMBOLS,
            big_value(*chunk_base10) < power(57, BASE57_MAX_SYMBOLS as nat),
        ensures
            cluster.represents(big_value(*chunk_base10) / 100),
    {
        let hundred = big_from_u32(100);
        let base10 = big_div(chunk_base10, &hundred);
        let base57 = converter.convert_to_base57(base10.clone()).unwrap();
        ClusterID { global_id_base10: base10, global_id_base57: base57 }
    }

    /// The identifier of the cluster that holds the given chunk: the
    /// chunk's number divided by a hundred, rounded down.
    pub fn from_chunk_id(chunk_id: ChunkID) -> (cluster: ClusterID)
        ensures
            cluster.represents(chunk_id@ / 100),
    {
        let converter = base57_converter();
        let base10 = chunk_id.get_global_id_base10();
        proof {
            lemma_shared_capacity();
        }
        ClusterID::derive(base10, &converter)
    }

    /// The number of the cluster.
    pub fn get_global_id_base10(&self) -> (r: &BigUint)
        ensures
            big_value(*r) == self@,
            self.valid(),
    {
        proof {
            use_type_invariant(self);
        }
        &self.global_id_base10
    }

    /// The base-57 form of the cluster's number.
    pub fn get_global_id_base57(&self) -> (r: &String)
        ensures
            r@ == self.base57(),
            self.valid(),
    {
        proof {
            use_type_invariant(self);
        }
        &self.global_id_base57
    }
}

impl Clone for ClusterID {
    /// The copy is the identifier of the same cluster.
    fn clone(&self) -> (r: Self)
        ensures
            r.represents(self@),
    {
        proof {
            use_type_invariant(self);
        }
        ClusterID {
            global_id_base10: self.global_id_base10.clone(),
            global_id_base57: self.global_id_base57.clone(),
        }
    }
}

impl PartialEq for ClusterID {
    /// Two cluster identifiers are equal when they hold the same number.
    fn eq(&self, other: &Self) -> (r: bool) {
        big_eq(&self.global_id_base10, &other.global_id_base10)
    }
}

impl PartialEqSpecImpl for ClusterID {
    open spec fn obeys_eq_spec() -> bool {
        true
    }

    open spec fn eq_spec(&self, other: &Self) -> bool {
        self@ == other@
    }
}

/// `Arc::clone`: one more handle on the same value.
#[verifier::external_body]
fn share_registration(registration: &Arc<ClusterRegistration>) -> (shared: Arc<ClusterRegistration>)
    ensures
        shared == *registration,
{
    Arc::clone(registration)
}

/// How much of a cluster is loaded.
#[derive(Clone, Copy, Debug, PartialEq, Eq, Structural)]
pub enum ClusterLoadState {
    Registered,
    MetadataLoaded,
    DataLoaded,
}

/// Why a step of loading or unloading was refused, or why a part of a
/// cluster could not be had.
#[derive(Clone, Copy, Debug, PartialEq, Eq, Structural)]
pub enum ClusterLoadError {
    /// The metadata is loaded already.
    MetadataAlreadyLoaded,
    /// The metadata is not loaded.
    MetadataNotLoaded,
    /// The data is loaded already.
    DataAlreadyLoaded,
    /// The data is not loaded.
    DataNotLoaded,
    /// The data is still loaded and has to be unloaded first.
    DataStillLoaded,
}

/// The registration of a cluster: its identifier.
pub struct ClusterRegistration {
    id: ClusterID,
}

impl ClusterRegistration {
    /// The identifier that the registration holds.
    pub closed spec fn id(&self) -> ClusterID {
        self.id
    }

    /// The registration of the cluster with the given identifier.
    pub fn new(id: ClusterID) -> (registration: ClusterRegistration)
        ensures
            registration.id() == id,
    {
        ClusterRegistration { id: id }
    }

    /// The identifier of the registered cluster.
    pub fn get_id(&self) -> (id: &ClusterID)
        ensures
            *id == self.id(),
    {
        &self.id
    }
}

/// The metadata of a cluster.
#[derive(Clone, Copy, Debug)]
pub struct ClusterMetadata {
    placeholder_metadata: Option<i32>,
}

impl View for ClusterMetadata {
    type V = Option<i32>;

    closed spec fn view(&self) -> Option<i32> {
        self.placeholder_metadata
    }
}

impl ClusterMetadata {
    /// Metadata that holds nothing yet.
    pub fn new() -> (metadata: ClusterMetadata)
        ensures
            metadata@ is None,
    {
        ClusterMetadata { placeholder_metadata: None }
    }

    /// What the metadata holds.
    pub fn get_placeholder_metadata(&self) -> (r: Option<i32>)
        ensures
            r == self@,
    {
        self.placeholder_metadata
    }

    /// Replaces what the metadata holds.
    pub fn set_placeholder_metadata(&mut self, placeholder_metadata: Option<i32>)
        ensures
            final(self)@ == placeholder_metadata,
    {
        self.placeholder_metadata = placeholder_metadata;
    }
}

/// The data of a cluster.
#[derive(Clone, Copy, Debug)]
pub struct ClusterData {
    placeholder_data: Option<i32>,
}

impl View for ClusterData {
    type V = Option<i32>;

    closed spec fn view(&self) -> Option<i32> {
        self.placeholder_data
    }
}

impl ClusterData {
    /// Data that holds nothing yet.
    pub fn new() -> (data: ClusterData)
        ensures
            data@ is None,
    {
        ClusterData { placeholder_data: None }
    }

    /// What the data holds.
    pub fn get_placeholder_data(&self) -> (r: Option<i32>)
        ensures
            r == self@,
    {
        self.placeholder_data
    }

    /// Replaces what the data holds.
    pub fn set_placeholder_data(&mut self, placeholder_data: Option<i32>)
        ensures
            final(self)@ == placeholder_data,
    {
        self.placeholder_data = placeholder_data;
    }
}

/// A cluster in one of its three states of loading. Metadata can be loaded
/// onto a registered cluster only, and data onto one with metadata only;
/// unloading goes the same way back.
pub enum Cluster {
    Registered { registration: Arc<ClusterRegistration> },
    MetadataLoaded { registration: Arc<ClusterRegistration>, metadata: ClusterMetadata },
    DataLoaded {
        registration: Arc<ClusterRegistration>,
        metadata: ClusterMetadata,
        data: ClusterData,
    },
}

impl Cluster {
    /// How much of the cluster is loaded.
    pub open spec fn load_state(&self) -> ClusterLoadState {
        match self {
            Cluster::Registered { .. } => ClusterLoadState::Registered,
            Cluster::MetadataLoaded { .. } => ClusterLoadState::MetadataLoaded,
            Cluster::DataLoaded { .. } => ClusterLoadState::DataLoaded,
        }
    }

    /// The registration of the cluster.
    pub open spec fn registration(&self) -> ClusterRegistration {
        match self {
            Cluster::Registered { registration } => **registration,
            Cluster::MetadataLoaded { registration, .. } => **registration,
            Cluster::DataLoaded { registration, .. } => **registration,
        }
    }

    /// The metadata of the cluster, where it is loaded.
    pub open spec fn metadata(&self) -> Option<ClusterMetadata> {
        match self {
            Cluster::Registered { .. } => None,
            Cluster::MetadataLoaded { metadata, .. } => Some(*metadata),
            Cluster::DataLoaded { metadata, .. } => Some(*metadata),
        }
    }

    /// The data of the cluster, where it is loaded.
    pub open spec fn data(&self) -> Option<ClusterData> {
        match self {
            Cluster::Registered { .. } => None,
            Cluster::MetadataLoaded { .. } => None,
            Cluster::DataLoaded { data, .. } => Some(*data),
        }
    }

    /// A registered cluster with nothing loaded.
    pub fn new(id: ClusterID) -> (cluster: Cluster)
        ensures
            cluster.load_state() == ClusterLoadState::Registered,
            cluster.registration().id() == id,
    {
        Cluster::Registered { registration: Arc::new(ClusterRegistration::new(id)) }
    }

    /// Loads metadata onto a cluster that is registered only.
    pub fn load_metadata(&mut self, metadata: ClusterMetadata) -> (r: Result<(), ClusterLoadError>)
        ensures
            old(self).load_state() == ClusterLoadState::Registered ==> {
                &&& r is Ok
                &&& final(self).load_state() == ClusterLoadState::MetadataLoaded
                &&& final(self).registration() == old(self).registration()
                &&& final(self).metadata() == Some(metadata)
            },
            old(self).load_state() != ClusterLoadState::Registered ==> r == Err::<
                (),
                ClusterLoadError,
            >(ClusterLoadError::MetadataAlreadyLoaded) && *final(self) == *old(self),
    {
        let registration = match self {
            Cluster::Registered { registration } => share_registration(registration),
            Cluster::MetadataLoaded { .. } => {
                return Err(ClusterLoadError::MetadataAlreadyLoaded);
            },
            Cluster::DataLoaded { .. } => {
                return Err(ClusterLoadError::MetadataAlreadyLoaded);
            },
        };
        *self = Cluster::MetadataLoaded { registration, metadata };
        Ok(())
    }

    /// Loads data onto a cluster that has metadata and no data.
    pub fn load_data(&mut self, data: ClusterData) -> (r: Result<(), ClusterLoadError>)
        ensures
            old(self).load_state() == ClusterLoadState::MetadataLoaded ==> {
                &&& r is Ok
                &&& final(self).load_state() == ClusterLoadState::DataLoaded
                &&& final(self).registration() == old(self).registration()
                &&& final(self).metadata() == old(self).metadata()
                &&& final(self).data() == Some(data)
            },
            old(self).load_state() == ClusterLoadState::Registered ==> r == Err::<
                (),
                ClusterLoadError,
            >(ClusterLoadError::MetadataNotLoaded) && *final(self) == *old(self),
            old(self).load_state() == ClusterLoadState::DataLoaded ==> r == Err::<
                (),
                ClusterLoadError,
            >(ClusterLoadError::DataAlreadyLoaded) && *final(self) == *old(self),
    {
        let (registration, metadata) = match self {
            Cluster::Registered { .. } => {
                return Err(ClusterLoadError::MetadataNotLoaded);
            },
            Cluster::MetadataLoaded { registration, metadata } => (
                share_registration(registration),
                *metadata,
            ),
            Cluster::DataLoaded { .. } => {
                return Err(ClusterLoadError::DataAlreadyLoaded);
            },
        };
        *self = Cluster::DataLoaded { registration, metadata, data };
        Ok(())
    }

    /// Unloads the metadata of a cluster that has metadata and no data.
    pub fn unload_metadata(&mut self) -> (r: Result<(), ClusterLoadError>)
        ensures
            old(self).load_state() == ClusterLoadState::MetadataLoaded ==> {
                &&& r is Ok
                &&& final(self).load_state() == ClusterLoadState::Registered
                &&& final(self).registration() == old(self).registration()
            },
            old(self).load_state() == ClusterLoadState::Registered ==> r == Err::<
                (),
                ClusterLoadError,
            >(ClusterLoadError::MetadataNotLoaded) && *final(self) == *old(self),
            old(self).load_state() == ClusterLoadState::DataLoaded ==> r == Err::<
                (),
                ClusterLoadError,
            >(ClusterLoadError::DataStillLoaded) && *final(self) == *old(self),
    {
        let registration = match self {
            Cluster::Registered { .. } => {
                return Err(ClusterLoadError::MetadataNotLoaded);
            },
            Cluster::MetadataLoaded { registration, .. } => share_registration(registration),
            Cluster::DataLoaded { .. } => {
                return Err(ClusterLoadError::DataStillLoaded);
            },
        };
        *self = Cluster::Registered { registration };
        Ok(())
    }

    /// Unloads the data of a cluster that has data.
    pub fn unload_data(&mut self) -> (r: Result<(), ClusterLoadError>)
        ensures
            old(self).load_state() == ClusterLoadState::DataLoaded ==> {
                &&& r is Ok
                &&& final(self).load_state() == ClusterLoadState::MetadataLoaded
                &&& final(self).registration() == old(self).registration()
                &&& final(self).metadata() == old(self).metadata()
            },
            old(self).load_state() != ClusterLoadState::DataLoaded ==> r == Err::<
                (),
                ClusterLoadError,
            >(ClusterLoadError::DataNotLoaded) && *final(self) == *old(self),
    {
        let (registration, metadata) = match self {
            Cluster::Registered { .. } => {
                return Err(ClusterLoadError::DataNotLoaded);
            },
            Cluster::MetadataLoaded { .. } => {
                return Err(ClusterLoadError::DataNotLoaded);
            },
            Cluster::DataLoaded { registration, metadata, .. } => (
                share_registration(registration),
                *metadata,
            ),
        };
        *self = Cluster::MetadataLoaded { registration, metadata };
        Ok(())
    }

    /// The registration of the cluster.
    pub fn get_registration(&self) -> (r: &Arc<ClusterRegistration>)
        ensures
            **r == self.registration(),
    {
        match self {
            Cluster::Registered { registration } => registration,
            Cluster::MetadataLoaded { registration, .. } => registration,
            Cluster::DataLoaded { registration, .. } => registration,
        }
    }

    /// The metadata of the cluster, unless none is loaded.
    pub fn get_metadata(&self) -> (r: Result<&ClusterMetadata, ClusterLoadError>)
        ensures
            self.metadata() matches Some(metadata) ==> r == Ok::<
                &ClusterMetadata,
                ClusterLoadError,
            >(&metadata),
            self.metadata() is None ==> r == Err::<&ClusterMetadata, ClusterLoadError>(
                ClusterLoadError::MetadataNotLoaded,
            ),
    {
        match self {
            Cluster::Registered { .. } => Err(ClusterLoadError::MetadataNotLoaded),
            Cluster::MetadataLoaded { metadata, .. } => Ok(metadata),
            Cluster::DataLoaded { metadata, .. } => Ok(metadata),
        }
    }

    /// The data of the cluster, unless none is loaded.
    pub fn get_data(&self) -> (r: Result<&ClusterData, ClusterLoadError>)
        ensures
            self.data() matches Some(data) ==> r == Ok::<&ClusterData, ClusterLoadError>(&data),
            self.data() is None ==> r == Err::<&ClusterData, ClusterLoadError>(
                ClusterLoadError::DataNotLoaded,
            ),
    {
        match self {
            Cluster::Registered { .. } => Err(ClusterLoadError::DataNotLoaded),
            Cluster::MetadataLoaded { .. } => Err(ClusterLoadError::DataNotLoaded),
            Cluster::DataLoaded { data, .. } => Ok(data),
        }
    }

    /// How much of the cluster is loaded.
    pub fn get_load_state(&self) -> (state: ClusterLoadState)
        ensures
            state == self.load_state(),
    {
        match self {
            Cluster::Registered { .. } => ClusterLoadState::Registered,
            Cluster::MetadataLoaded { .. } => ClusterLoadState::MetadataLoaded,
            Cluster::DataLoaded { .. } => ClusterLoadState::DataLoaded,
        }
    }
}

/// The clusters that are registered.
pub struct ClusterManager {
    registered_clusters: Vec<Cluster>,
}

impl View for ClusterManager {
    type V = Seq<Cluster>;

    closed spec fn view(&self) -> Seq<Cluster> {
        self.registered_clusters@
    }
}

impl ClusterManager {
    /// A manager with no cluster registered.
    pub fn new() -> (manager: ClusterManager)
        ensures
            manager@.len() == 0,
    {
        ClusterManager { registered_clusters: Vec::new() }
    }
}

} // verus!
