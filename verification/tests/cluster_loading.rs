use chunk_address::universe::chunk::ChunkID;
use chunk_address::universe::cluster::{
    Cluster, ClusterData, ClusterID, ClusterLoadError, ClusterLoadState, ClusterManager,
    ClusterMetadata, ClusterRegistration,
};
use num_bigint::BigUint;

fn cluster_id(n: u64) -> ClusterID {
    match ChunkID::from_base10_global(BigUint::from(n)) {
        Ok(chunk) => ClusterID::from_chunk_id(chunk),
        Err(_) => panic!("{} must have a chunk identifier", n),
    }
}

#[test]
fn metadata_and_data_hold_what_is_set() {
    let mut metadata = ClusterMetadata::new();
    assert_eq!(metadata.get_placeholder_metadata(), None);
    metadata.set_placeholder_metadata(Some(5));
    assert_eq!(metadata.get_placeholder_metadata(), Some(5));
    metadata.set_placeholder_metadata(None);
    assert_eq!(metadata.get_placeholder_metadata(), None);
    let mut data = ClusterData::new();
    assert_eq!(data.get_placeholder_data(), None);
    data.set_placeholder_data(Some(-3));
    assert_eq!(data.get_placeholder_data(), Some(-3));
}

#[test]
fn registration_keeps_its_identifier() {
    let registration = ClusterRegistration::new(cluster_id(4200));
    assert!(registration.get_id() == &cluster_id(4299));
}

#[test]
fn cluster_loads_and_unloads_step_by_step() {
    let mut cluster = Cluster::new(cluster_id(700));
    assert_eq!(cluster.get_load_state(), ClusterLoadState::Registered);
    assert!(cluster.get_registration().get_id() == &cluster_id(700));
    assert_eq!(cluster.get_metadata().err(), Some(ClusterLoadError::MetadataNotLoaded));
    assert_eq!(cluster.get_data().err(), Some(ClusterLoadError::DataNotLoaded));

    let mut metadata = ClusterMetadata::new();
    metadata.set_placeholder_metadata(Some(1));
    assert_eq!(cluster.load_metadata(metadata), Ok(()));
    assert_eq!(cluster.get_load_state(), ClusterLoadState::MetadataLoaded);
    assert_eq!(
        cluster.get_metadata().map(|m| m.get_placeholder_metadata()),
        Ok(Some(1))
    );
    assert_eq!(cluster.get_data().err(), Some(ClusterLoadError::DataNotLoaded));

    let mut data = ClusterData::new();
    data.set_placeholder_data(Some(2));
    assert_eq!(cluster.load_data(data), Ok(()));
    assert_eq!(cluster.get_load_state(), ClusterLoadState::DataLoaded);
    assert_eq!(cluster.get_data().map(|d| d.get_placeholder_data()), Ok(Some(2)));
    assert_eq!(
        cluster.get_metadata().map(|m| m.get_placeholder_metadata()),
        Ok(Some(1))
    );

    assert_eq!(cluster.unload_data(), Ok(()));
    assert_eq!(cluster.get_load_state(), ClusterLoadState::MetadataLoaded);
    assert_eq!(
        cluster.get_metadata().map(|m| m.get_placeholder_metadata()),
        Ok(Some(1))
    );
    assert_eq!(cluster.unload_metadata(), Ok(()));
    assert_eq!(cluster.get_load_state(), ClusterLoadState::Registered);
    assert!(cluster.get_registration().get_id() == &cluster_id(700));
}

#[test]
fn cluster_refuses_steps_out_of_order() {
    let mut cluster = Cluster::new(cluster_id(0));
    assert_eq!(
        cluster.load_data(ClusterData::new()),
        Err(ClusterLoadError::MetadataNotLoaded)
    );
    assert_eq!(cluster.unload_metadata(), Err(ClusterLoadError::MetadataNotLoaded));
    assert_eq!(cluster.unload_data(), Err(ClusterLoadError::DataNotLoaded));
    assert_eq!(cluster.get_load_state(), ClusterLoadState::Registered);

    assert_eq!(cluster.load_metadata(ClusterMetadata::new()), Ok(()));
    assert_eq!(
        cluster.load_metadata(ClusterMetadata::new()),
        Err(ClusterLoadError::MetadataAlreadyLoaded)
    );
    assert_eq!(cluster.unload_data(), Err(ClusterLoadError::DataNotLoaded));
    assert_eq!(cluster.get_load_state(), ClusterLoadState::MetadataLoaded);

    assert_eq!(cluster.load_data(ClusterData::new()), Ok(()));
    assert_eq!(
        cluster.load_data(ClusterData::new()),
        Err(ClusterLoadError::DataAlreadyLoaded)
    );
    assert_eq!(
        cluster.load_metadata(ClusterMetadata::new()),
        Err(ClusterLoadError::MetadataAlreadyLoaded)
    );
    assert_eq!(cluster.unload_metadata(), Err(ClusterLoadError::DataStillLoaded));
    assert_eq!(cluster.get_load_state(), ClusterLoadState::DataLoaded);
}

#[test]
fn cluster_manager_can_be_made() {
    let _manager = ClusterManager::new();
}
