use sector_marshal::error::MarshalError;
use sector_marshal::marshal::to_private_replica_info_map;
use sector_marshal::marshal::to_public_replica_info_map;
use sector_marshal::marshal::ForeignArray;
use sector_marshal::ranges::ByteRange;
use sector_marshal::replica::RawPrivateReplica;
use sector_marshal::replica::RawPublicReplica;
use sector_marshal::replica::RawSectorPathInfo;
use sector_marshal::replica::RegisteredPoStProof;
use sector_marshal::replica::SectorLocation;

fn public_replica(sector_id: u64, first_byte: u8) -> RawPublicReplica {
    let mut comm_r = [0u8; 32];
    comm_r[0] = first_byte;
    RawPublicReplica {
        registered_proof: RegisteredPoStProof::StackedDrgWindow32GiBV1,
        comm_r,
        sector_id,
    }
}

fn path_info(endpoints: &[u8]) -> RawSectorPathInfo {
    RawSectorPathInfo {
        endpoints: endpoints.to_vec(),
        landed_dir: b"/landed".to_vec(),
        access_key: b"access".to_vec(),
        secret_key: b"secret".to_vec(),
        bucket_name: b"bucket".to_vec(),
        sector_name: b"s-042".to_vec(),
        region: Vec::new(),
        multi_ranges: vec![ByteRange { offset: 0, size: 512 }],
    }
}

fn private_replica(sector_id: u64, in_oss: bool) -> RawPrivateReplica {
    RawPrivateReplica {
        registered_proof: RegisteredPoStProof::StackedDrgWinning2KiBV1,
        cache_dir_path: b"/cache/s-042".to_vec(),
        cache_in_oss: false,
        cache_sector_path_info: path_info(b"http://oss.example"),
        comm_r: [7u8; 32],
        replica_path: b"/replicas/s-042".to_vec(),
        replica_in_oss: in_oss,
        replica_sector_path_info: path_info(b"http://oss.example"),
        sector_id,
    }
}

#[test]
fn public_map_orders_ids_ascending() {
    let input = ForeignArray::Data(vec![
        public_replica(9, 1),
        public_replica(2, 2),
        public_replica(7, 3),
        public_replica(4, 4),
    ]);
    let m = to_public_replica_info_map(&input).unwrap();
    assert_eq!(m.len(), 4);
    assert_eq!(m.keys(), vec![2, 4, 7, 9]);
}

#[test]
fn public_map_one_entry_per_distinct_id() {
    let input = ForeignArray::Data(vec![
        public_replica(5, 1),
        public_replica(3, 2),
        public_replica(5, 3),
        public_replica(3, 4),
        public_replica(8, 5),
    ]);
    let m = to_public_replica_info_map(&input).unwrap();
    assert_eq!(m.len(), 3);
    assert_eq!(m.keys(), vec![3, 5, 8]);
}

#[test]
fn public_map_duplicate_id_last_wins() {
    let input = ForeignArray::Data(vec![
        public_replica(5, 0xaa),
        public_replica(6, 0x11),
        public_replica(5, 0xbb),
    ]);
    let m = to_public_replica_info_map(&input).unwrap();
    assert_eq!(m.len(), 2);
    let info = m.get(5).unwrap();
    assert_eq!(info.comm_r[0], 0xbb);
}

#[test]
fn null_array_of_zero_length_is_empty_map() {
    let public: ForeignArray<RawPublicReplica> = ForeignArray::Null { declared_len: 0 };
    let m = to_public_replica_info_map(&public).unwrap();
    assert_eq!(m.len(), 0);
    let private: ForeignArray<RawPrivateReplica> = ForeignArray::Null { declared_len: 0 };
    let m = to_private_replica_info_map(&private).unwrap();
    assert_eq!(m.len(), 0);
}

#[test]
fn null_array_with_nonzero_length_is_rejected() {
    let public: ForeignArray<RawPublicReplica> = ForeignArray::Null { declared_len: 3 };
    assert_eq!(
        to_public_replica_info_map(&public).unwrap_err(),
        MarshalError::NullPointer
    );
    let private: ForeignArray<RawPrivateReplica> = ForeignArray::Null { declared_len: 1 };
    assert_eq!(
        to_private_replica_info_map(&private).unwrap_err(),
        MarshalError::NullPointer
    );
}

#[test]
fn private_map_orders_ids_and_keeps_fields() {
    let input = ForeignArray::Data(vec![
        private_replica(30, true),
        private_replica(10, false),
        private_replica(20, true),
    ]);
    let m = to_private_replica_info_map(&input).unwrap();
    assert_eq!(m.len(), 3);
    assert_eq!(m.keys(), vec![10, 20, 30]);
    let v = m.get(20).unwrap();
    assert_eq!(v.cache_dir_path, b"/cache/s-042".to_vec());
    assert_eq!(v.replica_path, b"/replicas/s-042".to_vec());
    match &v.replica_location {
        SectorLocation::Remote(info) => {
            assert_eq!(info.endpoints, b"http://oss.example".to_vec());
            assert_eq!(info.multi_ranges, vec![ByteRange { offset: 0, size: 512 }]);
        }
        SectorLocation::Local(_) => panic!("expected a remote-backed replica"),
    }
    match &v.cache_location {
        SectorLocation::Local(p) => assert_eq!(p, &b"/cache/s-042".to_vec()),
        SectorLocation::Remote(_) => panic!("expected a local cache"),
    }
}

#[test]
fn private_map_duplicate_id_last_wins() {
    let mut first = private_replica(5, false);
    first.comm_r = [1u8; 32];
    let mut second = private_replica(5, true);
    second.comm_r = [2u8; 32];
    let input = ForeignArray::Data(vec![first, second]);
    let m = to_private_replica_info_map(&input).unwrap();
    assert_eq!(m.len(), 1);
    let v = m.get(5).unwrap();
    assert_eq!(v.comm_r, [2u8; 32]);
    assert!(matches!(v.replica_location, SectorLocation::Remote(_)));
}

#[test]
fn invalid_utf8_in_descriptor_fails_whole_batch() {
    let good = private_replica(1, false);
    let mut bad = private_replica(2, false);
    // 0xff can appear in no valid UTF-8 encoding; the flag being unset does
    // not excuse an undecodable descriptor.
    bad.cache_sector_path_info.endpoints = vec![0xff, 0xfe];
    let input = ForeignArray::Data(vec![good, bad, private_replica(3, false)]);
    assert_eq!(
        to_private_replica_info_map(&input).unwrap_err(),
        MarshalError::InvalidUtf8
    );
}

#[test]
fn invalid_utf8_in_required_path_fails_whole_batch() {
    let mut bad = private_replica(2, false);
    bad.replica_path = vec![b'/', 0x80];
    let input = ForeignArray::Data(vec![private_replica(1, false), bad]);
    assert_eq!(
        to_private_replica_info_map(&input).unwrap_err(),
        MarshalError::InvalidUtf8
    );
}

#[test]
fn empty_required_path_fails_whole_batch() {
    let mut bad = private_replica(9, false);
    bad.cache_dir_path = Vec::new();
    let input = ForeignArray::Data(vec![bad]);
    assert_eq!(
        to_private_replica_info_map(&input).unwrap_err(),
        MarshalError::EmptyPath
    );
}

#[test]
fn empty_data_array_gives_empty_map() {
    let input: ForeignArray<RawPublicReplica> = ForeignArray::Data(Vec::new());
    let m = to_public_replica_info_map(&input).unwrap();
    assert_eq!(m.len(), 0);
    assert_eq!(m.keys(), Vec::<u64>::new());
}
