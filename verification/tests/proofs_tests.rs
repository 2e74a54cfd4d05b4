use sector_marshal::error::MarshalError;
use sector_marshal::marshal::decode_path;
use sector_marshal::marshal::decode_string;
use sector_marshal::marshal::ForeignArray;
use sector_marshal::proofs::decode_partition_proofs;
use sector_marshal::proofs::decode_post_proofs;
use sector_marshal::proofs::RawPoStProof;
use sector_marshal::replica::RegisteredPoStProof;

#[test]
fn post_proofs_carry_tag_and_bytes_in_order() {
    let input = ForeignArray::Data(vec![
        RawPoStProof {
            registered_proof: RegisteredPoStProof::StackedDrgWinning2KiBV1,
            proof: ForeignArray::Data(vec![1, 2, 3]),
        },
        RawPoStProof {
            registered_proof: RegisteredPoStProof::StackedDrgWindow64GiBV1,
            proof: ForeignArray::Data(Vec::new()),
        },
    ]);
    let ps = decode_post_proofs(&input).unwrap();
    assert_eq!(ps.len(), 2);
    assert_eq!(
        ps[0].registered_proof,
        RegisteredPoStProof::StackedDrgWinning2KiBV1
    );
    assert_eq!(ps[0].proof, vec![1, 2, 3]);
    assert_eq!(
        ps[1].registered_proof,
        RegisteredPoStProof::StackedDrgWindow64GiBV1
    );
    assert_eq!(ps[1].proof, Vec::<u8>::new());
}

#[test]
fn null_proof_array_rules() {
    let empty: ForeignArray<RawPoStProof> = ForeignArray::Null { declared_len: 0 };
    assert_eq!(decode_post_proofs(&empty).unwrap().len(), 0);
    let bad: ForeignArray<RawPoStProof> = ForeignArray::Null { declared_len: 2 };
    assert_eq!(
        decode_post_proofs(&bad).unwrap_err(),
        MarshalError::NullPointer
    );
}

#[test]
fn null_payload_buffer_fails_the_call() {
    let input = ForeignArray::Data(vec![
        RawPoStProof {
            registered_proof: RegisteredPoStProof::StackedDrgWinning8MiBV1,
            proof: ForeignArray::Data(vec![9]),
        },
        RawPoStProof {
            registered_proof: RegisteredPoStProof::StackedDrgWinning8MiBV1,
            proof: ForeignArray::Null { declared_len: 4 },
        },
    ]);
    assert_eq!(
        decode_post_proofs(&input).unwrap_err(),
        MarshalError::NullPointer
    );
    // A null payload of declared length zero is just an empty payload.
    let input = ForeignArray::Data(vec![RawPoStProof {
        registered_proof: RegisteredPoStProof::StackedDrgWinning8MiBV1,
        proof: ForeignArray::Null { declared_len: 0 },
    }]);
    assert_eq!(decode_post_proofs(&input).unwrap()[0].proof, Vec::<u8>::new());
}

#[test]
fn partition_proofs_copy_each_buffer() {
    let input = ForeignArray::Data(vec![
        ForeignArray::Data(vec![0xde, 0xad]),
        ForeignArray::Data(vec![0xbe, 0xef]),
    ]);
    let ps = decode_partition_proofs(&input).unwrap();
    assert_eq!(ps.len(), 2);
    assert_eq!(ps[0].proof, vec![0xde, 0xad]);
    assert_eq!(ps[1].proof, vec![0xbe, 0xef]);
}

#[test]
fn decode_string_null_rules() {
    let absent: ForeignArray<u8> = ForeignArray::Null { declared_len: 0 };
    assert_eq!(decode_string(&absent, true).unwrap(), Vec::<u8>::new());
    assert_eq!(
        decode_string(&absent, false).unwrap_err(),
        MarshalError::NullPointer
    );
    let bad: ForeignArray<u8> = ForeignArray::Null { declared_len: 7 };
    assert_eq!(
        decode_string(&bad, true).unwrap_err(),
        MarshalError::NullPointer
    );
}

#[test]
fn decode_string_checks_utf8() {
    let ok = ForeignArray::Data(b"region-1".to_vec());
    assert_eq!(decode_string(&ok, false).unwrap(), b"region-1".to_vec());
    let bad = ForeignArray::Data(vec![0xc3, 0x28]);
    assert_eq!(
        decode_string(&bad, false).unwrap_err(),
        MarshalError::InvalidUtf8
    );
}

#[test]
fn decode_path_rejects_empty_when_required() {
    let empty = ForeignArray::Data(Vec::new());
    assert_eq!(
        decode_path(&empty, true).unwrap_err(),
        MarshalError::EmptyPath
    );
    assert_eq!(decode_path(&empty, false).unwrap(), Vec::<u8>::new());
    let ok = ForeignArray::Data(b"/var/cache".to_vec());
    assert_eq!(decode_path(&ok, true).unwrap(), b"/var/cache".to_vec());
    let null: ForeignArray<u8> = ForeignArray::Null { declared_len: 0 };
    assert_eq!(
        decode_path(&null, false).unwrap_err(),
        MarshalError::NullPointer
    );
}
