//! Replica descriptors: foreign-layout inputs and their native forms.
//!
//! A foreign caller hands over per-sector replica metadata as fixed-layout
//! records whose variable-length fields are raw byte buffers. Decoding
//! turns each record into a native descriptor: string fields are checked to
//! be valid UTF-8, required paths to be non-empty, and the
//! flag-plus-descriptor pattern of the foreign layout becomes a proper
//! two-variant location (local path or remote-storage descriptor).

use crate::error::MarshalError;
use crate::ranges::ByteRange;
use crate::text::is_valid_utf8;
use vstd::prelude::*;
use vstd::utf8::valid_utf8;

verus! {

/// Proof-type tag carried alongside each replica; opaque to marshaling.
#[derive(Clone, Copy, Debug, PartialEq, Eq, Structural)]
pub enum RegisteredPoStProof {
    StackedDrgWinning2KiBV1,
    StackedDrgWinning8MiBV1,
    StackedDrgWinning512MiBV1,
    StackedDrgWinning32GiBV1,
    StackedDrgWinning64GiBV1,
    StackedDrgWindow2KiBV1,
    StackedDrgWindow8MiBV1,
    StackedDrgWindow512MiBV1,
    StackedDrgWindow32GiBV1,
    StackedDrgWindow64GiBV1,
}

/// A remote-storage descriptor as it arrives from the foreign caller:
/// every string field still a raw byte buffer. An absent field is an empty
/// buffer, never a null.
pub struct RawSectorPathInfo {
    pub endpoints: Vec<u8>,
    pub landed_dir: Vec<u8>,
    pub access_key: Vec<u8>,
    pub secret_key: Vec<u8>,
    pub bucket_name: Vec<u8>,
    pub sector_name: Vec<u8>,
    pub region: Vec<u8>,
    pub multi_ranges: Vec<ByteRange>,
}

/// A public replica descriptor as it arrives from the foreign caller.
pub struct RawPublicReplica {
    pub registered_proof: RegisteredPoStProof,
    pub comm_r: [u8; 32],
    pub sector_id: u64,
}

/// A private replica descriptor as it arrives from the foreign caller.
/// Whether the cache or replica data lives in object storage is a flag
/// beside an always-present descriptor; decoding replaces that pair with a
/// two-variant location.
pub struct RawPrivateReplica {
    pub registered_proof: RegisteredPoStProof,
    pub cache_dir_path: Vec<u8>,
    pub cache_in_oss: bool,
    pub cache_sector_path_info: RawSectorPathInfo,
    pub comm_r: [u8; 32],
    pub replica_path: Vec<u8>,
    pub replica_in_oss: bool,
    pub replica_sector_path_info: RawSectorPathInfo,
    pub sector_id: u64,
}

/// A sector's data as it exists in object storage, addressed by byte
/// range. All string fields are valid UTF-8 (kept as their bytes); an
/// absent field is an empty string.
#[derive(Clone, Debug, PartialEq, Eq)]
pub struct SectorPathInfo {
    pub endpoints: Vec<u8>,
    pub landed_dir: Vec<u8>,
    pub access_key: Vec<u8>,
    pub secret_key: Vec<u8>,
    pub bucket_name: Vec<u8>,
    pub sector_name: Vec<u8>,
    pub region: Vec<u8>,
    pub multi_ranges: Vec<ByteRange>,
}

impl SectorPathInfo {
    /// Every string field holds valid UTF-8.
    pub open spec fn wf(&self) -> bool {
        &&& valid_utf8(self.endpoints@)
        &&& valid_utf8(self.landed_dir@)
        &&& valid_utf8(self.access_key@)
        &&& valid_utf8(self.secret_key@)
        &&& valid_utf8(self.bucket_name@)
        &&& valid_utf8(self.sector_name@)
        &&& valid_utf8(self.region@)
    }
}

/// Where a sector's bytes live: staged on local disk, or at a
/// remote-storage location.
#[derive(Clone, Debug, PartialEq, Eq)]
pub enum SectorLocation {
    Local(Vec<u8>),
    Remote(SectorPathInfo),
}

impl SectorLocation {
    /// A local path is valid UTF-8; a remote descriptor is well-formed.
    pub open spec fn wf(&self) -> bool {
        match self {
            SectorLocation::Local(p) => valid_utf8(p@),
            SectorLocation::Remote(info) => info.wf(),
        }
    }
}

/// Verifiable public claims about a sector's replica.
#[derive(Clone, Debug, PartialEq, Eq)]
pub struct PublicReplicaInfo {
    pub registered_proof: RegisteredPoStProof,
    pub comm_r: [u8; 32],
}

/// Everything needed to locate a sector's private data for proving. The
/// cache directory and replica paths are always required; each may
/// additionally be backed by a remote-storage location.
#[derive(Clone, Debug, PartialEq, Eq)]
pub struct PrivateReplicaInfo {
    pub registered_proof: RegisteredPoStProof,
    pub comm_r: [u8; 32],
    pub cache_dir_path: Vec<u8>,
    pub cache_location: SectorLocation,
    pub replica_path: Vec<u8>,
    pub replica_location: SectorLocation,
}

impl PrivateReplicaInfo {
    /// Paths are non-empty valid UTF-8 and both locations well-formed.
    pub open spec fn wf(&self) -> bool {
        &&& valid_utf8(self.cache_dir_path@)
        &&& self.cache_dir_path@.len() > 0
        &&& valid_utf8(self.replica_path@)
        &&& self.replica_path@.len() > 0
        &&& self.cache_location.wf()
        &&& self.replica_location.wf()
    }
}

/// When a raw remote-storage descriptor decodes: all string fields valid
/// UTF-8. Empty fields are allowed; absence is the empty string.
pub open spec fn path_info_ok(raw: RawSectorPathInfo) -> bool {
    &&& valid_utf8(raw.endpoints@)
    &&& valid_utf8(raw.landed_dir@)
    &&& valid_utf8(raw.access_key@)
    &&& valid_utf8(raw.secret_key@)
    &&& valid_utf8(raw.bucket_name@)
    &&& valid_utf8(raw.sector_name@)
    &&& valid_utf8(raw.region@)
}

/// The decoded descriptor carries the raw fields over unchanged.
pub open spec fn path_info_matches(v: SectorPathInfo, raw: RawSectorPathInfo) -> bool {
    &&& v.endpoints@ == raw.endpoints@
    &&& v.landed_dir@ == raw.landed_dir@
    &&& v.access_key@ == raw.access_key@
    &&& v.secret_key@ == raw.secret_key@
    &&& v.bucket_name@ == raw.bucket_name@
    &&& v.sector_name@ == raw.sector_name@
    &&& v.region@ == raw.region@
    &&& v.multi_ranges@ == raw.multi_ranges@
}

/// The decoded location that the flag-plus-descriptor pair denotes: the
/// remote descriptor when the flag is set, the local path otherwise.
pub open spec fn location_matches(
    loc: SectorLocation,
    in_oss: bool,
    info: RawSectorPathInfo,
    path: Seq<u8>,
) -> bool {
    if in_oss {
        &&& loc is Remote
        &&& path_info_matches(loc->Remote_0, info)
    } else {
        &&& loc is Local
        &&& loc->Local_0@ == path
    }
}

/// When a raw private replica decodes: both required paths are non-empty
/// valid UTF-8, and both remote-storage descriptors (used or not) have
/// valid UTF-8 string fields.
pub open spec fn private_replica_ok(raw: RawPrivateReplica) -> bool {
    &&& valid_utf8(raw.cache_dir_path@)
    &&& raw.cache_dir_path@.len() > 0
    &&& valid_utf8(raw.replica_path@)
    &&& raw.replica_path@.len() > 0
    &&& path_info_ok(raw.cache_sector_path_info)
    &&& path_info_ok(raw.replica_sector_path_info)
}

/// The error reported for a raw private replica that does not decode: the
/// first failing check, in decoding order (cache path, replica path, cache
/// descriptor, replica descriptor).
pub open spec fn spec_private_decode_err(raw: RawPrivateReplica) -> MarshalError {
    if !valid_utf8(raw.cache_dir_path@) {
        MarshalError::InvalidUtf8
    } else if raw.cache_dir_path@.len() == 0 {
        MarshalError::EmptyPath
    } else if !valid_utf8(raw.replica_path@) {
        MarshalError::InvalidUtf8
    } else if raw.replica_path@.len() == 0 {
        MarshalError::EmptyPath
    } else {
        MarshalError::InvalidUtf8
    }
}

/// The decoded private replica carries the raw fields over unchanged,
/// with each flag-plus-descriptor pair folded into its location.
pub open spec fn private_decoded_matches(v: PrivateReplicaInfo, raw: RawPrivateReplica) -> bool {
    &&& v.registered_proof == raw.registered_proof
    &&& v.comm_r == raw.comm_r
    &&& v.cache_dir_path@ == raw.cache_dir_path@
    &&& location_matches(
        v.cache_location,
        raw.cache_in_oss,
        raw.cache_sector_path_info,
        raw.cache_dir_path@,
    )
    &&& v.replica_path@ == raw.replica_path@
    &&& location_matches(
        v.replica_location,
        raw.replica_in_oss,
        raw.replica_sector_path_info,
        raw.replica_path@,
    )
}

/// The decoded public replica: the proof tag and commitment, unchanged.
pub open spec fn spec_decode_public(raw: RawPublicReplica) -> PublicReplicaInfo {
    PublicReplicaInfo { registered_proof: raw.registered_proof, comm_r: raw.comm_r }
}

/// An owned copy of a buffer, so the foreign buffer can be released as
/// soon as the call returns.
pub(crate) fn copy_vec<T: Copy>(src: &Vec<T>) -> (r: Vec<T>)
    ensures
        r@ == src@,
{
    let n = src.len();
    let mut r: Vec<T> = Vec::new();
    let mut i: usize = 0;
    while i < n
        invariant
            i <= n,
            n == src@.len(),
            r@ == src@.take(i as int),
        decreases n - i,
    {
        r.push(src[i]);
        proof {
            assert(r@ =~= src@.take(i + 1));
        }
        i = i + 1;
    }
    proof {
        assert(src@.take(n as int) =~= src@);
    }
    r
}

/// Decode a raw remote-storage descriptor, checking every string field.
pub fn decode_path_info(raw: &RawSectorPathInfo) -> (r: Result<SectorPathInfo, MarshalError>)
    ensures
        r is Ok <==> path_info_ok(*raw),
        r matches Ok(v) ==> path_info_matches(v, *raw) && v.wf(),
        r matches Err(e) ==> e == MarshalError::InvalidUtf8,
{
    if !is_valid_utf8(&raw.endpoints) {
        return Err(MarshalError::InvalidUtf8);
    }
    if !is_valid_utf8(&raw.landed_dir) {
        return Err(MarshalError::InvalidUtf8);
    }
    if !is_valid_utf8(&raw.access_key) {
        return Err(MarshalError::InvalidUtf8);
    }
    if !is_valid_utf8(&raw.secret_key) {
        return Err(MarshalError::InvalidUtf8);
    }
    if !is_valid_utf8(&raw.bucket_name) {
        return Err(MarshalError::InvalidUtf8);
    }
    if !is_valid_utf8(&raw.sector_name) {
        return Err(MarshalError::InvalidUtf8);
    }
    if !is_valid_utf8(&raw.region) {
        return Err(MarshalError::InvalidUtf8);
    }
    Ok(
        SectorPathInfo {
            endpoints: copy_vec(&raw.endpoints),
            landed_dir: copy_vec(&raw.landed_dir),
            access_key: copy_vec(&raw.access_key),
            secret_key: copy_vec(&raw.secret_key),
            bucket_name: copy_vec(&raw.bucket_name),
            sector_name: copy_vec(&raw.sector_name),
            region: copy_vec(&raw.region),
            multi_ranges: copy_vec(&raw.multi_ranges),
        },
    )
}

/// Decode one raw public replica descriptor; nothing in it can fail.
pub fn decode_public_replica(raw: &RawPublicReplica) -> (r: PublicReplicaInfo)
    ensures
        r == spec_decode_public(*raw),
{
    PublicReplicaInfo { registered_proof: raw.registered_proof, comm_r: raw.comm_r }
}

/// Decode one raw private replica descriptor.
///
/// Succeeds exactly when both required paths are non-empty valid UTF-8 and
/// both remote-storage descriptors have valid UTF-8 string fields; a
/// failure anywhere rejects the descriptor with the first error found, in
/// decoding order.
pub fn decode_private_replica(raw: &RawPrivateReplica) -> (r: Result<
    PrivateReplicaInfo,
    MarshalError,
>)
    ensures
        r is Ok <==> private_replica_ok(*raw),
        r matches Ok(v) ==> private_decoded_matches(v, *raw) && v.wf(),
        r matches Err(e) ==> e == spec_private_decode_err(*raw),
{
    if !is_valid_utf8(&raw.cache_dir_path) {
        return Err(MarshalError::InvalidUtf8);
    }
    if raw.cache_dir_path.len() == 0 {
        return Err(MarshalError::EmptyPath);
    }
    if !is_valid_utf8(&raw.replica_path) {
        return Err(MarshalError::InvalidUtf8);
    }
    if raw.replica_path.len() == 0 {
        return Err(MarshalError::EmptyPath);
    }
    let cache_info = match decode_path_info(&raw.cache_sector_path_info) {
        Ok(v) => v,
        Err(e) => {
            return Err(e);
        },
    };
    let replica_info = match decode_path_info(&raw.replica_sector_path_info) {
        Ok(v) => v,
        Err(e) => {
            return Err(e);
        },
    };
    let cache_location = if raw.cache_in_oss {
        SectorLocation::Remote(cache_info)
    } else {
        SectorLocation::Local(copy_vec(&raw.cache_dir_path))
    };
    let replica_location = if raw.replica_in_oss {
        SectorLocation::Remote(replica_info)
    } else {
        SectorLocation::Local(copy_vec(&raw.replica_path))
    };
    Ok(
        PrivateReplicaInfo {
            registered_proof: raw.registered_proof,
            comm_r: raw.comm_r,
            cache_dir_path: copy_vec(&raw.cache_dir_path),
            cache_location,
            replica_path: copy_vec(&raw.replica_path),
            replica_location,
        },
    )
}

} // verus!
