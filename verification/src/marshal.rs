//! The replica-info mappers: from foreign descriptor arrays to ordered
//! sector maps.
//!
//! A foreign array arrives as a pointer and a declared length. A null
//! pointer with declared length zero is a valid empty array; a null
//! pointer with nonzero declared length is a precondition violation,
//! reported before any decoding. Decoding failures of any single entry
//! fail the whole batch: a sector map with a missing or malformed entry is
//! unsafe to hand to the proving library.

use crate::error::MarshalError;
use crate::replica::copy_vec;
use crate::replica::decode_private_replica;
use crate::replica::decode_public_replica;
use crate::replica::private_decoded_matches;
use crate::replica::private_replica_ok;
use crate::replica::spec_decode_public;
use crate::replica::spec_private_decode_err;
use crate::replica::PrivateReplicaInfo;
use crate::replica::PublicReplicaInfo;
use crate::replica::RawPrivateReplica;
use crate::replica::RawPublicReplica;
use crate::sector_map::kv_map;
use crate::sector_map::keys_of;
use crate::sector_map::SectorMap;
use vstd::prelude::*;

verus! {

/// A foreign descriptor array at the single point where a raw pointer and
/// length become a checked view: either a null pointer with its declared
/// length, or the array's elements.
pub enum ForeignArray<T> {
    Null { declared_len: usize },
    Data(Vec<T>),
}

/// The sector ids of the raw public descriptors, in array order.
pub open spec fn public_ids(s: Seq<RawPublicReplica>) -> Seq<u64> {
    s.map_values(|r: RawPublicReplica| r.sector_id)
}

/// The sector ids of the raw private descriptors, in array order.
pub open spec fn private_ids(s: Seq<RawPrivateReplica>) -> Seq<u64> {
    s.map_values(|r: RawPrivateReplica| r.sector_id)
}

/// The decoded public entries, in array order: each descriptor's sector id
/// paired with its decoded replica info.
pub open spec fn public_entries(s: Seq<RawPublicReplica>) -> Seq<(u64, PublicReplicaInfo)> {
    s.map_values(|r: RawPublicReplica| (r.sector_id, spec_decode_public(r)))
}

/// Position `i` holds the last occurrence of its sector id in the array.
pub open spec fn last_occurrence_private(s: Seq<RawPrivateReplica>, i: int) -> bool {
    &&& 0 <= i < s.len()
    &&& forall|j: int| i < j < s.len() ==> s[j].sector_id != s[i].sector_id
}

/// Position `i` holds the last occurrence of its sector id in the array.
pub open spec fn last_occurrence_public(s: Seq<RawPublicReplica>, i: int) -> bool {
    &&& 0 <= i < s.len()
    &&& forall|j: int| i < j < s.len() ==> s[j].sector_id != s[i].sector_id
}

/// Shape of every produced public replica map: exactly one entry per
/// distinct sector id of the input (its domain is the set of input ids,
/// so it never holds more entries than the input has), and its entries
/// iterate in strictly ascending id order.
pub proof fn lemma_public_map_shape(v: Seq<RawPublicReplica>, m: SectorMap<PublicReplicaInfo>)
    requires
        m.wf(),
        m@ == kv_map(public_entries(v)),
    ensures
        m@.dom() == public_ids(v).to_set(),
        m@.dom().len() <= v.len(),
        crate::sector_map::sorted_by_key(m.entries_seq()),
{
    crate::sector_map::lemma_kv_map_dom(public_entries(v));
    assert(keys_of(public_entries(v)) =~= public_ids(v));
    crate::sector_map::lemma_kv_map_size_bound(public_entries(v));
}

/// Last wins in the public map: of two input entries with the same sector
/// id, the lexically later one determines the mapped value.
pub proof fn lemma_public_map_last_wins(
    v: Seq<RawPublicReplica>,
    m: SectorMap<PublicReplicaInfo>,
    i: int,
)
    requires
        m@ == kv_map(public_entries(v)),
        last_occurrence_public(v, i),
    ensures
        m@.contains_key(v[i].sector_id),
        m@[v[i].sector_id] == spec_decode_public(v[i]),
{
    let entries = public_entries(v);
    assert forall|j: int| i < j < entries.len() implies entries[j].0 != entries[i].0 by {
        assert(v[j].sector_id != v[i].sector_id);
    }
    crate::sector_map::lemma_last_entry_wins(entries, i);
    assert(entries[i].0 == v[i].sector_id);
    assert(entries[i].1 == spec_decode_public(v[i]));
}

/// Decode a foreign byte buffer as a UTF-8 string, returned as its
/// validated bytes.
///
/// A null buffer stands for an absent field only where the caller's
/// contract allows optional fields (`allow_null`), and then only with a
/// declared length of zero; any other null buffer is a precondition
/// violation, reported before any decoding. Bytes that are not valid
/// UTF-8 fail fast.
pub fn decode_string(buf: &ForeignArray<u8>, allow_null: bool) -> (r: Result<
    Vec<u8>,
    MarshalError,
>)
    ensures
        match buf {
            ForeignArray::Null { declared_len } => {
                if allow_null && declared_len == 0 {
                    r matches Ok(v) && v@ == Seq::<u8>::empty()
                } else {
                    r matches Err(e) && e == MarshalError::NullPointer
                }
            },
            ForeignArray::Data(v) => {
                &&& (r is Ok <==> vstd::utf8::valid_utf8(v@))
                &&& r matches Ok(o) ==> o@ == v@
                &&& r matches Err(e) ==> e == MarshalError::InvalidUtf8
            },
        },
{
    match buf {
        ForeignArray::Null { declared_len } => {
            if allow_null && *declared_len == 0 {
                Ok(Vec::new())
            } else {
                Err(MarshalError::NullPointer)
            }
        },
        ForeignArray::Data(v) => {
            if crate::text::is_valid_utf8(v) {
                Ok(copy_vec(v))
            } else {
                Err(MarshalError::InvalidUtf8)
            }
        },
    }
}

/// Decode a foreign byte buffer as a filesystem path, returned as its
/// validated bytes. A null buffer is always a precondition violation
/// here; an empty path is rejected when a non-empty path is required.
pub fn decode_path(buf: &ForeignArray<u8>, require_non_empty: bool) -> (r: Result<
    Vec<u8>,
    MarshalError,
>)
    ensures
        match buf {
            ForeignArray::Null { declared_len } => r matches Err(e) && e
                == MarshalError::NullPointer,
            ForeignArray::Data(v) => {
                &&& (r is Ok <==> vstd::utf8::valid_utf8(v@) && (require_non_empty ==> v@.len()
                    > 0))
                &&& r matches Ok(o) ==> o@ == v@
                &&& r matches Err(e) ==> e == (if !vstd::utf8::valid_utf8(v@) {
                    MarshalError::InvalidUtf8
                } else {
                    MarshalError::EmptyPath
                })
            },
        },
{
    match buf {
        ForeignArray::Null { .. } => Err(MarshalError::NullPointer),
        ForeignArray::Data(v) => {
            if !crate::text::is_valid_utf8(v) {
                Err(MarshalError::InvalidUtf8)
            } else if require_non_empty && v.len() == 0 {
                Err(MarshalError::EmptyPath)
            } else {
                Ok(copy_vec(v))
            }
        },
    }
}

/// Build the ordered public replica map from a foreign descriptor array.
///
/// A null array of declared length zero gives the empty map; a null array
/// of nonzero declared length is rejected before any decoding. Otherwise
/// every entry decodes (nothing in a public descriptor can fail) and the
/// result is the last-wins interpretation of the decoded entries, iterated
/// in ascending sector-id order.
pub fn to_public_replica_info_map(replicas: &ForeignArray<RawPublicReplica>) -> (r: Result<
    SectorMap<PublicReplicaInfo>,
    MarshalError,
>)
    ensures
        match replicas {
            ForeignArray::Null { declared_len } => {
                if declared_len == 0 {
                    r matches Ok(m) && m.wf() && m@ == Map::<u64, PublicReplicaInfo>::empty()
                } else {
                    r matches Err(e) && e == MarshalError::NullPointer
                }
            },
            ForeignArray::Data(v) => {
                r matches Ok(m) && m.wf() && m@ == kv_map(public_entries(v@))
            },
        },
{
    match replicas {
        ForeignArray::Null { declared_len } => {
            if *declared_len == 0 {
                Ok(SectorMap::new())
            } else {
                Err(MarshalError::NullPointer)
            }
        },
        ForeignArray::Data(v) => {
            let n = v.len();
            let mut m: SectorMap<PublicReplicaInfo> = SectorMap::new();
            let ghost mut d: Seq<(u64, PublicReplicaInfo)> = Seq::empty();
            let mut i: usize = 0;
            while i < n
                invariant
                    i <= n,
                    n == v@.len(),
                    m.wf(),
                    d =~= public_entries(v@.take(i as int)),
                    m@ == kv_map(d),
                decreases n - i,
            {
                let info = decode_public_replica(&v[i]);
                let sector_id = v[i].sector_id;
                m.insert(sector_id, info);
                proof {
                    let pair = (sector_id, info);
                    assert(d.push(pair).drop_last() =~= d);
                    assert(kv_map(d.push(pair)) == kv_map(d).insert(sector_id, info));
                    d = d.push(pair);
                    assert(d =~= public_entries(v@.take(i + 1)));
                }
                i = i + 1;
            }
            proof {
                assert(v@.take(n as int) =~= v@);
            }
            Ok(m)
        },
    }
}

/// Build the ordered private replica map from a foreign descriptor array.
///
/// A null array of declared length zero gives the empty map; a null array
/// of nonzero declared length is rejected before any decoding. Otherwise
/// the call succeeds exactly when every descriptor decodes; one bad entry
/// (invalid UTF-8 anywhere, an empty required path) fails the whole batch
/// with the error of the first entry that fails, and no map is returned.
/// On success the map holds one entry per distinct sector id, iterated in
/// ascending id order, each id mapped to the decoding of its lexically
/// last descriptor.
pub fn to_private_replica_info_map(replicas: &ForeignArray<RawPrivateReplica>) -> (r: Result<
    SectorMap<PrivateReplicaInfo>,
    MarshalError,
>)
    ensures
        match replicas {
            ForeignArray::Null { declared_len } => {
                if declared_len == 0 {
                    r matches Ok(m) && m.wf() && m@ == Map::<u64, PrivateReplicaInfo>::empty()
                } else {
                    r matches Err(e) && e == MarshalError::NullPointer
                }
            },
            ForeignArray::Data(v) => {
                &&& (r is Ok <==> (forall|i: int|
                    0 <= i < v@.len() ==> private_replica_ok(#[trigger] v@[i])))
                &&& r matches Ok(m) ==> {
                    &&& m.wf()
                    &&& m@.dom() == private_ids(v@).to_set()
                    &&& forall|i: int|
                        #[trigger] last_occurrence_private(v@, i) ==> m@.contains_key(
                            v@[i].sector_id,
                        ) && private_decoded_matches(m@[v@[i].sector_id], v@[i])
                }
                &&& r matches Err(e) ==> (exists|i: int|
                    {
                        &&& 0 <= i < v@.len()
                        &&& !private_replica_ok(#[trigger] v@[i])
                        &&& e == spec_private_decode_err(v@[i])
                        &&& forall|j: int| 0 <= j < i ==> private_replica_ok(v@[j])
                    })
            },
        },
{
    match replicas {
        ForeignArray::Null { declared_len } => {
            if *declared_len == 0 {
                Ok(SectorMap::new())
            } else {
                Err(MarshalError::NullPointer)
            }
        },
        ForeignArray::Data(v) => {
            let n = v.len();
            let mut m: SectorMap<PrivateReplicaInfo> = SectorMap::new();
            let ghost mut d: Seq<(u64, PrivateReplicaInfo)> = Seq::empty();
            let mut i: usize = 0;
            while i < n
                invariant
                    replicas is Data,
                    replicas->Data_0@ == v@,
                    i <= n,
                    n == v@.len(),
                    m.wf(),
                    d.len() == i,
                    forall|t: int| 0 <= t < i ==> private_replica_ok(#[trigger] v@[t]),
                    forall|t: int|
                        0 <= t < i ==> (#[trigger] d[t]).0 == v@[t].sector_id
                            && private_decoded_matches(d[t].1, v@[t]),
                    m@ == kv_map(d),
                decreases n - i,
            {
                let info = match decode_private_replica(&v[i]) {
                    Ok(info) => info,
                    Err(e) => {
                        proof {
                            assert(!private_replica_ok(v@[i as int]));
                            assert(e == spec_private_decode_err(v@[i as int]));
                            assert(exists|t: int|
                                {
                                    &&& 0 <= t < v@.len()
                                    &&& !private_replica_ok(#[trigger] v@[t])
                                    &&& e == spec_private_decode_err(v@[t])
                                    &&& forall|j: int| 0 <= j < t ==> private_replica_ok(v@[j])
                                });
                        }
                        return Err(e);
                    },
                };
                let sector_id = v[i].sector_id;
                m.insert(sector_id, info);
                proof {
                    let pair = (sector_id, info);
                    assert(d.push(pair).drop_last() =~= d);
                    assert(kv_map(d.push(pair)) == kv_map(d).insert(sector_id, info));
                    d = d.push(pair);
                }
                i = i + 1;
            }
            proof {
                crate::sector_map::lemma_kv_map_dom(d);
                assert(keys_of(d) =~= private_ids(v@));
                assert forall|t: int| #[trigger] last_occurrence_private(v@, t) implies m@
                    .contains_key(v@[t].sector_id) && private_decoded_matches(
                    m@[v@[t].sector_id],
                    v@[t],
                ) by {
                    assert forall|j: int| t < j < d.len() implies d[j].0 != d[t].0 by {
                        assert(v@[j].sector_id != v@[t].sector_id);
                    }
                    crate::sector_map::lemma_last_entry_wins(d, t);
                    assert(d[t].0 == v@[t].sector_id);
                }
            }
            Ok(m)
        },
    }
}

/// Fold already-decoded entries into the ordered map: the last-wins
/// interpretation of the pairs, in ascending key order. Entries may be
/// decoded independently, in any concurrent fashion, and folded here
/// sequentially in their original array order.
pub fn collect_into_map<V>(pairs: Vec<(u64, V)>) -> (m: SectorMap<V>)
    ensures
        m.wf(),
        m@ == kv_map(pairs@),
{
    let ghost orig = pairs@;
    let mut pairs = pairs;
    let mut m: SectorMap<V> = SectorMap::new();
    let ghost mut d: Seq<(u64, V)> = Seq::empty();
    let mut k: usize = 0;
    let n = pairs.len();
    proof {
        assert(orig.skip(0) =~= orig);
    }
    while k < n
        invariant
            k <= n,
            n == orig.len(),
            pairs@ =~= orig.skip(k as int),
            m.wf(),
            d =~= orig.take(k as int),
            m@ == kv_map(d),
        decreases n - k,
    {
        let p = pairs.remove(0);
        m.insert(p.0, p.1);
        proof {
            assert(p == orig[k as int]);
            assert(d.push(p).drop_last() =~= d);
            assert(kv_map(d.push(p)) == kv_map(d).insert(p.0, p.1));
            d = d.push(p);
            assert(d =~= orig.take(k + 1));
            assert(pairs@ =~= orig.skip(k + 1));
        }
        k = k + 1;
    }
    proof {
        assert(orig.take(n as int) =~= orig);
    }
    m
}

} // verus!
