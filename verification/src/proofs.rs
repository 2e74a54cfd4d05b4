//! The proof array decoder: foreign arrays of proof buffers become owned
//! byte-vector collections tagged with their proof-type metadata.
//!
//! Proof payloads are opaque: this layer never inspects their contents,
//! only copies each buffer so the foreign owner can release it as soon as
//! the call returns. A null buffer of declared length zero is a valid
//! empty payload; a null buffer of nonzero declared length is a
//! precondition violation that fails the whole call.

use crate::error::MarshalError;
use crate::marshal::ForeignArray;
use crate::replica::copy_vec;
use crate::replica::RegisteredPoStProof;
use vstd::prelude::*;

verus! {

/// A serialized proof-of-spacetime payload with its proof-type tag.
#[derive(Clone, Debug, PartialEq, Eq)]
pub struct PoStProof {
    pub registered_proof: RegisteredPoStProof,
    pub proof: Vec<u8>,
}

/// A serialized proof covering one partition of a challenge set.
#[derive(Clone, Debug, PartialEq, Eq)]
pub struct PartitionProof {
    pub proof: Vec<u8>,
}

/// A proof entry as it arrives: the tag, and the payload buffer at the
/// point where its raw pointer and length have become a checked view.
pub struct RawPoStProof {
    pub registered_proof: RegisteredPoStProof,
    pub proof: ForeignArray<u8>,
}

/// A checked buffer view is acceptable when it is not a null pointer with
/// a nonzero declared length.
pub open spec fn buf_ok(b: ForeignArray<u8>) -> bool {
    match b {
        ForeignArray::Null { declared_len } => declared_len == 0,
        ForeignArray::Data(_) => true,
    }
}

/// The bytes a checked buffer view holds; a null empty buffer holds none.
pub open spec fn buf_bytes(b: ForeignArray<u8>) -> Seq<u8> {
    match b {
        ForeignArray::Null { declared_len } => Seq::empty(),
        ForeignArray::Data(v) => v@,
    }
}

/// Take an owned copy of one payload buffer.
fn copy_buf(b: &ForeignArray<u8>) -> (r: Result<Vec<u8>, MarshalError>)
    ensures
        r is Ok <==> buf_ok(*b),
        r matches Ok(v) ==> v@ == buf_bytes(*b),
        r matches Err(e) ==> e == MarshalError::NullPointer,
{
    match b {
        ForeignArray::Null { declared_len } => {
            if *declared_len == 0 {
                Ok(Vec::new())
            } else {
                Err(MarshalError::NullPointer)
            }
        },
        ForeignArray::Data(v) => Ok(copy_vec(v)),
    }
}

/// Decode a foreign array of tagged proof buffers.
///
/// A null array of declared length zero gives the empty collection; a
/// null array of nonzero declared length is rejected. Otherwise the call
/// succeeds exactly when no entry's buffer is a null pointer with nonzero
/// length, and returns one owned pair per entry, in array order, each tag
/// and payload carried over unchanged.
pub fn decode_post_proofs(entries: &ForeignArray<RawPoStProof>) -> (r: Result<
    Vec<PoStProof>,
    MarshalError,
>)
    ensures
        match entries {
            ForeignArray::Null { declared_len } => {
                if declared_len == 0 {
                    r matches Ok(ps) && ps@.len() == 0
                } else {
                    r matches Err(e) && e == MarshalError::NullPointer
                }
            },
            ForeignArray::Data(v) => {
                &&& (r is Ok <==> (forall|i: int|
                    0 <= i < v@.len() ==> buf_ok((#[trigger] v@[i]).proof)))
                &&& r matches Ok(ps) ==> {
                    &&& ps@.len() == v@.len()
                    &&& forall|i: int|
                        0 <= i < v@.len() ==> (#[trigger] ps@[i]).registered_proof
                            == v@[i].registered_proof && ps@[i].proof@ == buf_bytes(v@[i].proof)
                }
                &&& r matches Err(e) ==> e == MarshalError::NullPointer
            },
        },
{
    match entries {
        ForeignArray::Null { declared_len } => {
            if *declared_len == 0 {
                Ok(Vec::new())
            } else {
                Err(MarshalError::NullPointer)
            }
        },
        ForeignArray::Data(v) => {
            let n = v.len();
            let mut out: Vec<PoStProof> = Vec::new();
            let mut i: usize = 0;
            while i < n
                invariant
                    entries is Data,
                    entries->Data_0@ == v@,
                    i <= n,
                    n == v@.len(),
                    out@.len() == i,
                    forall|t: int| 0 <= t < i ==> buf_ok((#[trigger] v@[t]).proof),
                    forall|t: int|
                        0 <= t < i ==> (#[trigger] out@[t]).registered_proof
                            == v@[t].registered_proof && out@[t].proof@ == buf_bytes(v@[t].proof),
                decreases n - i,
            {
                let payload = match copy_buf(&v[i].proof) {
                    Ok(p) => p,
                    Err(e) => {
                        return Err(e);
                    },
                };
                out.push(PoStProof { registered_proof: v[i].registered_proof, proof: payload });
                i = i + 1;
            }
            Ok(out)
        },
    }
}

/// Decode a foreign array of untagged partition-proof buffers, under the
/// same null-pointer rules as the tagged decoder.
pub fn decode_partition_proofs(entries: &ForeignArray<ForeignArray<u8>>) -> (r: Result<
    Vec<PartitionProof>,
    MarshalError,
>)
    ensures
        match entries {
            ForeignArray::Null { declared_len } => {
                if declared_len == 0 {
                    r matches Ok(ps) && ps@.len() == 0
                } else {
                    r matches Err(e) && e == MarshalError::NullPointer
                }
            },
            ForeignArray::Data(v) => {
                &&& (r is Ok <==> (forall|i: int| 0 <= i < v@.len() ==> buf_ok(#[trigger] v@[i])))
                &&& r matches Ok(ps) ==> {
                    &&& ps@.len() == v@.len()
                    &&& forall|i: int|
                        0 <= i < v@.len() ==> (#[trigger] ps@[i]).proof@ == buf_bytes(v@[i])
                }
                &&& r matches Err(e) ==> e == MarshalError::NullPointer
            },
        },
{
    match entries {
        ForeignArray::Null { declared_len } => {
            if *declared_len == 0 {
                Ok(Vec::new())
            } else {
                Err(MarshalError::NullPointer)
            }
        },
        ForeignArray::Data(v) => {
            let n = v.len();
            let mut out: Vec<PartitionProof> = Vec::new();
            let mut i: usize = 0;
            while i < n
                invariant
                    entries is Data,
                    entries->Data_0@ == v@,
                    i <= n,
                    n == v@.len(),
                    out@.len() == i,
                    forall|t: int| 0 <= t < i ==> buf_ok(#[trigger] v@[t]),
                    forall|t: int|
                        0 <= t < i ==> (#[trigger] out@[t]).proof@ == buf_bytes(v@[t]),
                decreases n - i,
            {
                let payload = match copy_buf(&v[i]) {
                    Ok(p) => p,
                    Err(e) => {
                        return Err(e);
                    },
                };
                out.push(PartitionProof { proof: payload });
                i = i + 1;
            }
            Ok(out)
        },
    }
}

} // verus!
