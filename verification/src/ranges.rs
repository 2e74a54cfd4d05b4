//! Encoding and decoding of byte-range lists.
//!
//! A remote-storage descriptor addresses a sector's data as an ordered list
//! of byte ranges. Across the foreign boundary the list travels as a flat
//! buffer of fixed-size records: for each range, the offset and then the
//! size, each as eight little-endian bytes. Decoding an encoded list gives
//! back the identical sequence of ranges: no reordering, no deduplication.

use crate::error::MarshalError;
use vstd::bytes::lemma_auto_spec_u64_to_from_le_bytes;
use vstd::bytes::spec_u64_from_le_bytes;
use vstd::bytes::spec_u64_to_le_bytes;
use vstd::bytes::u64_from_le_bytes;
use vstd::bytes::u64_to_le_bytes;
use vstd::prelude::*;
use vstd::slice::slice_subrange;

verus! {

/// A contiguous run of bytes within a sector's remote copy: `size` bytes
/// starting at `offset`.
#[derive(Clone, Copy, Debug, PartialEq, Eq, Structural)]
pub struct ByteRange {
    pub offset: u64,
    pub size: u64,
}

/// The serialized form of one range: offset then size, little-endian.
pub open spec fn spec_encode_range(r: ByteRange) -> Seq<u8> {
    spec_u64_to_le_bytes(r.offset) + spec_u64_to_le_bytes(r.size)
}

/// The serialized form of a range list: the records in list order.
pub open spec fn spec_encode_ranges(rs: Seq<ByteRange>) -> Seq<u8>
    decreases rs.len(),
{
    if rs.len() == 0 {
        Seq::empty()
    } else {
        spec_encode_range(rs[0]) + spec_encode_ranges(rs.skip(1))
    }
}

/// The range list read from a buffer of whole sixteen-byte records.
pub open spec fn spec_decode_ranges(b: Seq<u8>) -> Seq<ByteRange>
    recommends
        b.len() % 16 == 0,
    decreases b.len(),
{
    if b.len() < 16 {
        Seq::empty()
    } else {
        seq![
            ByteRange {
                offset: spec_u64_from_le_bytes(b.subrange(0, 8)),
                size: spec_u64_from_le_bytes(b.subrange(8, 16)),
            },
        ] + spec_decode_ranges(b.skip(16))
    }
}

/// An encoded list is sixteen bytes per range.
pub proof fn lemma_encode_ranges_len(rs: Seq<ByteRange>)
    ensures
        spec_encode_ranges(rs).len() == 16 * rs.len(),
    decreases rs.len(),
{
    lemma_auto_spec_u64_to_from_le_bytes();
    if rs.len() > 0 {
        lemma_encode_ranges_len(rs.skip(1));
    }
}

/// Round trip: decoding an encoded range list yields the identical ordered
/// sequence of ranges, and the encoding always consists of whole records.
pub proof fn lemma_ranges_round_trip(rs: Seq<ByteRange>)
    ensures
        spec_encode_ranges(rs).len() % 16 == 0,
        spec_decode_ranges(spec_encode_ranges(rs)) == rs,
    decreases rs.len(),
{
    lemma_auto_spec_u64_to_from_le_bytes();
    lemma_encode_ranges_len(rs);
    assert(spec_encode_ranges(rs).len() % 16 == 0) by (nonlinear_arith)
        requires
            spec_encode_ranges(rs).len() == 16 * rs.len(),
    ;
    if rs.len() == 0 {
    } else {
        let e = spec_encode_ranges(rs);
        let r0 = rs[0];
        lemma_encode_ranges_len(rs.skip(1));
        assert(e.len() >= 16);
        assert(e.subrange(0, 8) =~= spec_u64_to_le_bytes(r0.offset));
        assert(e.subrange(8, 16) =~= spec_u64_to_le_bytes(r0.size));
        assert(e.skip(16) =~= spec_encode_ranges(rs.skip(1)));
        lemma_ranges_round_trip(rs.skip(1));
        assert(spec_decode_ranges(e) =~= rs);
    }
}

/// Serialize a range list for the foreign boundary.
pub fn encode_ranges(rs: &Vec<ByteRange>) -> (out: Vec<u8>)
    ensures
        out@ == spec_encode_ranges(rs@),
{
    let n = rs.len();
    let mut out: Vec<u8> = Vec::new();
    proof {
        assert(rs@.skip(0) =~= rs@);
    }
    let mut i: usize = 0;
    while i < n
        invariant
            i <= n,
            n == rs@.len(),
            spec_encode_ranges(rs@) == out@ + spec_encode_ranges(rs@.skip(i as int)),
        decreases n - i,
    {
        let ghost prev = out@;
        let r = rs[i];
        let mut off = u64_to_le_bytes(r.offset);
        out.append(&mut off);
        let mut sz = u64_to_le_bytes(r.size);
        out.append(&mut sz);
        proof {
            assert(rs@.skip(i as int)[0] == r);
            assert(rs@.skip(i as int).skip(1) =~= rs@.skip(i + 1));
            assert(out@ =~= prev + spec_encode_range(r));
            assert(prev + (spec_encode_range(r) + spec_encode_ranges(rs@.skip(i + 1))) =~= (prev
                + spec_encode_range(r)) + spec_encode_ranges(rs@.skip(i + 1)));
        }
        i = i + 1;
    }
    proof {
        assert(spec_encode_ranges(rs@.skip(n as int)) =~= Seq::<u8>::empty());
        assert(out@ + Seq::<u8>::empty() =~= out@);
    }
    out
}

/// Read a range list back from a serialized buffer.
///
/// Succeeds exactly when the buffer consists of whole sixteen-byte records;
/// a ragged length is a malformed list.
pub fn decode_ranges(b: &Vec<u8>) -> (r: Result<Vec<ByteRange>, MarshalError>)
    ensures
        match r {
            Ok(rs) => b@.len() % 16 == 0 && rs@ == spec_decode_ranges(b@),
            Err(e) => b@.len() % 16 != 0 && e == MarshalError::MalformedRangeList,
        },
{
    let n = b.len();
    if n % 16 != 0 {
        return Err(MarshalError::MalformedRangeList);
    }
    let mut out: Vec<ByteRange> = Vec::new();
    proof {
        assert(b@.skip(0) =~= b@);
    }
    let mut i: usize = 0;
    while i < n
        invariant
            i <= n,
            i % 16 == 0,
            n % 16 == 0,
            n == b@.len(),
            spec_decode_ranges(b@) == out@ + spec_decode_ranges(b@.skip(i as int)),
        decreases n - i,
    {
        proof {
            assert(n - i >= 16);
        }
        let ghost prev = out@;
        let ghost tail = b@.skip(i as int);
        let offset = u64_from_le_bytes(slice_subrange(b.as_slice(), i, i + 8));
        let size = u64_from_le_bytes(slice_subrange(b.as_slice(), i + 8, i + 16));
        let rec = ByteRange { offset, size };
        out.push(rec);
        proof {
            assert(tail.subrange(0, 8) =~= b@.subrange(i as int, i + 8));
            assert(tail.subrange(8, 16) =~= b@.subrange(i + 8, i + 16));
            assert(tail.skip(16) =~= b@.skip(i + 16));
            assert(seq![rec] =~= spec_decode_ranges(tail).take(1));
            assert(spec_decode_ranges(tail) == seq![rec] + spec_decode_ranges(b@.skip(i + 16)));
            assert(out@ =~= prev + seq![rec]);
            assert(prev + (seq![rec] + spec_decode_ranges(b@.skip(i + 16))) =~= (prev + seq![rec])
                + spec_decode_ranges(b@.skip(i + 16)));
        }
        i = i + 16;
    }
    proof {
        assert(b@.skip(n as int).len() == 0);
        assert(out@ + spec_decode_ranges(b@.skip(n as int)) =~= out@);
    }
    Ok(out)
}

} // verus!
