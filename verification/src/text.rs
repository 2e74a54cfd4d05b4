//! UTF-8 validation for the string fields of foreign descriptors.
//!
//! Foreign buffers carry paths and credential strings as raw bytes; the
//! marshaling layer accepts them only when they are valid UTF-8. The
//! validator here is proved equivalent to `vstd::utf8::valid_utf8`, the
//! mathematical definition of a well-formed UTF-8 encoding.

use vstd::prelude::*;
use vstd::utf8::valid_utf8;
use vstd::utf8::valid_first_scalar;
use vstd::utf8::length_of_first_scalar;
use vstd::utf8::partial_valid_utf8;
use vstd::utf8::partial_valid_utf8_extend;
use vstd::utf8::partial_valid_partial_invalid_utf8;

verus! {

/// True when `b` has the continuation-byte form `10xxxxxx`.
fn is_continuation(b: u8) -> (r: bool)
    ensures
        r == vstd::utf8::is_continuation_byte(b),
{
    0x80 <= b && b <= 0xbf
}

/// Reports whether `bytes` is a valid UTF-8 encoding.
///
/// The result agrees exactly with `vstd::utf8::valid_utf8`: well-formed
/// leading and continuation bytes, no overlong encodings, no surrogate
/// codepoints.
pub fn is_valid_utf8(bytes: &Vec<u8>) -> (ok: bool)
    ensures
        ok == valid_utf8(bytes@),
{
    let n = bytes.len();
    let mut i: usize = 0;
    proof {
        assert(bytes@.subrange(0, 0).len() == 0);
    }
    while i < n
        invariant
            i <= n,
            n == bytes@.len(),
            partial_valid_utf8(bytes@, i as int),
        decreases n - i,
    {
        let ghost tail = bytes@.subrange(i as int, n as int);
        let b0 = bytes[i];
        let width: usize;
        if b0 < 0x80 {
            proof {
                assert(vstd::utf8::codepoint_width_1(b0) < 0xd800) by (bit_vector);
                assert(valid_first_scalar(tail));
                assert(length_of_first_scalar(tail) == 1);
            }
            width = 1;
        } else if b0 < 0xc2 {
            // A bare continuation byte, or a lead byte 0xc0/0xc1 whose
            // two-byte sequence could only be an overlong encoding.
            proof {
                if 0xc0 <= b0 && tail.len() >= 2 && vstd::utf8::is_continuation_byte(tail[1]) {
                    let b1 = tail[1];
                    assert((0xc0 <= b0 && b0 <= 0xc1 && b1 <= 0xbf) ==>
                        vstd::utf8::codepoint_width_2(b0, b1) < 0x80) by (bit_vector);
                }
                assert(!valid_first_scalar(tail));
            }
            return report_invalid(bytes, i);
        } else if b0 < 0xe0 {
            if n - i < 2 || !is_continuation(bytes[i + 1]) {
                proof {
                    assert(!valid_first_scalar(tail));
                }
                return report_invalid(bytes, i);
            }
            let ghost b1 = tail[1];
            proof {
                assert((0xc2 <= b0 && b0 < 0xe0 && 0x80 <= b1 && b1 <= 0xbf) ==> {
                    &&& vstd::utf8::codepoint_width_2(b0, b1) >= 0x80
                    &&& vstd::utf8::codepoint_width_2(b0, b1) < 0xd800
                }) by (bit_vector);
                assert(valid_first_scalar(tail));
                assert(length_of_first_scalar(tail) == 2);
            }
            width = 2;
        } else if b0 < 0xf0 {
            if n - i < 3 || !is_continuation(bytes[i + 1]) || !is_continuation(bytes[i + 2]) {
                proof {
                    assert(!valid_first_scalar(tail));
                }
                return report_invalid(bytes, i);
            }
            let b1 = bytes[i + 1];
            if b0 == 0xe0 && b1 < 0xa0 {
                // Overlong three-byte encoding of a codepoint below 0x800.
                proof {
                    let b2 = tail[2];
                    assert((b0 == 0xe0 && b1 < 0xa0 && b1 >= 0x80 && b2 <= 0xbf) ==>
                        vstd::utf8::codepoint_width_3(b0, b1, b2) < 0x800) by (bit_vector);
                    assert(!valid_first_scalar(tail));
                }
                return report_invalid(bytes, i);
            }
            if b0 == 0xed && b1 >= 0xa0 {
                // A codepoint in the surrogate range 0xd800..=0xdfff.
                proof {
                    let b2 = tail[2];
                    assert((b0 == 0xed && 0xa0 <= b1 && b1 <= 0xbf && 0x80 <= b2 && b2 <= 0xbf)
                        ==> {
                        &&& 0xd800 <= vstd::utf8::codepoint_width_3(b0, b1, b2)
                        &&& vstd::utf8::codepoint_width_3(b0, b1, b2) <= 0xdfff
                    }) by (bit_vector);
                    assert(!valid_first_scalar(tail));
                }
                return report_invalid(bytes, i);
            }
            proof {
                let b2 = tail[2];
                assert((0xe0 <= b0 && b0 < 0xf0 && 0x80 <= b1 && b1 <= 0xbf && 0x80 <= b2
                    && b2 <= 0xbf && !(b0 == 0xe0 && b1 < 0xa0) && !(b0 == 0xed && b1 >= 0xa0))
                    ==> {
                    &&& vstd::utf8::codepoint_width_3(b0, b1, b2) >= 0x800
                    &&& !(0xd800 <= vstd::utf8::codepoint_width_3(b0, b1, b2) <= 0xdfff)
                }) by (bit_vector);
                assert(valid_first_scalar(tail));
                assert(length_of_first_scalar(tail) == 3);
            }
            width = 3;
        } else if b0 < 0xf8 {
            if n - i < 4 || !is_continuation(bytes[i + 1]) || !is_continuation(bytes[i + 2])
                || !is_continuation(bytes[i + 3]) {
                proof {
                    assert(!valid_first_scalar(tail));
                }
                return report_invalid(bytes, i);
            }
            let b1 = bytes[i + 1];
            if (b0 == 0xf0 && b1 < 0x90) || b0 > 0xf4 || (b0 == 0xf4 && b1 > 0x8f) {
                // Outside the scalar range 0x10000..=0x10ffff: either an
                // overlong four-byte encoding or a value past the last plane.
                proof {
                    let b2 = tail[2];
                    let b3 = tail[3];
                    assert((0xf0 <= b0 && b0 < 0xf8 && 0x80 <= b1 && b1 <= 0xbf && 0x80 <= b2
                        && b2 <= 0xbf && 0x80 <= b3 && b3 <= 0xbf
                        && ((b0 == 0xf0 && b1 < 0x90) || b0 > 0xf4 || (b0 == 0xf4 && b1 > 0x8f)))
                        ==> !(0x10000 <= vstd::utf8::codepoint_width_4(b0, b1, b2, b3)
                            <= 0x10ffff)) by (bit_vector);
                    assert(!valid_first_scalar(tail));
                }
                return report_invalid(bytes, i);
            }
            proof {
                let b2 = tail[2];
                let b3 = tail[3];
                assert((0xf0 <= b0 && b0 < 0xf8 && 0x80 <= b1 && b1 <= 0xbf && 0x80 <= b2
                    && b2 <= 0xbf && 0x80 <= b3 && b3 <= 0xbf && !(b0 == 0xf0 && b1 < 0x90)
                    && !(b0 > 0xf4) && !(b0 == 0xf4 && b1 > 0x8f)) ==> {
                    &&& 0x10000 <= vstd::utf8::codepoint_width_4(b0, b1, b2, b3)
                    &&& vstd::utf8::codepoint_width_4(b0, b1, b2, b3) <= 0x10ffff
                }) by (bit_vector);
                assert(valid_first_scalar(tail));
                assert(length_of_first_scalar(tail) == 4);
            }
            width = 4;
        } else {
            // 0xf8..=0xff can lead no well-formed encoding.
            proof {
                assert(!valid_first_scalar(tail));
            }
            return report_invalid(bytes, i);
        }
        proof {
            partial_valid_utf8_extend(bytes@, i as int);
            assert(length_of_first_scalar(tail) == width);
        }
        i = i + width;
    }
    proof {
        assert(bytes@.subrange(0, n as int) =~= bytes@);
    }
    true
}

/// Concludes invalidity of the whole buffer from an ill-formed scalar at
/// position `i` after a valid prefix, and hands back the verdict.
fn report_invalid(bytes: &Vec<u8>, i: usize) -> (ok: bool)
    requires
        i < bytes@.len(),
        partial_valid_utf8(bytes@, i as int),
        !valid_first_scalar(bytes@.subrange(i as int, bytes@.len() as int)),
    ensures
        ok == valid_utf8(bytes@),
{
    proof {
        let tail = bytes@.subrange(i as int, bytes@.len() as int);
        assert(tail.len() > 0);
        assert(!valid_utf8(tail));
        partial_valid_partial_invalid_utf8(bytes@, i as int);
    }
    false
}

} // verus!
