//! What one UTF-8 decoding step yields, at the specification level.
//!
//! The reader decodes one Unicode scalar value per step, consuming one to
//! four bytes. The step classifies the leading byte, masks each continuation
//! byte to its low six bits and shifts it into position, and rejects an
//! assembled value that is no scalar (a surrogate, or past the maximum). It
//! does not insist that continuation bytes carry the `10xxxxxx` tag, and it
//! does not reject overlong encodings: garbage bytes decode to garbage
//! scalars, and only a stray continuation byte in leading position, an
//! unavailable continuation byte, or an invalid assembled value make a step
//! yield nothing.

use vstd::prelude::*;
use vstd::utf8::codepoint_width_1;
use vstd::utf8::codepoint_width_2;
use vstd::utf8::codepoint_width_3;
use vstd::utf8::codepoint_width_4;
use vstd::utf8::encode_scalar;
use vstd::utf8::is_continuation_byte;
use vstd::utf8::is_leading_byte_width_1;
use vstd::utf8::is_leading_byte_width_2;
use vstd::utf8::is_leading_byte_width_3;
use vstd::utf8::is_leading_byte_width_4;
use vstd::utf8::is_scalar;

verus! {

/// How many bytes a sequence led by `b` spans: zero when `b` can lead no
/// sequence (a stray continuation byte, or a byte past `0xF7`).
pub open spec fn lead_width(b: u8) -> int {
    if is_continuation_byte(b) {
        0
    } else if is_leading_byte_width_1(b) {
        1
    } else if is_leading_byte_width_2(b) {
        2
    } else if is_leading_byte_width_3(b) {
        3
    } else if is_leading_byte_width_4(b) {
        4
    } else {
        0
    }
}

/// The value assembled from the first `lead_width(bs[0])` bytes of `bs`.
pub open spec fn raw_scalar(bs: Seq<u8>) -> u32
    recommends
        1 <= lead_width(bs[0]) <= bs.len(),
{
    if is_leading_byte_width_1(bs[0]) {
        codepoint_width_1(bs[0])
    } else if is_leading_byte_width_2(bs[0]) {
        codepoint_width_2(bs[0], bs[1])
    } else if is_leading_byte_width_3(bs[0]) {
        codepoint_width_3(bs[0], bs[1], bs[2])
    } else {
        codepoint_width_4(bs[0], bs[1], bs[2], bs[3])
    }
}

/// What one decoding step on the byte stream `bs` comes to.
pub struct DecodeStep {
    /// The scalar decoded, if the step yields one.
    pub res: Option<char>,
    /// How many bytes the step consumes from the stream.
    pub used: int,
    /// Whether the step ran out of bytes, which latches the reader's error flag.
    pub hit_end: bool,
}

/// One decoding step on the byte stream `bs`: a failed step still consumes
/// the bytes it looked at, and only running out of bytes sets `hit_end`.
pub open spec fn decode_step(bs: Seq<u8>) -> DecodeStep {
    if bs.len() == 0 {
        DecodeStep { res: None, used: 0, hit_end: true }
    } else {
        let w = lead_width(bs[0]);
        if w == 0 {
            DecodeStep { res: None, used: 1, hit_end: false }
        } else if bs.len() < w {
            DecodeStep { res: None, used: bs.len() as int, hit_end: true }
        } else {
            let v = raw_scalar(bs);
            if is_scalar(v) {
                DecodeStep { res: Some(v as char), used: w, hit_end: false }
            } else {
                DecodeStep { res: None, used: w, hit_end: false }
            }
        }
    }
}

/// Relies on `char::from_u32`: yields `Some` exactly for the values below
/// `0xD800` or between `0xE000` and `0x10FFFF`, and preserves the value.
#[verifier::external_body]
pub(crate) fn char_from_u32(v: u32) -> (r: Option<char>)
    ensures
        r == (if is_scalar(v) {
            Some(v as char)
        } else {
            None::<char>
        }),
{
    std::char::from_u32(v)
}

/// A decoding step on an ASCII byte consumes that byte alone and yields the
/// scalar of the same value.
pub proof fn lemma_decode_ascii(bs: Seq<u8>)
    requires
        bs.len() > 0,
        bs[0] < 0x80,
    ensures
        decode_step(bs) == (DecodeStep {
            res: Some(bs[0] as char),
            used: 1,
            hit_end: false,
        }),
{
    let b = bs[0];
    assert(!is_continuation_byte(b) && is_leading_byte_width_1(b));
    assert(b & 0x7F == b) by (bit_vector)
        requires
            b < 0x80,
    ;
    assert(raw_scalar(bs) == b as u32);
    assert((b as u32) as char == b as char);
}

/// Encoding any scalar value to UTF-8 bytes and feeding those bytes through
/// a decoding step yields back the identical scalar, whatever follows in the
/// stream; in particular the round trip holds for the four-byte range.
pub proof fn lemma_encode_decode(c: char, rest: Seq<u8>)
    ensures
        ({
            let enc = encode_scalar(c as u32);
            &&& 1 <= enc.len() <= 4
            &&& decode_step(enc + rest) == (DecodeStep {
                res: Some(c),
                used: enc.len() as int,
                hit_end: false,
            })
        }),
{
    broadcast use vstd::utf8::char_is_scalar;

    let v = c as u32;
    let enc = encode_scalar(v);
    let bs = enc + rest;
    if vstd::utf8::has_width_1_encoding(v) {
        let b0 = (v & 0x7F) as u8;
        assert(bs[0] == b0);
        assert(!is_continuation_byte(b0) && is_leading_byte_width_1(b0) && (b0 & 0x7F) as u32 == v)
            by (bit_vector)
            requires
                v < 0x80,
                b0 == (v & 0x7F) as u8,
        ;
    } else if vstd::utf8::has_width_2_encoding(v) {
        let b0 = (0xC0 | ((v >> 6) & 0x1F) as u8) as u8;
        let b1 = (0x80 | (v & 0x3F) as u8) as u8;
        assert(bs[0] == b0 && bs[1] == b1);
        assert(!is_continuation_byte(b0) && !is_leading_byte_width_1(b0)
            && is_leading_byte_width_2(b0) && ((((b0 & 0x1F) as u32) << 6) | ((b1
            & 0x3F) as u32)) == v) by (bit_vector)
            requires
                0x80 <= v < 0x800,
                b0 == (0xC0 | ((v >> 6) & 0x1F) as u8) as u8,
                b1 == (0x80 | (v & 0x3F) as u8) as u8,
        ;
        assert(codepoint_width_2(b0, b1) == v);
    } else if vstd::utf8::has_width_3_encoding(v) {
        let b0 = (0xE0 | ((v >> 12) & 0x0F) as u8) as u8;
        let b1 = (0x80 | ((v >> 6) & 0x3F) as u8) as u8;
        let b2 = (0x80 | (v & 0x3F) as u8) as u8;
        assert(bs[0] == b0 && bs[1] == b1 && bs[2] == b2);
        assert(!is_continuation_byte(b0) && !is_leading_byte_width_1(b0)
            && !is_leading_byte_width_2(b0) && is_leading_byte_width_3(b0) && ((((b0
            & 0x0F) as u32) << 12) | (((b1 & 0x3F) as u32) << 6) | ((b2 & 0x3F) as u32)) == v)
            by (bit_vector)
            requires
                0x800 <= v < 0x10000,
                b0 == (0xE0 | ((v >> 12) & 0x0F) as u8) as u8,
                b1 == (0x80 | ((v >> 6) & 0x3F) as u8) as u8,
                b2 == (0x80 | (v & 0x3F) as u8) as u8,
        ;
        assert(codepoint_width_3(b0, b1, b2) == v);
    } else {
        assert(vstd::utf8::has_width_4_encoding(v));
        let b0 = (0xF0 | ((v >> 18) & 0x7) as u8) as u8;
        let b1 = (0x80 | ((v >> 12) & 0x3F) as u8) as u8;
        let b2 = (0x80 | ((v >> 6) & 0x3F) as u8) as u8;
        let b3 = (0x80 | (v & 0x3F) as u8) as u8;
        assert(bs[0] == b0 && bs[1] == b1 && bs[2] == b2 && bs[3] == b3);
        assert(!is_continuation_byte(b0) && !is_leading_byte_width_1(b0)
            && !is_leading_byte_width_2(b0) && !is_leading_byte_width_3(b0)
            && is_leading_byte_width_4(b0) && ((((b0 & 0x07) as u32) << 18) | (((b1
            & 0x3F) as u32) << 12) | (((b2 & 0x3F) as u32) << 6) | ((b3 & 0x3F) as u32)) == v)
            by (bit_vector)
            requires
                0x10000 <= v <= 0x10FFFF,
                b0 == (0xF0 | ((v >> 18) & 0x7) as u8) as u8,
                b1 == (0x80 | ((v >> 12) & 0x3F) as u8) as u8,
                b2 == (0x80 | ((v >> 6) & 0x3F) as u8) as u8,
                b3 == (0x80 | (v & 0x3F) as u8) as u8,
        ;
        assert(codepoint_width_4(b0, b1, b2, b3) == v);
    }
    vstd::utf8::char_u32_cast(c, v);
}

} // verus!
