//! Laws of the scanners over ASCII streams.
//!
//! A source producing whitespace-separated ASCII tokens is the reader's
//! bread and butter. The lemmas here pin the token scan down on such
//! streams: a token scan extracts exactly the next maximal run of
//! non-whitespace bytes, consumes its terminating whitespace, and on a
//! stream of nothing but whitespace finds nothing, consumes everything and
//! trips the error latch. Together with the contracts of
//! [`crate::reader::RInStream::read`] and the integer parse relations, they
//! say that repeated typed reads on such a stream yield exactly its
//! integers, in order, then no value, with the reader invalid thereafter.

use vstd::prelude::*;
use crate::decode::decode_step;
use crate::decode::lemma_decode_ascii;
use crate::scan::lemma_ws_used_bounds;
use crate::scan::space_char;
use crate::scan::token_end;
use crate::scan::token_text;
use crate::scan::token_used;
use crate::scan::word_end;
use crate::scan::word_text;
use crate::scan::word_used;
use crate::scan::ws_used;
use crate::token::all_digits;
use crate::token::digit_char;
use crate::token::digits_value;
use crate::token::int_token_value;
use crate::token::uint_token_value;

verus! {

/// An ASCII byte whose character is whitespace.
pub open spec fn ascii_space_byte(b: u8) -> bool {
    b == 9 || b == 10 || b == 11 || b == 12 || b == 13 || b == 32
}

/// An ASCII byte whose character is not whitespace.
pub open spec fn ascii_word_byte(b: u8) -> bool {
    b < 0x80 && !ascii_space_byte(b)
}

/// The characters of an ASCII byte sequence, byte for byte.
pub open spec fn ascii_text(bs: Seq<u8>) -> Seq<char> {
    Seq::new(bs.len(), |i: int| (bs[i] as u32) as char)
}

/// An ASCII byte decodes to the character of its own value, and its
/// whitespace classification carries over.
proof fn lemma_ascii_byte_char(b: u8)
    requires
        b < 0x80,
    ensures
        ((b as u32) as char) as int == b as int,
        space_char((b as u32) as char) == ascii_space_byte(b),
        digit_char((b as u32) as char) == (48 <= b <= 57),
{
}

/// On a stream of nothing but ASCII whitespace, a token scan finds nothing,
/// consumes everything, and runs into the end of the stream.
pub proof fn lemma_ws_exhausts(p: Seq<u8>)
    requires
        forall|i: int| 0 <= i < p.len() ==> ascii_space_byte(#[trigger] p[i]),
    ensures
        token_text(p).len() == 0,
        token_used(p) == p.len(),
        token_end(p),
    decreases p.len(),
{
    if p.len() == 0 {
        assert(p.skip(0) =~= p);
    } else {
        lemma_decode_ascii(p);
        lemma_ascii_byte_char(p[0]);
        let rest = p.skip(1);
        assert(forall|i: int| 0 <= i < rest.len() ==> ascii_space_byte(#[trigger] rest[i]));
        lemma_ws_exhausts(rest);
        lemma_ws_used_bounds(rest);
        assert(p.skip(1 + ws_used(rest)) =~= rest.skip(ws_used(rest)));
    }
}

/// A stream that opens with `t` non-whitespace ASCII bytes followed by
/// whitespace or the end: the accumulation takes exactly their characters
/// and consumes the terminator, when there is one.
proof fn lemma_word_run(p: Seq<u8>, t: int)
    requires
        0 <= t <= p.len(),
        forall|i: int| 0 <= i < t ==> ascii_word_byte(#[trigger] p[i]),
        t < p.len() ==> ascii_space_byte(p[t]),
    ensures
        word_text(p) == ascii_text(p.take(t)),
        word_used(p) == if t < p.len() {
            t + 1
        } else {
            t
        },
        word_end(p) == (t == p.len()),
    decreases t,
{
    if t == 0 {
        if p.len() > 0 {
            lemma_decode_ascii(p);
            lemma_ascii_byte_char(p[0]);
        }
        assert(word_text(p) =~= ascii_text(p.take(0)));
    } else {
        lemma_decode_ascii(p);
        lemma_ascii_byte_char(p[0]);
        let rest = p.skip(1);
        lemma_word_run(rest, t - 1);
        assert(rest.take(t - 1) =~= p.take(t).skip(1));
        assert(word_text(p) =~= ascii_text(p.take(t)));
    }
}

/// A token scan on an ASCII stream that opens with `w` whitespace bytes,
/// then `t` non-whitespace bytes, then whitespace or the end: it yields
/// exactly the characters of the run, consumes through the terminator, and
/// runs into the end exactly when the run ends the stream.
pub proof fn lemma_token_run(p: Seq<u8>, w: int, t: int)
    requires
        0 <= w,
        0 < t,
        w + t <= p.len(),
        forall|i: int| 0 <= i < w ==> ascii_space_byte(#[trigger] p[i]),
        forall|i: int| w <= i < w + t ==> ascii_word_byte(#[trigger] p[i]),
        w + t < p.len() ==> ascii_space_byte(p[w + t]),
    ensures
        token_text(p) == ascii_text(p.subrange(w, w + t)),
        token_text(p).len() == t,
        token_used(p) == if w + t < p.len() {
            w + t + 1
        } else {
            w + t
        },
        token_end(p) == (w + t == p.len()),
    decreases w,
{
    if w == 0 {
        lemma_decode_ascii(p);
        lemma_ascii_byte_char(p[0]);
        assert(ws_used(p) == 0);
        assert(p.skip(0) =~= p);
        lemma_word_run(p, t);
        assert(p.take(t) =~= p.subrange(0, t));
    } else {
        lemma_decode_ascii(p);
        lemma_ascii_byte_char(p[0]);
        let rest = p.skip(1);
        lemma_token_run(rest, w - 1, t);
        lemma_ws_used_bounds(rest);
        assert(p.skip(1 + ws_used(rest)) =~= rest.skip(ws_used(rest)));
        assert(rest.subrange(w - 1, w - 1 + t) =~= p.subrange(w, w + t));
    }
}

/// One token scan on an ASCII stream that opens with whitespace, then a run
/// of digits, then whitespace or the end: the token is that digit run, its
/// parse as an integer yields the run's value, the scan consumes through the
/// terminator, and the stream runs out exactly when the run ends it. With
/// the contract of [`crate::reader::RInStream::read`] and
/// [`lemma_ws_exhausts`], repeated typed reads on a whitespace-separated
/// ASCII integer stream yield exactly its integers, in order, then nothing,
/// with the reader invalid thereafter.
pub proof fn lemma_int_token_run(p: Seq<u8>, w: int, t: int)
    requires
        0 <= w,
        0 < t,
        w + t <= p.len(),
        forall|i: int| 0 <= i < w ==> ascii_space_byte(#[trigger] p[i]),
        forall|i: int| w <= i < w + t ==> 48 <= #[trigger] p[i] <= 57,
        w + t < p.len() ==> ascii_space_byte(p[w + t]),
    ensures
        token_text(p) == ascii_text(p.subrange(w, w + t)),
        int_token_value(token_text(p)) == Some(digits_value(token_text(p))),
        uint_token_value(token_text(p)) == Some(digits_value(token_text(p))),
        token_used(p) == if w + t < p.len() {
            w + t + 1
        } else {
            w + t
        },
        token_end(p) == (w + t == p.len()),
{
    assert forall|i: int| w <= i < w + t implies ascii_word_byte(#[trigger] p[i]) by {
        lemma_ascii_byte_char(p[i]);
    }
    lemma_token_run(p, w, t);
    lemma_ascii_digit_text(p.subrange(w, w + t));
    lemma_digit_run_value(token_text(p));
}

/// A non-empty digit string is a decimal token, signed or unsigned, and its
/// value is the digits' value.
pub proof fn lemma_digit_run_value(s: Seq<char>)
    requires
        s.len() >= 1,
        all_digits(s),
    ensures
        int_token_value(s) == Some(digits_value(s)),
        uint_token_value(s) == Some(digits_value(s)),
{
    assert(digit_char(s[0]));
}

/// The characters of a digit-byte run are digits.
pub proof fn lemma_ascii_digit_text(bs: Seq<u8>)
    requires
        forall|i: int| 0 <= i < bs.len() ==> 48 <= #[trigger] bs[i] <= 57,
    ensures
        all_digits(ascii_text(bs)),
{
    assert forall|i: int| 0 <= i < ascii_text(bs).len() implies digit_char(
        #[trigger] ascii_text(bs)[i],
    ) by {
        lemma_ascii_byte_char(bs[i]);
    }
}

} // verus!
