//! What the line and token scanners yield, at the specification level.
//!
//! Each function walks the byte stream one decoding step at a time, exactly
//! as the reader does, and states what a whole scan returns, how many bytes
//! it consumes, and whether it runs into the end of the stream.

use vstd::prelude::*;
use crate::decode::decode_step;

verus! {

/// The standard per-character whitespace classification: the Unicode
/// characters with the `White_Space` property.
pub open spec fn space_char(c: char) -> bool {
    ||| c == '\u{0009}'
    ||| c == '\u{000A}'
    ||| c == '\u{000B}'
    ||| c == '\u{000C}'
    ||| c == '\u{000D}'
    ||| c == '\u{0020}'
    ||| c == '\u{0085}'
    ||| c == '\u{00A0}'
    ||| c == '\u{1680}'
    ||| c == '\u{2000}'
    ||| c == '\u{2001}'
    ||| c == '\u{2002}'
    ||| c == '\u{2003}'
    ||| c == '\u{2004}'
    ||| c == '\u{2005}'
    ||| c == '\u{2006}'
    ||| c == '\u{2007}'
    ||| c == '\u{2008}'
    ||| c == '\u{2009}'
    ||| c == '\u{200A}'
    ||| c == '\u{2028}'
    ||| c == '\u{2029}'
    ||| c == '\u{202F}'
    ||| c == '\u{205F}'
    ||| c == '\u{3000}'
}

/// Decides `space_char`.
pub fn is_space(c: char) -> (r: bool)
    ensures
        r == space_char(c),
{
    match c {
        '\u{0009}' | '\u{000A}' | '\u{000B}' | '\u{000C}' | '\u{000D}' | '\u{0020}' | '\u{0085}'
        | '\u{00A0}' | '\u{1680}' | '\u{2000}' | '\u{2001}' | '\u{2002}' | '\u{2003}'
        | '\u{2004}' | '\u{2005}' | '\u{2006}' | '\u{2007}' | '\u{2008}' | '\u{2009}'
        | '\u{200A}' | '\u{2028}' | '\u{2029}' | '\u{202F}' | '\u{205F}' | '\u{3000}' => true,
        _ => false,
    }
}

/// The characters a line scan accumulates: scalars up to, and not including,
/// the first line feed, or up to the first failed decoding step.
pub open spec fn line_text(bs: Seq<u8>) -> Seq<char>
    decreases bs.len(),
{
    let st = decode_step(bs);
    match st.res {
        Some(c) => if c == '\n' {
            Seq::empty()
        } else {
            seq![c] + line_text(bs.skip(st.used))
        },
        None => Seq::empty(),
    }
}

/// How many bytes a line scan consumes: the line feed, or the bytes of the
/// failed step, are consumed too.
pub open spec fn line_used(bs: Seq<u8>) -> int
    decreases bs.len(),
{
    let st = decode_step(bs);
    match st.res {
        Some(c) => if c == '\n' {
            st.used
        } else {
            st.used + line_used(bs.skip(st.used))
        },
        None => st.used,
    }
}

/// Whether a line scan runs into the end of the stream.
pub open spec fn line_end(bs: Seq<u8>) -> bool
    decreases bs.len(),
{
    let st = decode_step(bs);
    match st.res {
        Some(c) => if c == '\n' {
            false
        } else {
            line_end(bs.skip(st.used))
        },
        None => st.hit_end,
    }
}

/// How many bytes the leading run of whitespace scalars spans.
pub open spec fn ws_used(bs: Seq<u8>) -> int
    decreases bs.len(),
{
    let st = decode_step(bs);
    match st.res {
        Some(c) => if space_char(c) {
            st.used + ws_used(bs.skip(st.used))
        } else {
            0
        },
        None => 0,
    }
}

/// The leading whitespace run never spans more than the whole stream.
pub proof fn lemma_ws_used_bounds(bs: Seq<u8>)
    ensures
        0 <= ws_used(bs) <= bs.len(),
    decreases bs.len(),
{
    let st = decode_step(bs);
    match st.res {
        Some(c) => {
            if space_char(c) {
                lemma_ws_used_bounds(bs.skip(st.used));
            }
        },
        None => {},
    }
}

/// The characters a token scan accumulates once past the leading whitespace:
/// scalars up to the first whitespace scalar or the first failed step.
pub open spec fn word_text(bs: Seq<u8>) -> Seq<char>
    decreases bs.len(),
{
    let st = decode_step(bs);
    match st.res {
        Some(c) => if space_char(c) {
            Seq::empty()
        } else {
            seq![c] + word_text(bs.skip(st.used))
        },
        None => Seq::empty(),
    }
}

/// How many bytes that accumulation consumes: the terminating whitespace
/// scalar, or the bytes of the failed step, are consumed too.
pub open spec fn word_used(bs: Seq<u8>) -> int
    decreases bs.len(),
{
    let st = decode_step(bs);
    match st.res {
        Some(c) => if space_char(c) {
            st.used
        } else {
            st.used + word_used(bs.skip(st.used))
        },
        None => st.used,
    }
}

/// Whether that accumulation runs into the end of the stream.
pub open spec fn word_end(bs: Seq<u8>) -> bool
    decreases bs.len(),
{
    let st = decode_step(bs);
    match st.res {
        Some(c) => if space_char(c) {
            false
        } else {
            word_end(bs.skip(st.used))
        },
        None => st.hit_end,
    }
}

/// The next whitespace-delimited token of the stream: empty when the stream
/// holds nothing but whitespace, or fails before any token character.
pub open spec fn token_text(bs: Seq<u8>) -> Seq<char> {
    word_text(bs.skip(ws_used(bs)))
}

/// How many bytes a whole token scan consumes.
pub open spec fn token_used(bs: Seq<u8>) -> int {
    ws_used(bs) + word_used(bs.skip(ws_used(bs)))
}

/// Whether a whole token scan runs into the end of the stream.
pub open spec fn token_end(bs: Seq<u8>) -> bool {
    word_end(bs.skip(ws_used(bs)))
}

} // verus!
