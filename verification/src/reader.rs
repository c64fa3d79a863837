//! The public reader over a byte source.

use vstd::prelude::*;
use crate::source::ByteSource;
use crate::stream::Stream;
use crate::token::FromToken;
use crate::decode::decode_step;
use crate::scan::line_end;
use crate::scan::line_text;
use crate::scan::line_used;
use crate::scan::token_end;
use crate::scan::token_text;
use crate::scan::token_used;

verus! {

/// Default buffer capacity in bytes, matching common buffered-reader defaults.
pub const DEFAULT_BUF_SIZE: usize = 8000;

/// A buffered, incremental UTF-8 decoding reader over a byte source.
///
/// All operations report failure as an absent value; the sticky error flag,
/// read through [`RInStream::valid`], is latched when the source is
/// exhausted or fails, and a caller cannot tell the two apart.
pub struct RInStream<S: ByteSource> {
    source: Stream<S>,
}

impl<S: ByteSource> RInStream<S> {
    /// Structural invariant of the reader; construction establishes it and
    /// every operation preserves it.
    pub closed spec fn wf(&self) -> bool {
        self.source.wf()
    }

    /// The bytes the reader has still to deliver.
    pub closed spec fn avail(&self) -> Seq<u8> {
        self.source.avail()
    }

    /// Whether the sticky error flag is set.
    pub closed spec fn errored(&self) -> bool {
        self.source.errored()
    }

    /// A reliable reader: its source never fails and its buffer holds at
    /// least one byte, so its whole behaviour is a function of the bytes.
    pub closed spec fn reliable(&self) -> bool {
        self.source.reliable()
    }

    /// Creates a new reader from a source, with the default buffer size.
    pub fn from_source(src: S) -> (r: RInStream<S>)
        ensures
            r.wf(),
            !r.errored(),
            r.reliable() == !src.fallible(),
            r.avail() == src.pending(),
    {
        Self::new(src, DEFAULT_BUF_SIZE)
    }

    /// Creates a new reader from a source with the given buffer size in bytes.
    pub fn new(src: S, cap: usize) -> (r: RInStream<S>)
        ensures
            r.wf(),
            !r.errored(),
            r.reliable() == (!src.fallible() && cap > 0),
            r.avail() == src.pending(),
    {
        RInStream { source: Stream::new(src, cap) }
    }

    /// Reads the next character, which can be whitespace: one decoding step.
    pub fn read_char(&mut self) -> (r: Option<char>)
        requires
            old(self).wf(),
        ensures
            final(self).wf(),
            final(self).reliable() == old(self).reliable(),
            old(self).reliable() ==> {
                let st = decode_step(old(self).avail());
                &&& r == st.res
                &&& final(self).avail() == old(self).avail().skip(st.used)
                &&& final(self).errored() == st.hit_end
            },
    {
        self.source.pop_char()
    }

    /// Reads the next whitespace-delimited token and parses it as `T`;
    /// yields nothing when no token text was accumulated or the text does
    /// not parse, and the consumed bytes are not restored either way.
    pub fn read<T: FromToken>(&mut self) -> (r: Option<T>)
        requires
            old(self).wf(),
        ensures
            final(self).wf(),
            final(self).reliable() == old(self).reliable(),
            old(self).reliable() ==> {
                let p = old(self).avail();
                &&& final(self).avail() == p.skip(token_used(p))
                &&& final(self).errored() == token_end(p)
                &&& (token_text(p).len() == 0 ==> r is None)
                &&& (token_text(p).len() > 0 ==> T::token_of(token_text(p), r))
            },
    {
        self.source.read()
    }

    /// Reads a line: scalars up to a line feed (consumed and discarded) or
    /// up to a failed decoding step; yields nothing only at the true end of
    /// the data, a blank line comes back as an empty text.
    pub fn read_line(&mut self) -> (r: Option<String>)
        requires
            old(self).wf(),
        ensures
            final(self).wf(),
            final(self).reliable() == old(self).reliable(),
            old(self).reliable() ==> {
                let p = old(self).avail();
                &&& final(self).avail() == p.skip(line_used(p))
                &&& final(self).errored() == line_end(p)
                &&& (r matches Some(s) ==> s@ == line_text(p))
                &&& (r is Some <==> !(line_text(p).len() == 0 && line_end(p)))
            },
    {
        self.source.read_line()
    }

    /// Skips all characters until the next line feed is consumed or
    /// decoding fails.
    pub fn skip_line(&mut self)
        requires
            old(self).wf(),
        ensures
            final(self).wf(),
            final(self).reliable() == old(self).reliable(),
            old(self).reliable() ==> {
                let p = old(self).avail();
                &&& final(self).avail() == p.skip(line_used(p))
                &&& final(self).errored() == line_end(p)
            },
    {
        self.source.skip_line()
    }

    /// The reader becomes invalid as soon as the source reports exhaustion
    /// or an error: the negation of the sticky error flag.
    pub fn valid(&self) -> (r: bool)
        ensures
            r == !self.errored(),
    {
        self.source.valid()
    }
}

} // verus!
