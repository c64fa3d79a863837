//! The buffered decoding stream: the core reader.

use vstd::prelude::*;
use crate::source::ByteSource;
use crate::source::FillOutcome;
use crate::decode::decode_step;
use crate::decode::char_from_u32;
use crate::scan::is_space;
use crate::scan::line_end;
use crate::scan::line_text;
use crate::scan::line_used;
use crate::scan::token_end;
use crate::scan::token_text;
use crate::scan::token_used;
use crate::scan::word_end;
use crate::scan::word_text;
use crate::scan::word_used;
use crate::scan::ws_used;
use crate::token::FromToken;

verus! {

/// Relies on `String::push`: appends the given character to the end.
#[verifier::external_body]
pub(crate) fn push_char(s: &mut String, c: char)
    ensures
        final(s)@ == old(s)@.push(c),
{
    s.push(c)
}

/// A buffered stream over a byte source, decoded one scalar at a time.
///
/// It owns a fixed-capacity buffer, a read cursor, a fill limit, and a sticky
/// error flag; it refills the buffer from the source when the buffered bytes
/// are exhausted.
pub struct Stream<S: ByteSource> {
    source: S,
    buf: Vec<u8>,
    ptr: usize,
    limit: usize,
    error: bool,
}

impl<S: ByteSource> Stream<S> {
    /// The buffered bytes not yet consumed.
    pub closed spec fn buffered(&self) -> Seq<u8> {
        self.buf@.subrange(self.ptr as int, self.limit as int)
    }

    /// Whether the sticky error flag is set.
    pub closed spec fn errored(&self) -> bool {
        self.error
    }

    /// A reliable stream: its source never fails and its buffer can hold at
    /// least one byte, so its whole behaviour is a function of the bytes.
    pub closed spec fn reliable(&self) -> bool {
        !self.source.fallible() && self.buf@.len() > 0
    }

    /// The bytes the stream has still to deliver: nothing once the error
    /// flag has latched, else the buffered bytes followed by the source's.
    pub closed spec fn avail(&self) -> Seq<u8> {
        if self.error {
            Seq::empty()
        } else {
            self.buffered() + self.source.pending()
        }
    }

    /// A variant for the scanning loops: it never grows, and strictly
    /// shrinks whenever a step consumes a byte.
    pub closed spec fn load(&self) -> int {
        if self.error {
            self.source.pending().len() as int
        } else {
            self.buffered().len() + self.source.pending().len() as int
        }
    }

    /// Structural invariant: the cursor never passes the fill limit, the
    /// limit never passes the capacity, and a reliable stream only latches
    /// its error flag once the source has nothing left.
    pub closed spec fn wf(&self) -> bool {
        &&& self.ptr <= self.limit <= self.buf@.len()
        &&& (self.reliable() && self.error ==> self.source.pending().len() == 0)
    }

    /// Builds a stream over `source` with a buffer of `cap` bytes.
    pub fn new(source: S, cap: usize) -> (r: Stream<S>)
        ensures
            r.wf(),
            !r.errored(),
            r.reliable() == (!source.fallible() && cap > 0),
            r.avail() == source.pending(),
    {
        let mut buf: Vec<u8> = Vec::new();
        while buf.len() < cap
            invariant
                buf@.len() <= cap,
            decreases cap - buf@.len(),
        {
            buf.push(0u8);
        }
        let r = Stream { source, buf, ptr: 0, limit: 0, error: false };
        proof {
            assert(r.avail() =~= r.source.pending());
        }
        r
    }

    /// Asks the source for up to a buffer's worth of bytes and resets the
    /// cursor; no bytes produced, or a source failure, latches the error flag.
    fn refill(&mut self)
        requires
            old(self).wf(),
            old(self).buffered().len() == 0,
        ensures
            final(self).wf(),
            final(self).reliable() == old(self).reliable(),
            final(self).errored() || final(self).buffered().len() > 0,
            final(self).load() <= old(self).load(),
            old(self).reliable() ==> {
                let p = old(self).source.pending();
                if p.len() == 0 {
                    &&& final(self).errored()
                    &&& final(self).avail() =~= Seq::<u8>::empty()
                    &&& final(self).source.pending().len() == 0
                } else {
                    &&& !final(self).errored()
                    &&& final(self).avail() == p
                    &&& final(self).buffered().len() > 0
                }
            },
    {
        let r = self.source.fill(&mut self.buf);
        self.ptr = 0;
        match r {
            FillOutcome::Filled(n) => {
                self.limit = n;
                self.error = false;
                proof {
                    let p = old(self).source.pending();
                    assert(self.buffered() =~= p.take(n as int));
                    assert(self.buffered() + self.source.pending() =~= p);
                }
            },
            FillOutcome::Done => {
                self.error = true;
            },
            FillOutcome::Failed => {
                self.error = true;
            },
        }
    }

    /// Hands out the next raw byte, refilling when the buffered bytes are
    /// exhausted; yields nothing once the stream has nothing left.
    fn pop_byte(&mut self) -> (r: Option<u8>)
        requires
            old(self).wf(),
        ensures
            final(self).wf(),
            final(self).reliable() == old(self).reliable(),
            final(self).load() <= old(self).load(),
            r is Some ==> final(self).load() < old(self).load(),
            old(self).reliable() ==> {
                let p = old(self).avail();
                if p.len() == 0 {
                    &&& r is None
                    &&& final(self).errored()
                    &&& final(self).avail() =~= Seq::<u8>::empty()
                } else {
                    &&& r == Some(p[0])
                    &&& !final(self).errored()
                    &&& final(self).avail() == p.skip(1)
                }
            },
    {
        if self.ptr >= self.limit {
            self.refill();
        }
        if self.error {
            None
        } else {
            let b = self.buf[self.ptr];
            self.ptr = self.ptr + 1;
            proof {
                let p = old(self).avail();
                if old(self).reliable() {
                    assert(self.avail() =~= p.skip(1));
                }
                assert(self.buffered() =~= old(self).buffered().skip(1) || old(
                    self,
                ).buffered().len() == 0);
            }
            Some(b)
        }
    }

    /// Decodes exactly one Unicode scalar value, consuming one to four bytes;
    /// yields nothing on a stray continuation byte, a sequence cut short by
    /// the end of the stream, or an assembled value that is no scalar.
    pub(crate) fn pop_char(&mut self) -> (r: Option<char>)
        requires
            old(self).wf(),
        ensures
            final(self).wf(),
            final(self).reliable() == old(self).reliable(),
            final(self).load() <= old(self).load(),
            r is Some ==> final(self).load() < old(self).load(),
            old(self).reliable() ==> {
                let st = decode_step(old(self).avail());
                &&& r == st.res
                &&& final(self).avail() == old(self).avail().skip(st.used)
                &&& final(self).errored() == st.hit_end
            },
    {
        let ghost p = old(self).avail();
        let ghost st = decode_step(p);
        let b0 = match self.pop_byte() {
            None => {
                return None;
            },
            Some(b) => b,
        };
        proof {
            assert((((b0 & 0xC0) == 0x80) == (0x80 <= b0 <= 0xbf)) && (((b0 & 0x80) == 0) == (b0
                <= 0x7f)) && (((b0 & 0xE0) == 0xC0) == (0xc0 <= b0 <= 0xdf)) && (((b0 & 0xF0)
                == 0xE0) == (0xe0 <= b0 <= 0xef)) && (((b0 & 0xF8) == 0xF0) == (0xf0 <= b0
                <= 0xf7))) by (bit_vector);
        }
        if (b0 & 0xC0) == 0x80 {
            // A stray continuation byte in leading position.
            return None;
        }
        if (b0 & 0x80) == 0 {
            // No continuation bytes.
            let v = (b0 & 0x7F) as u32;
            let r = char_from_u32(v);
            proof {
                if old(self).reliable() {
                    assert(v == vstd::utf8::codepoint_width_1(p[0]));
                    assert(self.avail() =~= p.skip(1));
                }
            }
            return r;
        }
        if (b0 & 0xE0) == 0xC0 {
            // One continuation byte.
            let b1 = match self.pop_byte() {
                None => {
                    proof {
                        if old(self).reliable() {
                            assert(self.avail() =~= p.skip(st.used));
                        }
                    }
                    return None;
                },
                Some(b) => b,
            };
            let v = (((b0 & 0x1F) as u32) << 6) | ((b1 & 0x3F) as u32);
            let r = char_from_u32(v);
            proof {
                if old(self).reliable() {
                    assert(p.skip(1)[0] == p[1]);
                    assert(v == vstd::utf8::codepoint_width_2(p[0], p[1]));
                    assert(self.avail() =~= p.skip(2));
                }
            }
            return r;
        }
        if (b0 & 0xF0) == 0xE0 {
            // Two continuation bytes.
            let b1 = match self.pop_byte() {
                None => {
                    proof {
                        if old(self).reliable() {
                            assert(self.avail() =~= p.skip(st.used));
                        }
                    }
                    return None;
                },
                Some(b) => b,
            };
            let b2 = match self.pop_byte() {
                None => {
                    proof {
                        if old(self).reliable() {
                            assert(p.skip(1).skip(1) =~= p.skip(2));
                            assert(self.avail() =~= p.skip(st.used));
                        }
                    }
                    return None;
                },
                Some(b) => b,
            };
            let v = (((b0 & 0x0F) as u32) << 12) | (((b1 & 0x3F) as u32) << 6) | ((b2
                & 0x3F) as u32);
            let r = char_from_u32(v);
            proof {
                if old(self).reliable() {
                    assert(p.skip(1)[0] == p[1] && p.skip(1).skip(1) =~= p.skip(2) && p.skip(2)[0]
                        == p[2]);
                    assert(v == vstd::utf8::codepoint_width_3(p[0], p[1], p[2]));
                    assert(self.avail() =~= p.skip(3));
                }
            }
            return r;
        }
        if (b0 & 0xF8) == 0xF0 {
            // Three continuation bytes.
            let b1 = match self.pop_byte() {
                None => {
                    proof {
                        if old(self).reliable() {
                            assert(self.avail() =~= p.skip(st.used));
                        }
                    }
                    return None;
                },
                Some(b) => b,
            };
            let b2 = match self.pop_byte() {
                None => {
                    proof {
                        if old(self).reliable() {
                            assert(p.skip(1).skip(1) =~= p.skip(2));
                            assert(self.avail() =~= p.skip(st.used));
                        }
                    }
                    return None;
                },
                Some(b) => b,
            };
            let b3 = match self.pop_byte() {
                None => {
                    proof {
                        if old(self).reliable() {
                            assert(p.skip(1).skip(1) =~= p.skip(2) && p.skip(2).skip(1) =~= p.skip(
                                3,
                            ));
                            assert(self.avail() =~= p.skip(st.used));
                        }
                    }
                    return None;
                },
                Some(b) => b,
            };
            let v = (((b0 & 0x07) as u32) << 18) | (((b1 & 0x3F) as u32) << 12) | (((b2
                & 0x3F) as u32) << 6) | ((b3 & 0x3F) as u32);
            let r = char_from_u32(v);
            proof {
                if old(self).reliable() {
                    assert(p.skip(1)[0] == p[1] && p.skip(1).skip(1) =~= p.skip(2) && p.skip(2)[0]
                        == p[2] && p.skip(2).skip(1) =~= p.skip(3) && p.skip(3)[0] == p[3]);
                    assert(v == vstd::utf8::codepoint_width_4(p[0], p[1], p[2], p[3]));
                    assert(p.skip(3).skip(1) =~= p.skip(4));
                    assert(self.avail() =~= p.skip(4));
                }
            }
            return r;
        }
        // A leading byte past 0xF7 can lead no sequence.
        None
    }

    /// Reads the next whitespace-delimited token and parses it: leading
    /// whitespace scalars are skipped, the following run of non-whitespace
    /// scalars is accumulated until a whitespace scalar (consumed and
    /// discarded) or a failed decoding step ends it, and the accumulated
    /// text, if any, is handed to the type's parser. Consumed bytes are
    /// never restored, a failed parse loses them.
    pub(crate) fn read<T: FromToken>(&mut self) -> (r: Option<T>)
        requires
            old(self).wf(),
        ensures
            final(self).wf(),
            final(self).reliable() == old(self).reliable(),
            old(self).reliable() ==> {
                let p = old(self).avail();
                &&& final(self).avail() == p.skip(token_used(p))
                &&& final(self).errored() == token_end(p)
                &&& (token_text(p).len() == 0 ==> r is None)
                &&& (token_text(p).len() > 0 ==> T::token_of(token_text(p), r))
            },
    {
        let ghost p = old(self).avail();
        let ghost rel = old(self).reliable();
        let ghost mut taken: int = 0;
        let mut acc: Vec<char> = Vec::new();
        loop
            invariant_except_break
                rel ==> {
                    &&& 0 <= taken <= p.len()
                    &&& p.skip(taken) == self.avail()
                    &&& (acc@.len() == 0 ==> {
                        &&& ws_used(p) == taken + ws_used(self.avail())
                        &&& token_text(p) == token_text(self.avail())
                        &&& token_used(p) == taken + token_used(self.avail())
                        &&& token_end(p) == token_end(self.avail())
                    })
                    &&& (acc@.len() > 0 ==> {
                        &&& token_text(p) == acc@ + word_text(self.avail())
                        &&& token_used(p) == taken + word_used(self.avail())
                        &&& token_end(p) == word_end(self.avail())
                    })
                },
            invariant
                self.wf(),
                self.reliable() == rel,
                rel == old(self).reliable(),
                p == old(self).avail(),
            ensures
                self.wf(),
                self.reliable() == old(self).reliable(),
                rel ==> {
                    &&& self.avail() == p.skip(token_used(p))
                    &&& self.errored() == token_end(p)
                    &&& acc@ == token_text(p)
                },
            decreases self.load(),
        {
            let ghost cur = self.avail();
            let ghost st = decode_step(cur);
            let ghost nxt = cur.skip(st.used);
            match self.pop_char() {
                None => {
                    proof {
                        if rel {
                            assert(cur.skip(0) =~= cur);
                            assert(p.skip(taken).skip(st.used) =~= p.skip(taken + st.used));
                            if acc@.len() > 0 {
                                assert(acc@ + word_text(cur) =~= acc@);
                            } else {
                                assert(token_text(p) =~= acc@);
                            }
                        }
                    }
                    break ;
                },
                Some(c) => {
                    let sp = is_space(c);
                    proof {
                        if rel {
                            assert(cur.skip(0) =~= cur);
                            assert(p.skip(taken).skip(st.used) =~= p.skip(taken + st.used));
                        }
                    }
                    if sp {
                        if acc.len() > 0 {
                            proof {
                                if rel {
                                    assert(acc@ + word_text(cur) =~= acc@);
                                }
                            }
                            break ;
                        }
                        proof {
                            if rel {
                                crate::scan::lemma_ws_used_bounds(nxt);
                                assert(cur.skip(st.used + ws_used(nxt)) =~= nxt.skip(ws_used(nxt)));
                                taken = taken + st.used;
                            }
                        }
                    } else {
                        proof {
                            if rel {
                                assert(acc@ + (seq![c] + word_text(nxt)) =~= acc@.push(c)
                                    + word_text(nxt));
                                taken = taken + st.used;
                            }
                        }
                        acc.push(c);
                    }
                },
            }
        }
        if acc.len() == 0 {
            return None;
        }
        T::from_token(&acc)
    }

    /// Accumulates decoded scalars until a line feed is consumed (and
    /// discarded) or decoding fails; yields nothing only when nothing was
    /// accumulated and the error flag is set, so a blank line comes back as
    /// an empty text.
    pub(crate) fn read_line(&mut self) -> (r: Option<String>)
        requires
            old(self).wf(),
        ensures
            final(self).wf(),
            final(self).reliable() == old(self).reliable(),
            old(self).reliable() ==> {
                let p = old(self).avail();
                &&& final(self).avail() == p.skip(line_used(p))
                &&& final(self).errored() == line_end(p)
                &&& (r matches Some(s) ==> s@ == line_text(p))
                &&& (r is Some <==> !(line_text(p).len() == 0 && line_end(p)))
            },
    {
        let ghost p = old(self).avail();
        let ghost rel = old(self).reliable();
        let ghost mut taken: int = 0;
        let mut acc = String::new();
        let mut any = false;
        loop
            invariant_except_break
                rel ==> {
                    &&& 0 <= taken <= p.len()
                    &&& p.skip(taken) == self.avail()
                    &&& line_text(p) == acc@ + line_text(self.avail())
                    &&& line_used(p) == taken + line_used(self.avail())
                    &&& line_end(p) == line_end(self.avail())
                },
            invariant
                self.wf(),
                self.reliable() == rel,
                rel == old(self).reliable(),
                p == old(self).avail(),
                any == (acc@.len() > 0),
            ensures
                self.wf(),
                self.reliable() == old(self).reliable(),
                any == (acc@.len() > 0),
                rel ==> {
                    &&& self.avail() == p.skip(line_used(p))
                    &&& acc@ == line_text(p)
                    &&& self.errored() == line_end(p)
                },
            decreases self.load(),
        {
            let ghost cur = self.avail();
            let ghost st = decode_step(cur);
            match self.pop_char() {
                None => {
                    proof {
                        if rel {
                            assert(acc@ + line_text(cur) =~= acc@);
                            assert(p.skip(taken).skip(st.used) =~= p.skip(taken + st.used));
                        }
                    }
                    break ;
                },
                Some(c) => {
                    if c == '\n' {
                        proof {
                            if rel {
                                assert(acc@ + line_text(cur) =~= acc@);
                                assert(p.skip(taken).skip(st.used) =~= p.skip(taken + st.used));
                            }
                        }
                        break ;
                    }
                    push_char(&mut acc, c);
                    any = true;
                    proof {
                        if rel {
                            assert(p.skip(taken).skip(st.used) =~= p.skip(taken + st.used));
                            assert(acc@.drop_last() + (seq![c] + line_text(self.avail())) =~= acc@
                                + line_text(self.avail()));
                            taken = taken + st.used;
                        }
                    }
                },
            }
        }
        if !any && self.error {
            None
        } else {
            Some(acc)
        }
    }

    /// Decodes and discards scalars until a line feed is consumed or
    /// decoding fails.
    pub(crate) fn skip_line(&mut self)
        requires
            old(self).wf(),
        ensures
            final(self).wf(),
            final(self).reliable() == old(self).reliable(),
            old(self).reliable() ==> {
                let p = old(self).avail();
                &&& final(self).avail() == p.skip(line_used(p))
                &&& final(self).errored() == line_end(p)
            },
    {
        let ghost p = old(self).avail();
        let ghost rel = old(self).reliable();
        let ghost mut taken: int = 0;
        loop
            invariant_except_break
                rel ==> {
                    &&& 0 <= taken <= p.len()
                    &&& p.skip(taken) == self.avail()
                    &&& line_used(p) == taken + line_used(self.avail())
                    &&& line_end(p) == line_end(self.avail())
                },
            invariant
                self.wf(),
                self.reliable() == rel,
                rel == old(self).reliable(),
                p == old(self).avail(),
            ensures
                self.wf(),
                self.reliable() == old(self).reliable(),
                rel ==> {
                    &&& self.avail() == p.skip(line_used(p))
                    &&& self.errored() == line_end(p)
                },
            decreases self.load(),
        {
            let ghost cur = self.avail();
            let ghost st = decode_step(cur);
            match self.pop_char() {
                None => {
                    proof {
                        if rel {
                            assert(p.skip(taken).skip(st.used) =~= p.skip(taken + st.used));
                        }
                    }
                    break ;
                },
                Some(c) => {
                    proof {
                        if rel {
                            assert(p.skip(taken).skip(st.used) =~= p.skip(taken + st.used));
                        }
                    }
                    if c == '\n' {
                        break ;
                    }
                    proof {
                        if rel {
                            taken = taken + st.used;
                        }
                    }
                },
            }
        }
    }

    /// Whether the stream is still valid: the negation of the sticky error flag.
    pub(crate) fn valid(&self) -> (r: bool)
        ensures
            r == !self.errored(),
    {
        !self.error
    }
}

} // verus!
