//! Byte sources: the capability the reader consumes.

use vstd::prelude::*;

verus! {

/// Outcome of one attempt to fill a buffer from a byte source.
pub enum FillOutcome {
    /// The source wrote this many bytes at the start of the buffer.
    Filled(usize),
    /// The source is exhausted: it produced no bytes and never will again.
    Done,
    /// The source failed to produce bytes.
    Failed,
}

/// Anything that can fill a caller-provided buffer with bytes on demand and
/// signal exhaustion or failure.
///
/// Every source is modelled as serving one finite byte sequence: `pending()`
/// is the ghost sequence it has still to hand out, and `fallible()` says
/// whether `fill` may ever report [`FillOutcome::Failed`] on a non-empty
/// buffer. `fill` must hand out exactly the pending bytes, in order. A
/// verified implementation proves that; one living outside verified code (a
/// console handle, a file) is not checked against it, and the contracts of
/// the reading operations attach to such a source only as far as it lives up
/// to this one. The two ghost descriptions default to an empty, fallible
/// stream, which is all an implementation outside verified code can state.
pub trait ByteSource: Sized {
    open spec fn pending(&self) -> Seq<u8> {
        Seq::empty()
    }

    open spec fn fallible(&self) -> bool {
        true
    }

    fn fill(&mut self, buf: &mut Vec<u8>) -> (r: FillOutcome)
        ensures
            final(buf)@.len() == old(buf)@.len(),
            final(self).fallible() == old(self).fallible(),
            match r {
                FillOutcome::Filled(n) => {
                    &&& 1 <= n <= old(buf)@.len()
                    &&& n <= old(self).pending().len()
                    &&& final(buf)@.take(n as int) == old(self).pending().take(n as int)
                    &&& final(self).pending() == old(self).pending().skip(n as int)
                },
                FillOutcome::Done => {
                    &&& final(self).pending() == old(self).pending()
                    &&& old(self).pending().len() == 0
                },
                FillOutcome::Failed => {
                    &&& final(self).pending() == old(self).pending()
                    &&& (!old(self).fallible() ==> old(buf)@.len() == 0)
                },
            },
    ;
}

/// An in-memory byte source: hands out the bytes of a vector, in order.
///
/// This is the synthetic source that makes the reader testable without any
/// console or file behind it; it never fails.
pub struct VecSource {
    data: Vec<u8>,
    at: usize,
}

impl VecSource {
    /// Builds a source that will produce exactly the bytes of `data`.
    pub fn new(data: Vec<u8>) -> (r: VecSource)
        ensures
            r.pending() == data@,
            !r.fallible(),
    {
        let r = VecSource { data, at: 0 };
        proof {
            assert(r.pending() =~= r.data@);
        }
        r
    }
}

impl ByteSource for VecSource {
    /// The bytes not yet handed out.
    closed spec fn pending(&self) -> Seq<u8> {
        if self.at <= self.data@.len() {
            self.data@.skip(self.at as int)
        } else {
            Seq::empty()
        }
    }

    closed spec fn fallible(&self) -> bool {
        false
    }

    fn fill(&mut self, buf: &mut Vec<u8>) -> (r: FillOutcome) {
        let start: usize = if self.at <= self.data.len() {
            self.at
        } else {
            self.data.len()
        };
        let rem: usize = self.data.len() - start;
        if rem == 0 {
            return FillOutcome::Done;
        }
        if buf.len() == 0 {
            return FillOutcome::Failed;
        }
        let n: usize = if rem <= buf.len() {
            rem
        } else {
            buf.len()
        };
        let mut i: usize = 0;
        while i < n
            invariant
                0 <= i <= n,
                1 <= n <= buf@.len(),
                start + n <= self.data@.len(),
                start + n <= usize::MAX,
                buf@.len() == old(buf)@.len(),
                self == old(self),
                start == if self.at <= self.data@.len() {
                    self.at as int
                } else {
                    self.data@.len() as int
                },
                forall|j: int| 0 <= j < i ==> buf@[j] == self.data@[start + j],
            decreases n - i,
        {
            buf[i] = self.data[start + i];
            i += 1;
        }
        self.at = start + n;
        proof {
            let p = old(self).pending();
            assert(buf@.take(n as int) =~= p.take(n as int));
            assert(self.pending() =~= p.skip(n as int));
        }
        FillOutcome::Filled(n)
    }
}

} // verus!
