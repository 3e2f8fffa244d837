//! In-memory staging of length-prefixed records, bounded by a soft limit.
use crate::codec::{encode_record, len_hi, len_lo, zeros};
use crate::DEFAULT_BUFFER_SIZE;
use vstd::prelude::*;

verus! {

/// A byte buffer with a soft size limit: a record may carry the contents past
/// the limit, after which the buffer rejects further additions until it is
/// consumed. Its view is the staged bytes, always a concatenation of
/// length-prefixed records.
pub struct Buffer {
    size: usize,
    inner: Vec<u8>,
}

impl View for Buffer {
    type V = Seq<u8>;

    closed spec fn view(&self) -> Seq<u8> {
        self.inner@
    }
}

impl Buffer {
    /// The soft limit this buffer was created with.
    pub closed spec fn spec_size(&self) -> usize {
        self.size
    }

    /// Create an empty buffer with the given soft limit, or the default one.
    pub fn new(size: Option<usize>) -> (r: Buffer)
        ensures
            r@ == Seq::<u8>::empty(),
            r.spec_size() == match size {
                Some(n) => n,
                None => DEFAULT_BUFFER_SIZE,
            },
    {
        let size = match size {
            Some(n) => n,
            None => DEFAULT_BUFFER_SIZE,
        };
        Buffer { size, inner: Vec::new() }
    }

    /// Stage one record. Returns whether the data was accepted, and whether
    /// the buffer is now ready to be flushed. An empty payload is dropped; a
    /// buffer already at or past its limit rejects the data; anything else is
    /// appended as a length-prefixed record, even when the payload alone is
    /// larger than the limit.
    pub fn try_add(&mut self, data: &[u8]) -> (r: (bool, bool))
        requires
            data@.len() <= 0xffff,
        ensures
            final(self).spec_size() == old(self).spec_size(),
            data@.len() == 0 ==> r == (true, false) && final(self)@ == old(self)@,
            data@.len() > 0 && old(self)@.len() >= old(self).spec_size() ==> r == (false, true)
                && final(self)@ == old(self)@,
            data@.len() > 0 && old(self)@.len() < old(self).spec_size() ==> {
                &&& final(self)@ == old(self)@ + encode_record(data@)
                &&& r == (true, final(self)@.len() >= old(self).spec_size())
            },
    {
        if data.len() == 0 {
            return (true, false);
        }
        if self.inner.len() >= self.size {
            return (false, true);
        }
        self.add(data);
        (true, self.inner.len() >= self.size)
    }

    /// Append the two-byte length prefix, low byte first, then the payload.
    pub fn add(&mut self, data: &[u8])
        requires
            data@.len() <= 0xffff,
        ensures
            final(self).spec_size() == old(self).spec_size(),
            final(self)@ == old(self)@ + encode_record(data@),
    {
        let n = data.len();
        let lo: u8 = (n % 256) as u8;
        let hi: u8 = ((n / 256) % 256) as u8;
        self.inner.push(lo);
        self.inner.push(hi);
        let mut k: usize = 0;
        while k < data.len()
            invariant
                k <= data@.len(),
                self.size == old(self).spec_size(),
                self.inner@ == old(self)@ + seq![len_lo(data@.len()), len_hi(data@.len())]
                    + data@.subrange(0, k as int),
            decreases data@.len() - k,
        {
            self.inner.push(data[k]);
            proof {
                let ki = k as int;
                assert(data@.subrange(0, ki + 1) =~= data@.subrange(0, ki).push(data@[ki]));
            }
            k = k + 1;
        }
        proof {
            assert(data@.subrange(0, data@.len() as int) =~= data@);
            assert(self.inner@ =~= old(self)@ + encode_record(data@));
        }
    }

    /// Move the staged bytes out. With `padding`, contents shorter than the
    /// limit are extended with zero bytes up to it, which is how replay
    /// recognizes the end of a block.
    pub fn consume(self, padding: bool) -> (r: Vec<u8>)
        ensures
            padding && self@.len() < self.spec_size() ==> r@ == self@ + zeros(
                (self.spec_size() - self@.len()) as nat,
            ),
            !(padding && self@.len() < self.spec_size()) ==> r@ == self@,
    {
        let Buffer { size, inner: mut inner } = self;
        if padding && inner.len() < size {
            let ghost staged = inner@;
            let diff = size - inner.len();
            let mut k: usize = 0;
            while k < diff
                invariant
                    k <= diff,
                    inner@ == staged + zeros(k as nat),
                decreases diff - k,
            {
                inner.push(0);
                proof {
                    assert(zeros((k + 1) as nat) =~= zeros(k as nat).push(0u8));
                }
                k = k + 1;
            }
        }
        inner
    }

    /// The staged bytes, for inspection.
    pub fn inner(&self) -> (r: &[u8])
        ensures
            r@ == self@,
    {
        self.inner.as_slice()
    }

    /// The soft limit this buffer was created with.
    pub fn size(&self) -> (n: usize)
        ensures
            n == self.spec_size(),
    {
        self.size
    }
}

} // verus!
