//! The single-writer staging policy over the buffer: which bytes go to the
//! buffer, and which block must be drained to the active segment.
use crate::buffer::Buffer;
use crate::codec::{
    decode_stream, encode_record, encode_stream, lemma_encode_push, lemma_stream_round_trip,
    valid_payload,
};
use vstd::prelude::*;

verus! {

/// Staging front of the write path. `log` appends a record to the buffer and
/// hands back a full block whenever the buffer must be drained; `flush`
/// drains whatever is staged. The surrounding binary owns the locks and the
/// segment files: every byte it commits to disk comes out of here, which is
/// what ties the ghost `committed` stream to the ghost `history` of payloads.
pub struct Writer {
    buffer: Buffer,
    buffer_size: usize,
    history: Ghost<Seq<Seq<u8>>>,
    committed: Ghost<Seq<u8>>,
}

impl Writer {
    /// The configured buffer size; zero means the buffer is disabled and
    /// every payload is handed out raw, without a length prefix.
    pub closed spec fn spec_buffer_size(&self) -> usize {
        self.buffer_size
    }

    /// The bytes currently staged and not yet handed out.
    pub closed spec fn spec_buffer(&self) -> Seq<u8> {
        self.buffer@
    }

    /// Every payload accepted so far, oldest first.
    pub closed spec fn history(&self) -> Seq<Seq<u8>> {
        self.history@
    }

    /// Every byte handed out for committing so far, oldest first.
    pub closed spec fn committed(&self) -> Seq<u8> {
        self.committed@
    }

    /// With the buffer enabled, the bytes handed out plus the bytes still
    /// staged are exactly the encoding of the accepted payloads; with it
    /// disabled, the bytes handed out are the payloads themselves.
    pub closed spec fn wf(&self) -> bool {
        &&& self.buffer.spec_size() == self.buffer_size
        &&& self.buffer_size > 0 ==> self.committed@ + self.buffer@ == encode_stream(self.history@)
        &&& self.buffer_size == 0 ==> self.buffer@.len() == 0 && self.committed@
            == self.history@.flatten()
    }

    /// A writer with an empty buffer of the given size and nothing logged.
    pub fn new(buffer_size: usize) -> (w: Writer)
        ensures
            w.wf(),
            w.spec_buffer_size() == buffer_size,
            w.spec_buffer().len() == 0,
            w.history() == Seq::<Seq<u8>>::empty(),
            w.committed() == Seq::<u8>::empty(),
    {
        let w = Writer {
            buffer: Buffer::new(Some(buffer_size)),
            buffer_size,
            history: Ghost(Seq::empty()),
            committed: Ghost(Seq::empty()),
        };
        proof {
            assert(w.committed@ + w.buffer@ =~= encode_stream(w.history@));
            assert(w.history@.flatten() =~= Seq::<u8>::empty());
        }
        w
    }

    /// Accept one payload. Returns the block of bytes that must now be
    /// appended to the active segment, if any. With the buffer disabled the
    /// payload itself is handed out raw. Otherwise an empty payload is
    /// dropped; a payload that fits is staged; a payload that fills the
    /// buffer is staged and the whole buffer handed out; and a payload
    /// arriving at an already full buffer is staged into a fresh buffer while
    /// the full one is handed out.
    pub fn log(&mut self, msg: &[u8]) -> (commit: Option<Vec<u8>>)
        requires
            old(self).wf(),
            old(self).spec_buffer_size() > 0 ==> msg@.len() <= 0xffff,
        ensures
            final(self).wf(),
            final(self).spec_buffer_size() == old(self).spec_buffer_size(),
            final(self).history() == if msg@.len() == 0 && old(self).spec_buffer_size() > 0 {
                old(self).history()
            } else {
                old(self).history().push(msg@)
            },
            match commit {
                Some(c) => final(self).committed() == old(self).committed() + c@,
                None => final(self).committed() == old(self).committed(),
            },
            old(self).spec_buffer_size() == 0 ==> (commit matches Some(c) && c@ == msg@),
            old(self).spec_buffer_size() > 0 ==> {
                let size = old(self).spec_buffer_size();
                let staged = old(self).spec_buffer();
                if msg@.len() == 0 {
                    commit is None && final(self).spec_buffer() == staged
                } else if staged.len() >= size {
                    // the buffer was already full: it is handed out whole and
                    // the new record starts a fresh buffer
                    commit matches Some(c) && c@ == staged && final(self).spec_buffer()
                        == encode_record(msg@)
                } else if staged.len() + 2 + msg@.len() >= size {
                    // this record fills the buffer: hand out everything
                    commit matches Some(c) && c@ == staged + encode_record(msg@)
                        && final(self).spec_buffer() == Seq::<u8>::empty()
                } else {
                    commit is None && final(self).spec_buffer() == staged + encode_record(msg@)
                }
            },
    {
        if self.buffer_size == 0 {
            let c = vstd::slice::slice_to_vec(msg);
            proof {
                old(self).history@.lemma_flatten_push(msg@);
                self.history@ = self.history@.push(msg@);
                self.committed@ = self.committed@ + msg@;
            }
            return Some(c);
        }
        let (added, ready) = self.buffer.try_add(msg);
        if added && !ready {
            if msg.len() > 0 {
                proof {
                    self.history@ = self.history@.push(msg@);
                    lemma_encode_push(old(self).history@, msg@);
                    assert(self.committed@ + self.buffer@ =~= encode_stream(self.history@));
                }
            }
            return None;
        }
        let mut drained = Buffer::new(Some(self.buffer_size));
        if !added {
            drained.try_add(msg);
        }
        core::mem::swap(&mut self.buffer, &mut drained);
        let data = drained.consume(true);
        proof {
            self.history@ = self.history@.push(msg@);
            self.committed@ = self.committed@ + data@;
            lemma_encode_push(old(self).history@, msg@);
            assert(self.committed@ + self.buffer@ =~= encode_stream(self.history@));
        }
        Some(data)
    }

    /// Drain the staged bytes, if any, so that everything accepted so far has
    /// been handed out for committing.
    pub fn flush(&mut self) -> (commit: Option<Vec<u8>>)
        requires
            old(self).wf(),
        ensures
            final(self).wf(),
            final(self).spec_buffer_size() == old(self).spec_buffer_size(),
            final(self).history() == old(self).history(),
            final(self).spec_buffer().len() == 0,
            match commit {
                Some(c) => c@ == old(self).spec_buffer() && c@.len() > 0 && final(self).committed()
                    == old(self).committed() + c@,
                None => old(self).spec_buffer().len() == 0 && final(self).committed() == old(
                    self,
                ).committed(),
            },
            old(self).spec_buffer_size() > 0 ==> final(self).committed() == encode_stream(
                final(self).history(),
            ),
    {
        let mut drained = Buffer::new(Some(self.buffer_size));
        core::mem::swap(&mut self.buffer, &mut drained);
        let data = drained.consume(false);
        if data.len() == 0 {
            proof {
                assert(old(self).committed@ + old(self).buffer@ =~= old(self).committed@);
            }
            return None;
        }
        proof {
            self.committed@ = self.committed@ + data@;
            assert(self.committed@ + self.buffer@ =~= self.committed@);
        }
        Some(data)
    }
}

/// Round trip at the writer: once the buffer has been drained, the bytes
/// handed out for committing replay to exactly the payloads logged, in order.
pub proof fn lemma_writer_round_trip(w: Writer)
    requires
        w.wf(),
        w.spec_buffer_size() > 0,
        w.spec_buffer().len() == 0,
        forall|i: int| 0 <= i < w.history().len() ==> valid_payload(#[trigger] w.history()[i]),
    ensures
        decode_stream(w.committed()) == w.history(),
{
    assert(w.committed() =~= w.committed() + w.spec_buffer());
    lemma_stream_round_trip(w.history());
}

} // verus!
