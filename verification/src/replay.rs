//! Sequential replay: the order in which live segments are visited, and the
//! decoder that turns segment bytes back into records.
use crate::codec::decode_stream;
use crate::manager::{ring_distance, ring_next};
use vstd::prelude::*;
use vstd::slice::{slice_subrange, slice_to_vec};

verus! {

/// The segment indices from `from` forward to `to` on the ring, inclusive.
pub open spec fn ring_seq(from: u64, to: u64) -> Seq<u64>
    decreases ring_distance(from, to),
{
    if from == to {
        seq![from]
    } else {
        seq![from] + ring_seq(ring_next(from), to)
    }
}

/// The order in which replay visits segments: from the oldest live one
/// forward, wrapping around the ring, up to the one currently written.
pub struct SegmentQueue {
    next: u64,
    last: u64,
    live: bool,
}

impl View for SegmentQueue {
    type V = Seq<u64>;

    closed spec fn view(&self) -> Seq<u64> {
        if self.live {
            ring_seq(self.next, self.last)
        } else {
            Seq::empty()
        }
    }
}

impl SegmentQueue {
    /// Build the replay order from the persisted segment index pair: every
    /// segment from the oldest live one forward to the current one. A missing
    /// index means there is nothing to replay.
    pub fn new(meta: Option<(u64, u64)>) -> (q: SegmentQueue)
        ensures
            q@ == match meta {
                Some(pair) => ring_seq(pair.0, pair.1),
                None => Seq::<u64>::empty(),
            },
    {
        match meta {
            None => SegmentQueue { next: 0, last: 0, live: false },
            Some((gc, current)) => SegmentQueue { next: gc, last: current, live: true },
        }
    }

    /// The next segment to open, if any is left.
    pub fn pop(&mut self) -> (r: Option<u64>)
        ensures
            old(self)@.len() == 0 ==> r is None && final(self)@ == old(self)@,
            old(self)@.len() > 0 ==> r == Some(old(self)@[0]) && final(self)@ == old(
                self,
            )@.drop_first(),
    {
        if !self.live {
            return None;
        }
        let v = self.next;
        if v == self.last {
            self.live = false;
        } else {
            self.next = self.next.wrapping_add(1);
        }
        proof {
            if old(self).next == old(self).last {
                assert(old(self)@.drop_first() =~= Seq::<u64>::empty());
            } else {
                assert(old(self)@.drop_first() =~= ring_seq(ring_next(old(self).next), old(self).last));
            }
        }
        Some(v)
    }
}

/// One step of the replay decoder.
pub enum ReplayStep {
    /// One record's payload, in write order.
    Record(Vec<u8>),
    /// Not enough bytes for a whole record: feed more from the current
    /// segment, or move to the next segment when this one is exhausted.
    NeedData,
    /// The zero padding sentinel: no more records in this segment.
    EndOfData,
}

/// Incremental decoder over one stream of segment bytes. Bytes are fed in
/// chunks as they are read; records come out through `next_record`. Its view
/// is the bytes fed and not yet consumed.
pub struct SegmentDecoder {
    buf: Vec<u8>,
    pos: usize,
}

impl View for SegmentDecoder {
    type V = Seq<u8>;

    closed spec fn view(&self) -> Seq<u8> {
        self.buf@.skip(self.pos as int)
    }
}

impl SegmentDecoder {
    /// The consumed prefix never runs past what was fed.
    pub closed spec fn wf(&self) -> bool {
        self.pos <= self.buf@.len()
    }

    /// An empty decoder.
    pub fn new() -> (d: SegmentDecoder)
        ensures
            d.wf(),
            d@ == Seq::<u8>::empty(),
    {
        SegmentDecoder { buf: Vec::new(), pos: 0 }
    }

    /// Append bytes read from the current segment.
    pub fn feed(&mut self, chunk: &[u8])
        requires
            old(self).wf(),
        ensures
            final(self).wf(),
            final(self)@ == old(self)@ + chunk@,
    {
        let ghost before = self.buf@;
        let mut k: usize = 0;
        while k < chunk.len()
            invariant
                k <= chunk@.len(),
                self.pos == old(self).pos,
                self.buf@ == before + chunk@.subrange(0, k as int),
            decreases chunk@.len() - k,
        {
            self.buf.push(chunk[k]);
            proof {
                let ki = k as int;
                assert(chunk@.subrange(0, ki + 1) =~= chunk@.subrange(0, ki).push(chunk@[ki]));
            }
            k = k + 1;
        }
        proof {
            assert(chunk@.subrange(0, chunk@.len() as int) =~= chunk@);
            assert(self.buf@.skip(self.pos as int) =~= old(self)@ + chunk@);
        }
    }

    /// Drop the consumed prefix, so that the backing storage does not grow
    /// without bound while a long segment is streamed through.
    pub fn compact(&mut self)
        requires
            old(self).wf(),
        ensures
            final(self).wf(),
            final(self)@ == old(self)@,
    {
        let tail = self.buf.split_off(self.pos);
        self.buf = tail;
        self.pos = 0;
        proof {
            assert(self.buf@.skip(0) =~= old(self)@);
        }
    }

    /// Try to decode one record from the fed bytes. A zero head byte is the
    /// padding sentinel and ends the segment's data; a complete
    /// length-prefixed record is consumed and handed out; anything shorter
    /// asks for more bytes and consumes nothing.
    pub fn next_record(&mut self) -> (step: ReplayStep)
        requires
            old(self).wf(),
        ensures
            final(self).wf(),
            match step {
                ReplayStep::Record(r) => {
                    let b = old(self)@;
                    let l = b[0] + 256 * (b[1] as int);
                    &&& b.len() >= 2
                    &&& b[0] != 0
                    &&& l + 2 <= b.len()
                    &&& r@ == b.subrange(2, l + 2)
                    &&& final(self)@ == b.skip(l + 2)
                    &&& decode_stream(b) == seq![r@] + decode_stream(final(self)@)
                },
                ReplayStep::NeedData => {
                    &&& final(self)@ == old(self)@
                    &&& (old(self)@.len() == 0 || old(self)@[0] != 0)
                    &&& decode_stream(old(self)@) == Seq::<Seq<u8>>::empty()
                },
                ReplayStep::EndOfData => {
                    &&& old(self)@.len() > 0
                    &&& old(self)@[0] == 0
                    &&& final(self)@ == Seq::<u8>::empty()
                    &&& decode_stream(old(self)@) == Seq::<Seq<u8>>::empty()
                },
            },
    {
        let avail = self.buf.len() - self.pos;
        if avail == 0 {
            return ReplayStep::NeedData;
        }
        let b0 = self.buf[self.pos];
        if b0 == 0 {
            self.buf = Vec::new();
            self.pos = 0;
            return ReplayStep::EndOfData;
        }
        if avail < 2 {
            return ReplayStep::NeedData;
        }
        let b1 = self.buf[self.pos + 1];
        let l: usize = b0 as usize + 256 * (b1 as usize);
        if l + 2 > avail {
            return ReplayStep::NeedData;
        }
        let start = self.pos + 2;
        let record = slice_to_vec(slice_subrange(self.buf.as_slice(), start, start + l));
        self.pos = start + l;
        proof {
            let b = old(self)@;
            let li = l as int;
            assert(record@ =~= b.subrange(2, li + 2));
            assert(self.buf@.skip(self.pos as int) =~= b.skip(li + 2));
            assert(decode_stream(b) == seq![record@] + decode_stream(b.skip(li + 2)));
        }
        ReplayStep::Record(record)
    }
}

/// Replay a whole in-memory block of segment bytes: every record, in write
/// order, exactly as `decode_stream` describes.
pub fn decode_all(bytes: &[u8]) -> (records: Vec<Vec<u8>>)
    ensures
        records@.map_values(|r: Vec<u8>| r@) == decode_stream(bytes@),
{
    let mut d = SegmentDecoder::new();
    d.feed(bytes);
    let mut records: Vec<Vec<u8>> = Vec::new();
    proof {
        assert(Seq::<u8>::empty() + bytes@ =~= bytes@);
        assert(records@.map_values(|r: Vec<u8>| r@) =~= Seq::<Seq<u8>>::empty());
    }
    loop
        invariant
            d.wf(),
            decode_stream(bytes@) == records@.map_values(|r: Vec<u8>| r@) + decode_stream(d@),
        ensures
            decode_stream(bytes@) == records@.map_values(|r: Vec<u8>| r@),
        decreases d@.len(),
    {
        let ghost prev = records@;
        let step = d.next_record();
        match step {
            ReplayStep::Record(r) => {
                proof {
                    assert(prev.push(r).map_values(|x: Vec<u8>| x@) =~= prev.map_values(
                        |x: Vec<u8>| x@,
                    ).push(r@));
                }
                records.push(r);
            },
            _ => {
                proof {
                    assert(records@.map_values(|r: Vec<u8>| r@) + decode_stream(d@)
                        =~= records@.map_values(|r: Vec<u8>| r@));
                }
                break ;
            },
        }
    }
    records
}

} // verus!
