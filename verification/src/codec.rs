//! The on-wire record format shared by the staging buffer and the replay
//! decoder: each record is a two-byte length (low byte first) followed by
//! that many payload bytes, and a block may end in zero padding.
use vstd::arithmetic::div_mod::lemma_fundamental_div_mod;
use vstd::prelude::*;

verus! {

/// Low byte of a record's length prefix, stored first.
pub open spec fn len_lo(n: nat) -> u8 {
    (n % 256) as u8
}

/// High byte of a record's length prefix, stored second.
pub open spec fn len_hi(n: nat) -> u8 {
    ((n / 256) % 256) as u8
}

/// A payload the wire format can carry and replay: the two-byte prefix bounds
/// it at 0xffff, an empty payload is reserved as the padding marker, and a
/// length whose low byte is zero would itself look like padding to the reader.
pub open spec fn valid_payload(p: Seq<u8>) -> bool {
    &&& 0 < p.len() <= 0xffff
    &&& p.len() % 256 != 0
}

/// One record on the wire: the length prefix, then the payload.
pub open spec fn encode_record(p: Seq<u8>) -> Seq<u8> {
    seq![len_lo(p.len()), len_hi(p.len())] + p
}

/// A block of records, back to back.
pub open spec fn encode_stream(ps: Seq<Seq<u8>>) -> Seq<u8>
    decreases ps.len(),
{
    if ps.len() == 0 {
        Seq::empty()
    } else {
        encode_record(ps[0]) + encode_stream(ps.drop_first())
    }
}

/// A run of zero bytes, as appended when a block is padded.
pub open spec fn zeros(n: nat) -> Seq<u8> {
    Seq::new(n, |i: int| 0u8)
}

/// What replay extracts from a byte stream: records until the bytes run out,
/// a zero head byte (the padding sentinel) appears, or a length prefix
/// reaches past the end (a truncated tail).
pub open spec fn decode_stream(b: Seq<u8>) -> Seq<Seq<u8>>
    decreases b.len(),
{
    if b.len() < 2 || b[0] == 0 {
        Seq::empty()
    } else {
        let l = (b[0] as int) + 256 * (b[1] as int);
        if l + 2 > b.len() {
            Seq::empty()
        } else {
            seq![b.subrange(2, l + 2)] + decode_stream(b.skip(l + 2))
        }
    }
}

/// Decoding a stream that starts with one well-formed record yields that
/// record's payload and then whatever the rest decodes to.
pub proof fn lemma_decode_record_prefix(p: Seq<u8>, rest: Seq<u8>)
    requires
        valid_payload(p),
    ensures
        decode_stream(encode_record(p) + rest) == seq![p] + decode_stream(rest),
{
    let b = encode_record(p) + rest;
    let n = p.len();
    lemma_fundamental_div_mod(n as int, 256);
    assert(n / 256 < 256);
    assert(b[0] == len_lo(n));
    assert(b[1] == len_hi(n));
    assert((b[0] as int) + 256 * (b[1] as int) == n);
    assert(b[0] != 0);
    assert(b.subrange(2, n as int + 2) =~= p);
    assert(b.skip(n as int + 2) =~= rest);
}

/// Round trip: replaying an encoded block reproduces exactly the payloads
/// that were staged, in order. The wire format loses nothing and invents
/// nothing.
pub proof fn lemma_stream_round_trip(ps: Seq<Seq<u8>>)
    requires
        forall|i: int| 0 <= i < ps.len() ==> valid_payload(#[trigger] ps[i]),
    ensures
        decode_stream(encode_stream(ps)) == ps,
    decreases ps.len(),
{
    if ps.len() == 0 {
        assert(decode_stream(encode_stream(ps)) =~= ps);
    } else {
        lemma_stream_round_trip(ps.drop_first());
        lemma_decode_record_prefix(ps[0], encode_stream(ps.drop_first()));
        assert(seq![ps[0]] + ps.drop_first() =~= ps);
    }
}

/// Staging one more payload extends the encoded block by one record.
pub proof fn lemma_encode_push(ps: Seq<Seq<u8>>, p: Seq<u8>)
    ensures
        encode_stream(ps.push(p)) == encode_stream(ps) + encode_record(p),
    decreases ps.len(),
{
    if ps.len() == 0 {
        assert(ps.push(p).drop_first() =~= Seq::<Seq<u8>>::empty());
        assert(ps.push(p)[0] == p);
        assert(encode_stream(ps.push(p)) == encode_record(p) + encode_stream(
            Seq::<Seq<u8>>::empty(),
        ));
        assert(encode_stream(ps.push(p)) =~= encode_stream(ps) + encode_record(p));
    } else {
        lemma_encode_push(ps.drop_first(), p);
        assert(ps.push(p).drop_first() =~= ps.drop_first().push(p));
        assert(ps.push(p)[0] == ps[0]);
        assert(encode_stream(ps.push(p)) == encode_record(ps[0]) + encode_stream(
            ps.drop_first().push(p),
        ));
        assert(encode_stream(ps.push(p)) =~= encode_stream(ps) + encode_record(p));
    }
}

/// Zero padding after a block is invisible to replay: the reader stops at the
/// first zero head byte, which is exactly where the records end.
pub proof fn lemma_padding_ignored(ps: Seq<Seq<u8>>, n: nat)
    requires
        forall|i: int| 0 <= i < ps.len() ==> valid_payload(#[trigger] ps[i]),
    ensures
        decode_stream(encode_stream(ps) + zeros(n)) == ps,
    decreases ps.len(),
{
    if ps.len() == 0 {
        assert(encode_stream(ps) + zeros(n) =~= zeros(n));
        assert(decode_stream(zeros(n)) =~= ps);
    } else {
        lemma_padding_ignored(ps.drop_first(), n);
        lemma_decode_record_prefix(ps[0], encode_stream(ps.drop_first()) + zeros(n));
        assert(encode_stream(ps) + zeros(n) =~= encode_record(ps[0]) + (encode_stream(
            ps.drop_first(),
        ) + zeros(n)));
        assert(seq![ps[0]] + ps.drop_first() =~= ps);
    }
}

/// A whole block of records at the front of a stream decodes to its payloads
/// followed by whatever the rest decodes to: cutting a stream at block
/// boundaries does not change what replay sees.
pub proof fn lemma_decode_concat(ps: Seq<Seq<u8>>, rest: Seq<u8>)
    requires
        forall|i: int| 0 <= i < ps.len() ==> valid_payload(#[trigger] ps[i]),
    ensures
        decode_stream(encode_stream(ps) + rest) == ps + decode_stream(rest),
    decreases ps.len(),
{
    if ps.len() == 0 {
        assert(encode_stream(ps) + rest =~= rest);
        assert(Seq::<Seq<u8>>::empty() + decode_stream(rest) =~= decode_stream(rest));
    } else {
        lemma_decode_concat(ps.drop_first(), rest);
        lemma_decode_record_prefix(ps[0], encode_stream(ps.drop_first()) + rest);
        assert(encode_stream(ps) + rest =~= encode_record(ps[0]) + (encode_stream(ps.drop_first())
            + rest));
        assert(seq![ps[0]] + (ps.drop_first() + decode_stream(rest)) =~= ps + decode_stream(rest));
    }
}

/// Round trip across segments: the committed stream is cut into segment
/// files only at block boundaries, so replaying the segments one after the
/// other yields every payload, in write order, exactly once.
pub proof fn lemma_segmented_round_trip(segments: Seq<Seq<Seq<u8>>>)
    requires
        forall|i: int, j: int|
            0 <= i < segments.len() && 0 <= j < segments[i].len() ==> valid_payload(
                #[trigger] segments[i][j],
            ),
    ensures
        segments.map_values(|ps: Seq<Seq<u8>>| decode_stream(encode_stream(ps))).flatten()
            == segments.flatten(),
{
    assert forall|i: int| 0 <= i < segments.len() implies #[trigger] decode_stream(
        encode_stream(segments[i]),
    ) == segments[i] by {
        lemma_stream_round_trip(segments[i]);
    }
    assert(segments.map_values(|ps: Seq<Seq<u8>>| decode_stream(encode_stream(ps))) =~= segments);
}

/// Writers staged concurrently are linearized into one sequence; replaying it
/// keeps every writer's own records in their staged order, since any
/// projection of the replay equals the same projection of what was staged.
pub proof fn lemma_projection_round_trip(ps: Seq<Seq<u8>>, owned: spec_fn(Seq<u8>) -> bool)
    requires
        forall|i: int| 0 <= i < ps.len() ==> valid_payload(#[trigger] ps[i]),
    ensures
        decode_stream(encode_stream(ps)).filter(owned) == ps.filter(owned),
{
    lemma_stream_round_trip(ps);
}

/// A single payload larger than any staging buffer still round-trips: the
/// wire format does not depend on the buffer size.
pub proof fn lemma_oversize_round_trip(p: Seq<u8>, buffer_size: nat)
    requires
        valid_payload(p),
        p.len() > buffer_size,
    ensures
        decode_stream(encode_record(p)) == seq![p],
{
    assert(seq![p].drop_first() =~= Seq::<Seq<u8>>::empty());
    assert(encode_record(p) =~= encode_record(p) + encode_stream(seq![p].drop_first()));
    lemma_stream_round_trip(seq![p]);
}

} // verus!
