//! Frames: an eight-byte little-endian length followed by that many payload bytes.
use byteorder::ByteOrder;
use vstd::prelude::*;

verus! {

/// Byte `i` (counting from the least significant) of `x`.
pub open spec fn byte_at(x: u64, i: u64) -> u8 {
    ((x >> (8 * i)) & 0xff) as u8
}

/// The eight bytes of `x`, least significant first.
pub open spec fn le_bytes(x: u64) -> Seq<u8> {
    seq![
        byte_at(x, 0), byte_at(x, 1), byte_at(x, 2), byte_at(x, 3),
        byte_at(x, 4), byte_at(x, 5), byte_at(x, 6), byte_at(x, 7),
    ]
}

/// The number whose little-endian bytes are the first eight of `s`.
pub open spec fn le_value(s: Seq<u8>) -> u64
    recommends
        s.len() >= 8,
{
    (s[0] as u64) | ((s[1] as u64) << 8) | ((s[2] as u64) << 16) | ((s[3] as u64) << 24)
        | ((s[4] as u64) << 32) | ((s[5] as u64) << 40) | ((s[6] as u64) << 48) | ((s[7]
        as u64) << 56)
}

/// Reading back the little-endian bytes of a number gives the number.
pub proof fn lemma_le_round_trip(x: u64)
    ensures
        le_bytes(x).len() == 8,
        le_value(le_bytes(x)) == x,
{
    let b = le_bytes(x);
    let (b0, b1, b2, b3, b4, b5, b6, b7) = (b[0], b[1], b[2], b[3], b[4], b[5], b[6], b[7]);
    assert(((b0 as u64) | ((b1 as u64) << 8) | ((b2 as u64) << 16) | ((b3 as u64) << 24)
        | ((b4 as u64) << 32) | ((b5 as u64) << 40) | ((b6 as u64) << 48) | ((b7 as u64)
        << 56)) == x) by (bit_vector)
        requires
            b0 == ((x >> 0) & 0xff) as u8,
            b1 == ((x >> 8) & 0xff) as u8,
            b2 == ((x >> 16) & 0xff) as u8,
            b3 == ((x >> 24) & 0xff) as u8,
            b4 == ((x >> 32) & 0xff) as u8,
            b5 == ((x >> 40) & 0xff) as u8,
            b6 == ((x >> 48) & 0xff) as u8,
            b7 == ((x >> 56) & 0xff) as u8,
    ;
}

/// The frame that carries `payload`: its length as eight little-endian bytes,
/// then the payload itself.
pub open spec fn frame_of(payload: Seq<u8>) -> Seq<u8> {
    le_bytes(payload.len() as u64) + payload
}

/// The payload bytes carried by a stream of frames, in order. A frame whose
/// payload is cut short ends the stream.
pub open spec fn decode_frames(s: Seq<u8>) -> Seq<u8>
    decreases s.len(),
{
    if s.len() < 8 {
        Seq::empty()
    } else {
        let n = le_value(s) as int;
        let body = s.subrange(8, s.len() as int);
        if n <= body.len() {
            body.subrange(0, n) + decode_frames(body.subrange(n, body.len() as int))
        } else {
            Seq::empty()
        }
    }
}

/// The stream made of one frame for each payload, in order.
pub open spec fn frames_of(payloads: Seq<Seq<u8>>) -> Seq<u8>
    decreases payloads.len(),
{
    if payloads.len() == 0 {
        Seq::empty()
    } else {
        frame_of(payloads[0]) + frames_of(payloads.drop_first())
    }
}

/// All the given byte sequences, one after another.
pub open spec fn concat(parts: Seq<Seq<u8>>) -> Seq<u8>
    decreases parts.len(),
{
    if parts.len() == 0 {
        Seq::empty()
    } else {
        parts[0] + concat(parts.drop_first())
    }
}

pub proof fn lemma_concat_push(parts: Seq<Seq<u8>>, last: Seq<u8>)
    ensures
        concat(parts.push(last)) == concat(parts) + last,
    decreases parts.len(),
{
    if parts.len() == 0 {
        assert(parts.push(last).drop_first() =~= parts);
        assert(concat(parts.push(last)) =~= last);
    } else {
        assert(parts.push(last).drop_first() =~= parts.drop_first().push(last));
        lemma_concat_push(parts.drop_first(), last);
        assert(concat(parts.push(last)) =~= concat(parts) + last);
    }
}

/// Reading a frame off the front of a stream gives its payload, and leaves the
/// rest of the stream.
pub proof fn lemma_decode_frame(payload: Seq<u8>, rest: Seq<u8>)
    requires
        payload.len() <= u64::MAX,
    ensures
        decode_frames(frame_of(payload) + rest) == payload + decode_frames(rest),
{
    let s = frame_of(payload) + rest;
    let n = payload.len() as u64;
    lemma_le_round_trip(n);
    assert(s.subrange(0, 8) =~= le_bytes(n));
    assert(le_value(s) == le_value(le_bytes(n)));
    let body = s.subrange(8, s.len() as int);
    assert(body =~= payload + rest);
    assert(body.subrange(0, n as int) =~= payload);
    assert(body.subrange(n as int, body.len() as int) =~= rest);
}

/// Decoding a stream of frames gives back their payloads, in order.
pub proof fn lemma_decode_frames_of(payloads: Seq<Seq<u8>>)
    requires
        forall|i: int| 0 <= i < payloads.len() ==> (#[trigger] payloads[i]).len() <= u64::MAX,
    ensures
        decode_frames(frames_of(payloads)) == concat(payloads),
    decreases payloads.len(),
{
    if payloads.len() > 0 {
        let rest = payloads.drop_first();
        assert forall|i: int| 0 <= i < rest.len() implies (#[trigger] rest[i]).len()
            <= u64::MAX by {
            assert(rest[i] == payloads[i + 1]);
        }
        lemma_decode_frames_of(rest);
        lemma_decode_frame(payloads[0], frames_of(rest));
    }
}

/// Relies on byteorder's `LittleEndian::write_u64_into`, which stores each
/// number as its eight bytes, least significant first.
#[verifier::external_body]
fn length_header(n: u64) -> (r: Vec<u8>)
    ensures
        r@ == le_bytes(n),
{
    let mut bytes = [0u8; 8];
    byteorder::LittleEndian::write_u64_into(&[n], &mut bytes);
    bytes.to_vec()
}

/// Builds the frame that carries the first `len` bytes of `buffer`.
pub fn encode_frame(buffer: &Vec<u8>, len: usize) -> (r: Vec<u8>)
    requires
        len <= buffer@.len(),
    ensures
        r@ == frame_of(buffer@.subrange(0, len as int)),
{
    let mut out = length_header(len as u64);
    let mut i: usize = 0;
    while i < len
        invariant
            i <= len <= buffer@.len(),
            out@ == le_bytes(len as u64) + buffer@.subrange(0, i as int),
        decreases len - i,
    {
        out.push(buffer[i]);
        i += 1;
        assert(buffer@.subrange(0, i as int) == buffer@.subrange(0, i - 1 as int).push(buffer@[i - 1]));
    }
    out
}

} // verus!
