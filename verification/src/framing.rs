//! Length-prefixed framing for the wire protocol.
//!
//! A frame is a 4-byte big-endian length followed by that many payload
//! bytes; the payload of each frame is one JSON document. Encoding and
//! decoding are inverses, and decoding is prefix-deterministic: a decoder
//! fed the bytes of a frame followed by anything else recovers exactly the
//! frame's payload and leaves the rest.

use vstd::prelude::*;

verus! {

/// The number of bytes in the length prefix.
pub const FRAME_HEADER_LEN: usize = 4;

/// The largest payload length the 4-byte prefix can carry.
pub const MAX_FRAME_LEN: usize = 0xffff_ffff;

/// The big-endian 4-byte rendering of a length.
pub open spec fn spec_header(len: nat) -> Seq<u8> {
    seq![
        ((len / 0x100_0000) % 0x100) as u8,
        ((len / 0x1_0000) % 0x100) as u8,
        ((len / 0x100) % 0x100) as u8,
        (len % 0x100) as u8,
    ]
}

/// The value read back from a big-endian 4-byte header.
pub open spec fn spec_header_value(h: Seq<u8>) -> nat
    recommends
        h.len() == 4,
{
    (h[0] as nat) * 0x100_0000 + (h[1] as nat) * 0x1_0000 + (h[2] as nat) * 0x100 + (h[3] as nat)
}

/// A frame on the wire: header plus payload.
pub open spec fn spec_frame(payload: Seq<u8>) -> Seq<u8> {
    spec_header(payload.len()) + payload
}

/// Reading back the header of a frame yields the payload length.
pub proof fn lemma_header_round_trip(len: nat)
    requires
        len <= MAX_FRAME_LEN,
    ensures
        spec_header_value(spec_header(len)) == len,
{
    let h = spec_header(len);
    assert(spec_header_value(h) == ((len / 0x100_0000) % 0x100) * 0x100_0000 + ((len / 0x1_0000)
        % 0x100) * 0x1_0000 + ((len / 0x100) % 0x100) * 0x100 + len % 0x100);
    assert(((len / 0x100_0000) % 0x100) * 0x100_0000 + ((len / 0x1_0000) % 0x100) * 0x1_0000 + ((
    len / 0x100) % 0x100) * 0x100 + len % 0x100 == len) by (nonlinear_arith)
        requires
            len <= 0xffff_ffff,
    ;
}

/// Append one frame carrying `payload` to `out`.
pub fn encode_frame(out: &mut Vec<u8>, payload: &Vec<u8>)
    requires
        payload@.len() <= MAX_FRAME_LEN,
    ensures
        final(out)@ == old(out)@ + spec_frame(payload@),
{
    let len: usize = payload.len();
    let b0: u8 = ((len / 0x100_0000) % 0x100) as u8;
    let b1: u8 = ((len / 0x1_0000) % 0x100) as u8;
    let b2: u8 = ((len / 0x100) % 0x100) as u8;
    let b3: u8 = (len % 0x100) as u8;
    out.push(b0);
    out.push(b1);
    out.push(b2);
    out.push(b3);
    let ghost with_header = out@;
    assert(with_header =~= old(out)@ + spec_header(payload@.len()));
    let mut i: usize = 0;
    while i < payload.len()
        invariant
            i <= payload@.len(),
            out@ == with_header + payload@.take(i as int),
        decreases payload@.len() - i,
    {
        let b = payload[i];
        assert(payload@.take(i + 1) =~= payload@.take(i as int).push(payload@[i as int]));
        out.push(b);
        i = i + 1;
    }
    assert(payload@.take(payload@.len() as int) =~= payload@);
    assert(out@ =~= old(out)@ + spec_frame(payload@));
}

/// What decoding a buffer yields: not enough bytes yet, or one payload and
/// the number of bytes it consumed.
pub enum Decoded {
    /// The buffer does not yet hold a whole frame.
    Incomplete,
    /// One whole frame: its payload and the total bytes consumed.
    Frame(Vec<u8>, usize),
}

/// Decode the first frame of `buf`, if `buf` holds a whole one.
pub fn decode_frame(buf: &Vec<u8>) -> (r: Decoded)
    ensures
        match r {
            Decoded::Incomplete => buf@.len() < FRAME_HEADER_LEN + spec_header_value(
                buf@.take(FRAME_HEADER_LEN as int),
            ) || buf@.len() < FRAME_HEADER_LEN,
            Decoded::Frame(payload, used) => {
                &&& used == FRAME_HEADER_LEN + payload@.len()
                &&& used <= buf@.len()
                &&& buf@.take(used as int) == spec_frame(payload@)
            },
        },
{
    if buf.len() < FRAME_HEADER_LEN {
        return Decoded::Incomplete;
    }
    let b0: usize = buf[0] as usize;
    let b1: usize = buf[1] as usize;
    let b2: usize = buf[2] as usize;
    let b3: usize = buf[3] as usize;
    let len: usize = b0 * 0x100_0000 + b1 * 0x1_0000 + b2 * 0x100 + b3;
    assert(len == spec_header_value(buf@.take(FRAME_HEADER_LEN as int)));
    if buf.len() - FRAME_HEADER_LEN < len {
        return Decoded::Incomplete;
    }
    let total: usize = buf.len();
    let mut payload: Vec<u8> = Vec::new();
    let mut i: usize = 0;
    while i < len
        invariant
            i <= len,
            FRAME_HEADER_LEN + len <= total,
            total == buf@.len(),
            payload@ == buf@.subrange(FRAME_HEADER_LEN as int, FRAME_HEADER_LEN + i),
        decreases len - i,
    {
        let b = buf[FRAME_HEADER_LEN + i];
        assert(buf@.subrange(FRAME_HEADER_LEN as int, FRAME_HEADER_LEN + i + 1) =~= buf@.subrange(
            FRAME_HEADER_LEN as int,
            FRAME_HEADER_LEN + i,
        ).push(buf@[FRAME_HEADER_LEN + i]));
        payload.push(b);
        i = i + 1;
    }
    let used: usize = FRAME_HEADER_LEN + len;
    proof {
        let h = buf@.take(FRAME_HEADER_LEN as int);
        assert(spec_header(payload@.len()) =~= h) by {
            assert(payload@.len() == len);
            assert(h.len() == 4);
            assert(h[0] == buf@[0] && h[1] == buf@[1] && h[2] == buf@[2] && h[3] == buf@[3]);
            lemma_header_bytes(buf@[0] as nat, buf@[1] as nat, buf@[2] as nat, buf@[3] as nat);
        }
        assert(buf@.take(used as int) =~= spec_header(payload@.len()) + payload@);
    }
    Decoded::Frame(payload, used)
}

/// Rendering the value of four header bytes yields those bytes again.
proof fn lemma_header_bytes(b0: nat, b1: nat, b2: nat, b3: nat)
    requires
        b0 < 0x100,
        b1 < 0x100,
        b2 < 0x100,
        b3 < 0x100,
    ensures
        spec_header(b0 * 0x100_0000 + b1 * 0x1_0000 + b2 * 0x100 + b3) =~= seq![
            b0 as u8,
            b1 as u8,
            b2 as u8,
            b3 as u8,
        ],
{
    let v = b0 * 0x100_0000 + b1 * 0x1_0000 + b2 * 0x100 + b3;
    assert((v / 0x100_0000) % 0x100 == b0 && (v / 0x1_0000) % 0x100 == b1 && (v / 0x100) % 0x100
        == b2 && v % 0x100 == b3) by (nonlinear_arith)
        requires
            b0 < 0x100,
            b1 < 0x100,
            b2 < 0x100,
            b3 < 0x100,
            v == b0 * 0x100_0000 + b1 * 0x1_0000 + b2 * 0x100 + b3,
    ;
}

/// Decoding the encoding of a frame before any trailing bytes yields the
/// frame's payload exactly.
pub proof fn lemma_frame_round_trip(payload: Seq<u8>, rest: Seq<u8>)
    requires
        payload.len() <= MAX_FRAME_LEN,
    ensures
        (spec_frame(payload) + rest).take(FRAME_HEADER_LEN + payload.len()) == spec_frame(payload),
        spec_header_value((spec_frame(payload) + rest).take(FRAME_HEADER_LEN as int))
            == payload.len(),
{
    let whole = spec_frame(payload) + rest;
    assert(whole.take(FRAME_HEADER_LEN + payload.len()) =~= spec_frame(payload));
    assert(whole.take(FRAME_HEADER_LEN as int) =~= spec_header(payload.len()));
    lemma_header_round_trip(payload.len());
}

} // verus!
