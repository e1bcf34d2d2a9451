//! The length-prefixed framing used on the subject's pipes: every exchange is
//! a 4-byte little-endian length followed by exactly that many payload bytes.
//! The application performs the blocking reads and writes; the byte-level
//! encoding and decoding, and their round trip, are defined and proved here.

use vstd::bytes::{spec_u32_from_le_bytes, spec_u32_to_le_bytes, lemma_auto_spec_u32_to_from_le_bytes, u32_from_le_bytes, u32_to_le_bytes};
use vstd::prelude::*;

verus! {

/// The frame for a payload: its length as 4 little-endian bytes, then the
/// payload itself.
pub open spec fn spec_frame(p: Seq<u8>) -> Seq<u8> {
    spec_u32_to_le_bytes(p.len() as u32) + p
}

/// The payload framed at the front of `buf`, if a whole frame is there:
/// `None` when fewer than 4 bytes are present or the declared length
/// overruns the buffer. A declared length of 0 yields the empty payload.
pub open spec fn spec_decode_frame(buf: Seq<u8>) -> Option<Seq<u8>> {
    if buf.len() < 4 {
        None
    } else {
        let len = spec_u32_from_le_bytes(buf.take(4)) as int;
        if 4 + len <= buf.len() {
            Some(buf.subrange(4, 4 + len))
        } else {
            None
        }
    }
}

/// Builds the frame for `payload`.
pub fn frame_payload(payload: &Vec<u8>) -> (f: Vec<u8>)
    requires
        payload@.len() <= u32::MAX,
    ensures
        f@ == spec_frame(payload@),
{
    let mut f = u32_to_le_bytes(payload.len() as u32);
    f.extend_from_slice(payload.as_slice());
    f
}

/// Reads the payload length out of a 4-byte little-endian header.
pub fn parse_frame_len(header: &Vec<u8>) -> (len: u32)
    requires
        header@.len() == 4,
    ensures
        len == spec_u32_from_le_bytes(header@),
{
    u32_from_le_bytes(header.as_slice())
}

/// Splits a whole frame off the front of `buf`, if one is there.
pub fn decode_frame(buf: &Vec<u8>) -> (r: Option<Vec<u8>>)
    ensures
        r matches Some(p) ==> spec_decode_frame(buf@) == Some(p@),
        r is None ==> spec_decode_frame(buf@) is None,
{
    if buf.len() < 4 {
        return None;
    }
    let mut header: Vec<u8> = Vec::new();
    header.push(buf[0]);
    header.push(buf[1]);
    header.push(buf[2]);
    header.push(buf[3]);
    proof {
        assert(header@ =~= buf@.take(4));
    }
    let len = parse_frame_len(&header) as usize;
    if len > buf.len() - 4 {
        return None;
    }
    let total: usize = buf.len();
    let mut payload: Vec<u8> = Vec::new();
    let mut i: usize = 0;
    while i < len
        invariant
            i <= len,
            4 + len <= total,
            total == buf@.len(),
            payload@ =~= buf@.subrange(4, 4 + i as int),
        decreases len - i,
    {
        payload.push(buf[4 + i]);
        i = i + 1;
    }
    proof {
        assert(payload@ =~= buf@.subrange(4, 4 + len as int));
    }
    Some(payload)
}

/// Framing round trip: decoding the frame built for any payload, the empty
/// one included, yields exactly that payload.
pub proof fn lemma_frame_round_trip(p: Seq<u8>)
    requires
        p.len() <= u32::MAX,
    ensures
        spec_decode_frame(spec_frame(p)) == Some(p),
{
    lemma_auto_spec_u32_to_from_le_bytes();
    let f = spec_frame(p);
    assert(f.take(4) =~= spec_u32_to_le_bytes(p.len() as u32));
    assert(f.subrange(4, 4 + p.len() as int) =~= p);
}

} // verus!
