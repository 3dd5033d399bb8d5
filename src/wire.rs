//! The fixed 19-byte message header: 16 marker bytes, a big-endian length
//! and a type code.
use vstd::prelude::*;
use crate::error::DecodeError;

verus! {

pub const HEADER_LEN: usize = 19;

pub const MARKER_LEN: usize = 16;

pub const MAX_MESSAGE_LEN: u16 = 4096;

pub const TYPE_OPEN: u8 = 1;

pub const TYPE_UPDATE: u8 = 2;

pub const TYPE_NOTIFICATION: u8 = 3;

pub const TYPE_KEEPALIVE: u8 = 4;

/// The value of two bytes read big-endian.
pub open spec fn be16(hi: u8, lo: u8) -> int {
    hi as int * 256 + lo as int
}

/// The two bytes of `v`, big-endian.
pub open spec fn be16_bytes(v: u16) -> Seq<u8> {
    seq![(v / 256) as u8, (v % 256) as u8]
}

#[derive(PartialEq, Eq, Structural, Clone, Copy, Debug)]
pub struct Header {
    pub typ: u8,
    pub length: u16,
}

/// The header that the first 19 bytes of `s` spell.
pub open spec fn header_of(s: Seq<u8>) -> Header {
    Header { typ: s[18], length: be16(s[16], s[17]) as u16 }
}

/// The 19 header bytes for a marker, a declared length and a type code.
pub open spec fn header_bytes(marker: Seq<u8>, length: u16, typ: u8) -> Seq<u8> {
    marker + be16_bytes(length) + seq![typ]
}

pub fn read_be16(hi: u8, lo: u8) -> (r: u16)
    ensures
        r as int == be16(hi, lo),
{
    (hi as u16) * 256 + (lo as u16)
}

/// Decodes the header at the front of `buf`; `Truncated` below 19 bytes.
pub fn decode_header(buf: &[u8]) -> (r: Result<Header, DecodeError>)
    ensures
        buf@.len() < HEADER_LEN ==> r == Err::<Header, DecodeError>(DecodeError::Truncated),
        buf@.len() >= HEADER_LEN ==> r == Ok::<Header, DecodeError>(header_of(buf@)),
{
    if buf.len() < HEADER_LEN {
        return Err(DecodeError::Truncated);
    }
    Ok(Header { typ: buf[18], length: read_be16(buf[16], buf[17]) })
}

/// Appends `v` big-endian.
pub fn push_be16(out: &mut Vec<u8>, v: u16)
    ensures
        final(out)@ == old(out)@ + be16_bytes(v),
{
    out.push((v / 256) as u8);
    out.push((v % 256) as u8);
    assert(out@ =~= old(out)@ + be16_bytes(v));
}

/// The 19-byte header block.
pub fn encode_header(typ: u8, length: u16, marker: &[u8; 16]) -> (r: Vec<u8>)
    ensures
        r@ == header_bytes(marker@, length, typ),
        r@.len() == HEADER_LEN,
{
    let mut out: Vec<u8> = Vec::new();
    let mut i: usize = 0;
    while i < MARKER_LEN
        invariant
            i <= MARKER_LEN,
            marker@.len() == MARKER_LEN,
            out@ == marker@.subrange(0, i as int),
        decreases MARKER_LEN - i,
    {
        out.push(marker[i]);
        assert(out@ =~= marker@.subrange(0, i + 1));
        i += 1;
    }
    assert(out@ =~= marker@);
    push_be16(&mut out, length);
    out.push(typ);
    assert(out@ =~= header_bytes(marker@, length, typ));
    out
}

/// Decoding what `encode_header` wrote gives back the length and type code.
pub proof fn lemma_header_round_trip(marker: Seq<u8>, length: u16, typ: u8)
    requires
        marker.len() == MARKER_LEN,
    ensures
        header_bytes(marker, length, typ).len() == HEADER_LEN,
        header_of(header_bytes(marker, length, typ)) == (Header { typ, length }),
{
    let s = header_bytes(marker, length, typ);
    assert(s[16] == (length / 256) as u8);
    assert(s[17] == (length % 256) as u8);
    assert(s[18] == typ);
}

} // verus!
