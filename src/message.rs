//! Whole messages: decoding one from the front of a stream buffer, and
//! encoding the messages this speaker sends.
use vstd::prelude::*;
use bytes::BytesMut;
use crate::buffer::{buffer_bytes, buffer_split_to, buffered};
use crate::error::DecodeError;
use crate::open::{MessageOpen, OpenModel, parse_open, slice_range};
use crate::wire::{
    be16, be16_bytes, decode_header, encode_header, header_bytes, push_be16, HEADER_LEN,
    MAX_MESSAGE_LEN, TYPE_KEEPALIVE, TYPE_OPEN,
};

verus! {

/// Version number that this speaker announces.
pub const BGP_VERSION: u8 = 4;

/// Length of an OPEN message without optional parameters.
pub const OPEN_MESSAGE_LEN: u16 = 29;

#[derive(Debug)]
pub enum Message {
    Open(MessageOpen),
    /// Stands for every message type that is not decoded further.
    RouteRefresh,
}

pub enum MessageModel {
    Open(OpenModel),
    RouteRefresh,
}

impl View for Message {
    type V = MessageModel;

    open spec fn view(&self) -> MessageModel {
        match self {
            Message::Open(m) => MessageModel::Open(m@),
            Message::RouteRefresh => MessageModel::RouteRefresh,
        }
    }
}

/// The total length that the header at the front of `s` declares.
pub open spec fn declared_len(s: Seq<u8>) -> int {
    be16(s[16], s[17])
}

/// What one decode step makes of the bytes at the front of a stream:
/// `Ok(None)` while the whole message has not arrived yet.
pub open spec fn decode_spec(s: Seq<u8>) -> Result<Option<MessageModel>, DecodeError> {
    if s.len() < HEADER_LEN {
        Ok(None)
    } else if declared_len(s) < HEADER_LEN || declared_len(s) > MAX_MESSAGE_LEN {
        Err(DecodeError::LengthMismatch)
    } else if s.len() < declared_len(s) {
        Ok(None)
    } else if s[18] == TYPE_OPEN {
        match parse_open(s.subrange(HEADER_LEN as int, declared_len(s)), declared_len(s) as u16) {
            Ok(m) => Ok(Some(MessageModel::Open(m))),
            Err(e) => Err(e),
        }
    } else {
        Ok(Some(MessageModel::RouteRefresh))
    }
}

/// Decodes the message at the front of `buf` without consuming anything.
/// `Ok(None)` asks for more data.
pub fn from_bytes(buf: &[u8]) -> (r: Result<Option<Message>, DecodeError>)
    ensures
        match r {
            Ok(Some(m)) => decode_spec(buf@) == Ok::<Option<MessageModel>, DecodeError>(Some(m@)),
            Ok(None) => decode_spec(buf@) == Ok::<Option<MessageModel>, DecodeError>(None),
            Err(e) => decode_spec(buf@) == Err::<Option<MessageModel>, DecodeError>(e),
        },
{
    let header = match decode_header(buf) {
        Ok(h) => h,
        Err(_) => return Ok(None),
    };
    let len = header.length;
    if (len as usize) < HEADER_LEN || len > MAX_MESSAGE_LEN {
        return Err(DecodeError::LengthMismatch);
    }
    if buf.len() < len as usize {
        return Ok(None);
    }
    if header.typ == TYPE_OPEN {
        let payload = slice_range(buf, HEADER_LEN, len as usize);
        match MessageOpen::from_bytes(payload, len) {
            Ok(m) => Ok(Some(Message::Open(m))),
            Err(e) => Err(e),
        }
    } else {
        Ok(Some(Message::RouteRefresh))
    }
}

/// The stream codec.
pub struct Bgp {}

impl Bgp {
    /// Takes one whole message off the front of `buf`, removing exactly its
    /// bytes; on `Ok(None)` or an error the buffer is left as it was.
    pub fn decode(&mut self, buf: &mut BytesMut) -> (r: Result<Option<Message>, DecodeError>)
        ensures
            match r {
                Ok(Some(m)) => decode_spec(buffered(*old(buf))) == Ok::<
                    Option<MessageModel>,
                    DecodeError,
                >(Some(m@)) && buffered(*final(buf)) == buffered(*old(buf)).subrange(
                    declared_len(buffered(*old(buf))),
                    buffered(*old(buf)).len() as int,
                ),
                Ok(None) => decode_spec(buffered(*old(buf))) == Ok::<
                    Option<MessageModel>,
                    DecodeError,
                >(None) && buffered(*final(buf)) == buffered(*old(buf)),
                Err(e) => decode_spec(buffered(*old(buf))) == Err::<Option<MessageModel>, DecodeError>(
                    e,
                ) && buffered(*final(buf)) == buffered(*old(buf)),
            },
    {
        let (r, consumed) = {
            let bytes = buffer_bytes(buf);
            let r = from_bytes(bytes);
            let consumed: usize = match decode_header(bytes) {
                Ok(h) => h.length as usize,
                Err(_) => 0,
            };
            (r, consumed)
        };
        match r {
            Ok(Some(m)) => {
                let _ = buffer_split_to(buf, consumed);
                Ok(Some(m))
            },
            other => other,
        }
    }
}

/// The marker that this speaker sends: sixteen bytes of all ones.
pub open spec fn marker_ones() -> Seq<u8> {
    Seq::new(16, |i: int| 0xffu8)
}

fn ones_marker() -> (r: [u8; 16])
    ensures
        r@ == marker_ones(),
{
    let r: [u8; 16] = [0xff; 16];
    assert(r@ =~= marker_ones());
    r
}

/// The bytes of an OPEN message with no optional parameters.
pub open spec fn open_bytes(asn: u16, hold_time: u16, router_id: Seq<u8>) -> Seq<u8> {
    header_bytes(marker_ones(), OPEN_MESSAGE_LEN, TYPE_OPEN) + seq![BGP_VERSION] + be16_bytes(asn)
        + be16_bytes(hold_time) + router_id + seq![0u8]
}

/// The bytes of a KEEPALIVE message: a header alone.
pub open spec fn keepalive_bytes() -> Seq<u8> {
    header_bytes(marker_ones(), HEADER_LEN as u16, TYPE_KEEPALIVE)
}

/// The 29-byte OPEN message that announces this speaker.
pub fn open_message(asn: u16, hold_time: u16, router_id: [u8; 4]) -> (r: Vec<u8>)
    ensures
        r@ == open_bytes(asn, hold_time, router_id@),
        r@.len() == OPEN_MESSAGE_LEN,
{
    let marker = ones_marker();
    let mut out = encode_header(TYPE_OPEN, OPEN_MESSAGE_LEN, &marker);
    out.push(BGP_VERSION);
    push_be16(&mut out, asn);
    push_be16(&mut out, hold_time);
    out.push(router_id[0]);
    out.push(router_id[1]);
    out.push(router_id[2]);
    out.push(router_id[3]);
    out.push(0);
    assert(out@ =~= open_bytes(asn, hold_time, router_id@));
    out
}

/// The 19-byte KEEPALIVE message.
pub fn keepalive_message() -> (r: Vec<u8>)
    ensures
        r@ == keepalive_bytes(),
        r@.len() == HEADER_LEN,
{
    let marker = ones_marker();
    encode_header(TYPE_KEEPALIVE, HEADER_LEN as u16, &marker)
}

/// An OPEN message as this speaker encodes it decodes to the same fields,
/// with the declared length 29, version 4 and no capabilities.
pub proof fn lemma_open_round_trip(asn: u16, hold_time: u16, router_id: Seq<u8>)
    requires
        router_id.len() == 4,
    ensures
        decode_spec(open_bytes(asn, hold_time, router_id)) == Ok::<
            Option<MessageModel>,
            DecodeError,
        >(
            Some(
                MessageModel::Open(
                    OpenModel {
                        len: OPEN_MESSAGE_LEN,
                        version: BGP_VERSION,
                        asn,
                        hold_time,
                        router_id,
                        caps: Seq::empty(),
                    },
                ),
            ),
        ),
{
    let s = open_bytes(asn, hold_time, router_id);
    assert(s.len() == 29);
    assert(s[16] == 0u8 && s[17] == 29u8 && s[18] == TYPE_OPEN);
    assert(declared_len(s) == 29);
    let p = s.subrange(HEADER_LEN as int, 29);
    assert(p[0] == BGP_VERSION);
    assert(p[1] == (asn / 256) as u8 && p[2] == (asn % 256) as u8);
    assert(p[3] == (hold_time / 256) as u8 && p[4] == (hold_time % 256) as u8);
    assert(p[9] == 0u8);
    assert(p.subrange(5, 9) =~= router_id);
    assert(be16(p[1], p[2]) == asn);
    assert(be16(p[3], p[4]) == hold_time);
}

/// Fewer bytes than a header always ask for more data, never a message or an
/// error, and the buffer is left alone.
pub proof fn lemma_short_buffer_needs_more(s: Seq<u8>)
    requires
        s.len() < HEADER_LEN,
    ensures
        decode_spec(s) == Ok::<Option<MessageModel>, DecodeError>(None),
{
}

/// A complete OPEN message whose optional-parameters length promises more
/// bytes than the message holds fails with `LengthMismatch`.
pub proof fn lemma_open_short_options(s: Seq<u8>)
    requires
        HEADER_LEN + 10 <= declared_len(s) <= MAX_MESSAGE_LEN,
        declared_len(s) <= s.len(),
        s[18] == TYPE_OPEN,
        s[HEADER_LEN + 9] as int > declared_len(s) - (HEADER_LEN + 10),
    ensures
        decode_spec(s) == Err::<Option<MessageModel>, DecodeError>(DecodeError::LengthMismatch),
{
    let p = s.subrange(HEADER_LEN as int, declared_len(s));
    assert(p[9] == s[HEADER_LEN + 9]);
}

} // verus!
