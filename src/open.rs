//! The OPEN message body and the capability records it carries.
use vstd::prelude::*;
use crate::error::DecodeError;
use crate::wire::{be16, read_be16};

verus! {

/// Optional-parameter type code of the Capabilities parameter.
pub const OPT_CAPABILITIES: u8 = 2;

/// Fixed part of an OPEN body: version, ASN, hold time, router id and the
/// optional-parameters length.
pub const OPEN_FIXED_LEN: usize = 10;

/// One capability record, kept as its code and value bytes.
#[derive(Debug)]
pub struct Capability {
    pub code: u8,
    pub value: Vec<u8>,
}

impl View for Capability {
    type V = (u8, Seq<u8>);

    open spec fn view(&self) -> (u8, Seq<u8>) {
        (self.code, self.value@)
    }
}

pub open spec fn caps_view(v: Seq<Capability>) -> Seq<(u8, Seq<u8>)> {
    v.map_values(|c: Capability| c@)
}

/// The capability records that exactly fill `s`, in order.
pub open spec fn parse_caps(s: Seq<u8>) -> Result<Seq<(u8, Seq<u8>)>, DecodeError>
    decreases s.len(),
{
    if s.len() == 0 {
        Ok(Seq::empty())
    } else if s.len() < 2 {
        Err(DecodeError::Truncated)
    } else if 2 + s[1] > s.len() {
        Err(DecodeError::LengthMismatch)
    } else {
        let n = 2 + s[1] as int;
        match parse_caps(s.subrange(n, s.len() as int)) {
            Ok(rest) => Ok(seq![(s[0], s.subrange(2, n))] + rest),
            Err(e) => Err(e),
        }
    }
}

/// The bytes of a sequence of capability records.
pub open spec fn caps_bytes(caps: Seq<(u8, Seq<u8>)>) -> Seq<u8>
    decreases caps.len(),
{
    if caps.len() == 0 {
        Seq::empty()
    } else {
        seq![caps[0].0, caps[0].1.len() as u8] + caps[0].1 + caps_bytes(caps.drop_first())
    }
}

/// Whether every record's value fits a one-byte length.
pub open spec fn caps_encodable(caps: Seq<(u8, Seq<u8>)>) -> bool {
    forall|i: int| 0 <= i < caps.len() ==> (#[trigger] caps[i]).1.len() <= 255
}

/// The sub-slice `buf[start..end]`.
pub fn slice_range(buf: &[u8], start: usize, end: usize) -> (r: &[u8])
    requires
        start <= end <= buf@.len(),
    ensures
        r@ == buf@.subrange(start as int, end as int),
{
    &buf[start..end]
}

/// Copies `buf[start..end]`.
fn copy_range(buf: &[u8], start: usize, end: usize) -> (r: Vec<u8>)
    requires
        start <= end <= buf@.len(),
    ensures
        r@ == buf@.subrange(start as int, end as int),
{
    let mut out: Vec<u8> = Vec::new();
    let mut i: usize = start;
    while i < end
        invariant
            start <= i <= end <= buf@.len(),
            out@ == buf@.subrange(start as int, i as int),
        decreases end - i,
    {
        out.push(buf[i]);
        assert(out@ =~= buf@.subrange(start as int, i + 1));
        i += 1;
    }
    out
}

/// Decodes the capability records that exactly fill `buf`, whose length is
/// the Capabilities parameter's declared length. A record whose declared
/// length runs past the end is a `LengthMismatch`.
pub fn parse_capabilities(buf: &[u8]) -> (r: Result<Vec<Capability>, DecodeError>)
    ensures
        match r {
            Ok(v) => parse_caps(buf@) == Ok::<Seq<(u8, Seq<u8>)>, DecodeError>(caps_view(v@)),
            Err(e) => parse_caps(buf@) == Err::<Seq<(u8, Seq<u8>)>, DecodeError>(e),
        },
{
    let mut caps: Vec<Capability> = Vec::new();
    let mut pos: usize = 0;
    let mut remaining: usize = buf.len();
    proof {
        assert(buf@.subrange(0, buf@.len() as int) =~= buf@);
        match parse_caps(buf@) {
            Ok(rest) => {
                assert(caps_view(caps@) + rest =~= rest);
            },
            Err(e) => {},
        }
    }
    while remaining > 0
        invariant
            pos + remaining == buf@.len(),
            buf@.len() <= usize::MAX,
            parse_caps(buf@) == match parse_caps(buf@.subrange(pos as int, buf@.len() as int)) {
                Ok(rest) => Ok(caps_view(caps@) + rest),
                Err(e) => Err(e),
            },
        decreases remaining,
    {
        let ghost s = buf@.subrange(pos as int, buf@.len() as int);
        if remaining < 2 {
            return Err(DecodeError::Truncated);
        }
        let len = buf[pos + 1] as usize;
        if len > remaining - 2 {
            return Err(DecodeError::LengthMismatch);
        }
        let value = copy_range(buf, pos + 2, pos + 2 + len);
        let ghost old_caps = caps@;
        caps.push(Capability { code: buf[pos], value });
        proof {
            let n = 2 + len;
            assert(s[0] == buf@[pos as int]);
            assert(s[1] == buf@[pos + 1]);
            assert(s.subrange(2, n) =~= buf@.subrange(pos + 2, pos + 2 + len));
            assert(s.subrange(n, s.len() as int) =~= buf@.subrange(pos + n, buf@.len() as int));
            assert(caps_view(caps@) =~= caps_view(old_caps).push((buf@[pos as int], s.subrange(2, n))));
            match parse_caps(buf@.subrange(pos + n, buf@.len() as int)) {
                Ok(rest) => {
                    assert(caps_view(caps@) + rest =~= caps_view(old_caps) + (seq![(s[0], s.subrange(2, n))] + rest));
                },
                Err(e) => {},
            }
        }
        pos = pos + 2 + len;
        remaining = remaining - 2 - len;
    }
    assert(buf@.subrange(pos as int, buf@.len() as int) =~= Seq::<u8>::empty());
    assert(caps_view(caps@) + Seq::<(u8, Seq<u8>)>::empty() =~= caps_view(caps@));
    Ok(caps)
}

/// The decoded OPEN message, as values.
pub struct OpenModel {
    pub len: u16,
    pub version: u8,
    pub asn: u16,
    pub hold_time: u16,
    pub router_id: Seq<u8>,
    pub caps: Seq<(u8, Seq<u8>)>,
}

/// The optional-parameters block: one Capabilities parameter whose declared
/// length covers exactly the rest of the block.
pub open spec fn parse_opt_params(o: Seq<u8>) -> Result<Seq<(u8, Seq<u8>)>, DecodeError> {
    if o.len() < 2 {
        Err(DecodeError::Truncated)
    } else if o[0] != OPT_CAPABILITIES {
        Err(DecodeError::UnsupportedOption)
    } else if o[1] as int != o.len() - 2 {
        Err(DecodeError::LengthMismatch)
    } else {
        parse_caps(o.subrange(2, o.len() as int))
    }
}

/// The OPEN body `p` of a message whose header declared `len` bytes.
pub open spec fn parse_open(p: Seq<u8>, len: u16) -> Result<OpenModel, DecodeError> {
    if p.len() < OPEN_FIXED_LEN {
        Err(DecodeError::Truncated)
    } else if p[9] as int != p.len() - OPEN_FIXED_LEN {
        Err(DecodeError::LengthMismatch)
    } else {
        let caps = if p.len() == OPEN_FIXED_LEN {
            Ok(Seq::empty())
        } else {
            parse_opt_params(p.subrange(OPEN_FIXED_LEN as int, p.len() as int))
        };
        match caps {
            Ok(c) => Ok(
                OpenModel {
                    len,
                    version: p[0],
                    asn: be16(p[1], p[2]) as u16,
                    hold_time: be16(p[3], p[4]) as u16,
                    router_id: p.subrange(5, 9),
                    caps: c,
                },
            ),
            Err(e) => Err(e),
        }
    }
}

/// A decoded OPEN message; `len` is the total length its header declared.
#[derive(Debug)]
pub struct MessageOpen {
    pub len: u16,
    pub version: u8,
    pub asn: u16,
    pub hold_time: u16,
    pub router_id: [u8; 4],
    pub caps: Vec<Capability>,
}

impl View for MessageOpen {
    type V = OpenModel;

    open spec fn view(&self) -> OpenModel {
        OpenModel {
            len: self.len,
            version: self.version,
            asn: self.asn,
            hold_time: self.hold_time,
            router_id: self.router_id@,
            caps: caps_view(self.caps@),
        }
    }
}

impl MessageOpen {
    /// The total length that the message's header declared.
    pub fn len(&self) -> (r: usize)
        ensures
            r == self.len,
    {
        self.len as usize
    }

    /// Decodes an OPEN body: the fixed fields, then an optional-parameters
    /// block whose declared length must equal the bytes present, holding at
    /// most one Capabilities parameter.
    pub fn from_bytes(buf: &[u8], len: u16) -> (r: Result<MessageOpen, DecodeError>)
        ensures
            match r {
                Ok(m) => parse_open(buf@, len) == Ok::<OpenModel, DecodeError>(m@),
                Err(e) => parse_open(buf@, len) == Err::<OpenModel, DecodeError>(e),
            },
    {
        if buf.len() < OPEN_FIXED_LEN {
            return Err(DecodeError::Truncated);
        }
        let opt_param_len = buf[9] as usize;
        if opt_param_len != buf.len() - OPEN_FIXED_LEN {
            return Err(DecodeError::LengthMismatch);
        }
        let mut caps: Vec<Capability> = Vec::new();
        if opt_param_len > 0 {
            if opt_param_len < 2 {
                return Err(DecodeError::Truncated);
            }
            if buf[OPEN_FIXED_LEN] != OPT_CAPABILITIES {
                return Err(DecodeError::UnsupportedOption);
            }
            let cap_len = buf[OPEN_FIXED_LEN + 1] as usize;
            if cap_len != opt_param_len - 2 {
                return Err(DecodeError::LengthMismatch);
            }
            let ghost o = buf@.subrange(OPEN_FIXED_LEN as int, buf@.len() as int);
            let block = slice_range(buf, OPEN_FIXED_LEN + 2, buf.len());
            assert(block@ =~= o.subrange(2, o.len() as int));
            assert(o[0] == buf@[OPEN_FIXED_LEN as int] && o[1] == buf@[OPEN_FIXED_LEN + 1]);
            caps = parse_capabilities(block)?;
        } else {
            assert(caps_view(caps@) =~= Seq::<(u8, Seq<u8>)>::empty());
        }
        let router_id: [u8; 4] = [buf[5], buf[6], buf[7], buf[8]];
        let m = MessageOpen {
            len,
            version: buf[0],
            asn: read_be16(buf[1], buf[2]),
            hold_time: read_be16(buf[3], buf[4]),
            router_id,
            caps,
        };
        assert(m.router_id@ =~= buf@.subrange(5, 9));
        Ok(m)
    }
}

/// A sequence of capability records, written back to back, decodes to
/// exactly that sequence, in order.
pub proof fn lemma_caps_round_trip(caps: Seq<(u8, Seq<u8>)>)
    requires
        caps_encodable(caps),
    ensures
        parse_caps(caps_bytes(caps)) == Ok::<Seq<(u8, Seq<u8>)>, DecodeError>(caps),
    decreases caps.len(),
{
    if caps.len() > 0 {
        let tail = caps.drop_first();
        assert(caps_encodable(tail)) by {
            assert forall|i: int| 0 <= i < tail.len() implies (#[trigger] tail[i]).1.len() <= 255 by {
                assert(tail[i] == caps[i + 1]);
            }
        }
        lemma_caps_round_trip(tail);
        let s = caps_bytes(caps);
        let head = caps[0];
        assert(head.1.len() <= 255);
        let n: int = 2 + head.1.len() as int;
        assert(s[0] == head.0);
        assert(s[1] == head.1.len() as u8);
        assert(s.len() == n + caps_bytes(tail).len());
        assert(s.subrange(2, n) =~= head.1);
        assert(s.subrange(n, s.len() as int) =~= caps_bytes(tail));
        assert(seq![(s[0], s.subrange(2, n))] + tail =~= caps);
    } else {
        assert(caps =~= Seq::<(u8, Seq<u8>)>::empty());
    }
}

/// Where the records before it fit, a record whose declared length runs
/// past the end of the block makes the whole block fail with `LengthMismatch`.
pub proof fn lemma_caps_overrun(prefix: Seq<(u8, Seq<u8>)>, code: u8, len: u8, rest: Seq<u8>)
    requires
        caps_encodable(prefix),
        len as int > rest.len(),
    ensures
        parse_caps(caps_bytes(prefix) + seq![code, len] + rest) == Err::<
            Seq<(u8, Seq<u8>)>,
            DecodeError,
        >(DecodeError::LengthMismatch),
    decreases prefix.len(),
{
    let s = caps_bytes(prefix) + seq![code, len] + rest;
    if prefix.len() == 0 {
        assert(s =~= seq![code, len] + rest);
        assert(s[1] == len);
    } else {
        let tail = prefix.drop_first();
        assert(caps_encodable(tail)) by {
            assert forall|i: int| 0 <= i < tail.len() implies (#[trigger] tail[i]).1.len() <= 255 by {
                assert(tail[i] == prefix[i + 1]);
            }
        }
        lemma_caps_overrun(tail, code, len, rest);
        let head = prefix[0];
        assert(head.1.len() <= 255);
        let n: int = 2 + head.1.len() as int;
        assert(s[1] == head.1.len() as u8);
        assert(s.subrange(n, s.len() as int) =~= caps_bytes(tail) + seq![code, len] + rest);
    }
}

} // verus!
