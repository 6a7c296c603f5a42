//! Version negotiation at the start of a session, and the reasons a
//! session request is turned down.
use vstd::prelude::*;

use crate::error::HandshakeError;
use crate::varint::{decode_varint, decode_varint_spec, encode_varint, varint_bytes};
use crate::wire::{lemma_decode_varint_bounds, lemma_parse_field_bounds, low32, parse_field, read_field, FieldValue, WireValue};

verus! {

/// Why the server turned a session request down.
#[derive(Debug, Clone, Copy, PartialEq, Eq, Structural)]
pub enum HandshakeRejectReason {
    Unknown,
    UnsupportedVersion,
    NoSessionsAvailable,
    ProtocolNotSupported,
}

/// The wire value of each reject reason.
pub open spec fn reject_reason_value(r: HandshakeRejectReason) -> u8 {
    match r {
        HandshakeRejectReason::Unknown => 0,
        HandshakeRejectReason::UnsupportedVersion => 1,
        HandshakeRejectReason::NoSessionsAvailable => 2,
        HandshakeRejectReason::ProtocolNotSupported => 3,
    }
}

impl HandshakeRejectReason {
    /// The wire value of this reason.
    pub fn as_u8(self) -> (r: u8)
        ensures
            r == reject_reason_value(self),
    {
        match self {
            HandshakeRejectReason::Unknown => 0,
            HandshakeRejectReason::UnsupportedVersion => 1,
            HandshakeRejectReason::NoSessionsAvailable => 2,
            HandshakeRejectReason::ProtocolNotSupported => 3,
        }
    }

    /// The reason of a wire value; values with no reason read as `Unknown`.
    pub fn from_u8(v: u8) -> (r: HandshakeRejectReason)
        ensures
            v <= 3 ==> reject_reason_value(r) == v,
            v > 3 ==> r == HandshakeRejectReason::Unknown,
    {
        match v {
            1 => HandshakeRejectReason::UnsupportedVersion,
            2 => HandshakeRejectReason::NoSessionsAvailable,
            3 => HandshakeRejectReason::ProtocolNotSupported,
            _ => HandshakeRejectReason::Unknown,
        }
    }
}

/// Whether both sides support version `v`.
pub open spec fn is_common_version(server: Seq<u32>, client: Seq<u32>, v: u32) -> bool {
    server.contains(v) && client.contains(v)
}

fn contains_version(versions: &[u32], v: u32) -> (r: bool)
    ensures
        r == versions@.contains(v),
{
    let mut i: usize = 0;
    while i < versions.len()
        invariant
            i <= versions@.len(),
            forall|j: int| 0 <= j < i ==> versions@[j] != v,
        decreases versions@.len() - i,
    {
        if versions[i] == v {
            return true;
        }
        i = i + 1;
    }
    false
}

/// Picks the highest version that both sides support, or turns the
/// session down with `UnsupportedVersion` where they share none.
pub fn negotiate_version(server: &[u32], client: &[u32]) -> (r: Result<u32, HandshakeRejectReason>)
    ensures
        match r {
            Ok(v) => is_common_version(server@, client@, v) && forall|w: u32|
                is_common_version(server@, client@, w) ==> w <= v,
            Err(e) => e == HandshakeRejectReason::UnsupportedVersion && forall|w: u32|
                !is_common_version(server@, client@, w),
        },
{
    let mut best: Option<u32> = None;
    let mut i: usize = 0;
    while i < client.len()
        invariant
            i <= client@.len(),
            match best {
                Some(b) => is_common_version(server@, client@, b) && forall|j: int|
                    0 <= j < i && server@.contains(client@[j]) ==> client@[j] <= b,
                None => forall|j: int| 0 <= j < i ==> !server@.contains(client@[j]),
            },
        decreases client@.len() - i,
    {
        let v = client[i];
        if contains_version(server, v) {
            match best {
                Some(b) => {
                    if v > b {
                        best = Some(v);
                    }
                },
                None => {
                    best = Some(v);
                },
            }
        }
        i = i + 1;
    }
    match best {
        Some(b) => {
            assert forall|w: u32| is_common_version(server@, client@, w) implies w <= b by {
                let j = choose|j: int| 0 <= j < client@.len() && client@[j] == w;
            }
            Ok(b)
        },
        None => {
            assert forall|w: u32| !is_common_version(server@, client@, w) by {
                if client@.contains(w) {
                    let j = choose|j: int| 0 <= j < client@.len() && client@[j] == w;
                }
            }
            Err(HandshakeRejectReason::UnsupportedVersion)
        },
    }
}

/// The RPC protocol versions this server speaks.
pub const SUPPORTED_RPC_VERSIONS: [u32; 1] = [0];

/// The server's answer to a client's hello.
#[derive(Debug, Clone, Copy, PartialEq, Eq, Structural)]
pub enum HandshakeReply {
    /// The session goes ahead with this version.
    Accept(u32),
    /// The session is turned down for this reason.
    Reject(HandshakeRejectReason),
}

/// The values of a packed field of varints, each cut to 32 bits.
pub open spec fn packed_values(p: Seq<u8>) -> Option<Seq<u32>>
    decreases p.len(),
{
    if p.len() == 0 {
        Some(Seq::empty())
    } else {
        match decode_varint_spec(p) {
            Some((v, n)) => if 1 <= n <= p.len() {
                match packed_values(p.skip(n as int)) {
                    Some(rest) => Some(seq![low32(v)] + rest),
                    None => None,
                }
            } else {
                None
            },
            None => None,
        }
    }
}

/// Decodes the fields of a hello, `acc` holding the versions read so far:
/// field 1 holds versions, one per field or packed; other fields are
/// skipped.
pub open spec fn decode_hello_from(s: Seq<u8>, acc: Seq<u32>) -> Option<Seq<u32>>
    decreases s.len(),
{
    if s.len() == 0 {
        Some(acc)
    } else {
        match parse_field(s) {
            Some((f, v, n)) => if 1 <= n <= s.len() {
                if f == 1 {
                    match v {
                        WireValue::Varint(x) => decode_hello_from(s.skip(n as int), acc.push(low32(x))),
                        WireValue::Bytes(p) => match packed_values(p) {
                            Some(vs) => decode_hello_from(s.skip(n as int), acc + vs),
                            None => None,
                        },
                        WireValue::Fixed => None,
                    }
                } else {
                    decode_hello_from(s.skip(n as int), acc)
                }
            } else {
                None
            },
            None => None,
        }
    }
}

/// The versions a client's hello offers, if `s` is a hello.
pub open spec fn decode_hello_spec(s: Seq<u8>) -> Option<Seq<u32>> {
    decode_hello_from(s, Seq::empty())
}

fn read_packed(buf: &[u8], lo: usize, hi: usize, out: &mut Vec<u32>) -> (ok: bool)
    requires
        lo <= hi <= buf@.len(),
    ensures
        match packed_values(buf@.subrange(lo as int, hi as int)) {
            Some(vs) => ok && final(out)@ == old(out)@ + vs,
            None => !ok,
        },
{
    let ghost p = buf@.subrange(lo as int, hi as int);
    let ghost start = out@;
    let ghost mut got: Seq<u32> = Seq::empty();
    let mut pos: usize = lo;
    assert(buf@.subrange(pos as int, hi as int) =~= p);
    assert(out@ =~= start + got);
    while pos < hi
        invariant
            lo <= pos <= hi <= buf@.len(),
            p == buf@.subrange(lo as int, hi as int),
            start == old(out)@,
            out@ == start + got,
            packed_values(p) == match packed_values(buf@.subrange(pos as int, hi as int)) {
                Some(rest) => Some(got + rest),
                None => None,
            },
        decreases hi - pos,
    {
        let ghost t = buf@.subrange(pos as int, hi as int);
        let sub = vstd::slice::slice_subrange(buf, pos, hi);
        assert(sub@.skip(0) =~= t);
        proof {
            lemma_decode_varint_bounds(t);
        }
        match decode_varint(sub, 0) {
            None => {
                assert(t.len() > 0);
                assert(decode_varint_spec(t) is None);
                assert(packed_values(t) is None);
                return false;
            },
            Some((v, next)) => {
                out.push((v % 0x1_0000_0000) as u32);
                assert(t.skip(next as int) =~= buf@.subrange(pos + next, hi as int));
                proof {
                    match packed_values(t.skip(next as int)) {
                        Some(rest2) => {
                            assert(got + (seq![low32(v)] + rest2) =~= got.push(low32(v)) + rest2);
                        },
                        None => {},
                    }
                    got = got.push(low32(v));
                }
                assert(out@ =~= start + got);
                pos = pos + next;
            },
        }
    }
    assert(buf@.subrange(pos as int, hi as int) =~= Seq::<u8>::empty());
    assert(got + Seq::<u32>::empty() =~= got);
    true
}

/// Decodes a client's hello: the versions it offers.
pub fn decode_hello(buf: &[u8]) -> (r: Result<Vec<u32>, HandshakeError>)
    ensures
        match decode_hello_spec(buf@) {
            Some(vs) => r matches Ok(v) && v@ == vs,
            None => r matches Err(HandshakeError::Malformed),
        },
{
    let mut versions: Vec<u32> = Vec::new();
    let mut pos: usize = 0;
    let blen: usize = buf.len();
    assert(buf@.skip(0) =~= buf@);
    while pos < blen
        invariant
            blen == buf@.len(),
            pos <= blen,
            decode_hello_spec(buf@) == decode_hello_from(buf@.skip(pos as int), versions@),
        decreases blen - pos,
    {
        proof {
            lemma_parse_field_bounds(buf@.skip(pos as int));
        }
        let field = read_field(buf, pos);
        if field.is_none() {
            return Err(HandshakeError::Malformed);
        }
        let (f, v, next) = field.unwrap();
        assert(buf@.skip(next as int) =~= buf@.skip(pos as int).skip(next - pos));
        if f == 1 {
            match v {
                FieldValue::Varint(x) => {
                    versions.push((x % 0x1_0000_0000) as u32);
                },
                FieldValue::Bytes(lo, hi) => {
                    if !read_packed(buf, lo, hi, &mut versions) {
                        return Err(HandshakeError::Malformed);
                    }
                },
                FieldValue::Fixed => {
                    return Err(HandshakeError::Malformed);
                },
            }
        }
        pos = next;
    }
    assert(buf@.skip(pos as int).len() == 0);
    Ok(versions)
}

/// The bytes of a reply: an accepted version as field 1 (always written);
/// a rejection as field 2 set to true, with the reason as field 3 unless it
/// is zero.
pub open spec fn reply_bytes(reply: HandshakeReply) -> Seq<u8> {
    match reply {
        HandshakeReply::Accept(v) => seq![0x08u8] + varint_bytes(v as nat),
        HandshakeReply::Reject(reason) => seq![0x10u8, 0x01u8] + if reject_reason_value(reason) == 0 {
            Seq::empty()
        } else {
            seq![0x18u8] + varint_bytes(reject_reason_value(reason) as nat)
        },
    }
}

/// Encodes the server's reply.
pub fn encode_reply(reply: HandshakeReply) -> (r: Vec<u8>)
    ensures
        r@ == reply_bytes(reply),
{
    let mut out: Vec<u8> = Vec::new();
    match reply {
        HandshakeReply::Accept(v) => {
            out.push(0x08);
            encode_varint(v as u64, &mut out);
        },
        HandshakeReply::Reject(reason) => {
            out.push(0x10);
            out.push(0x01);
            let code = reason.as_u8();
            if code != 0 {
                out.push(0x18);
                encode_varint(code as u64, &mut out);
            }
        },
    }
    assert(out@ =~= reply_bytes(reply));
    out
}

/// The server's side of the handshake on a client's hello: a hello that
/// does not decode fails the handshake with `Malformed` and is not
/// answered; otherwise the reply accepts the highest version both sides
/// speak, or turns the session down with `UnsupportedVersion`.
pub fn server_handshake(server_versions: &[u32], hello: &[u8]) -> (r: Result<HandshakeReply, HandshakeError>)
    ensures
        match decode_hello_spec(hello@) {
            None => r matches Err(HandshakeError::Malformed),
            Some(vs) => match r {
                Ok(HandshakeReply::Accept(v)) => is_common_version(server_versions@, vs, v) && forall|w: u32|
                    is_common_version(server_versions@, vs, w) ==> w <= v,
                Ok(HandshakeReply::Reject(reason)) => reason == HandshakeRejectReason::UnsupportedVersion
                    && forall|w: u32| !is_common_version(server_versions@, vs, w),
                Err(_) => false,
            },
        },
{
    let client = decode_hello(hello)?;
    match negotiate_version(server_versions, client.as_slice()) {
        Ok(v) => Ok(HandshakeReply::Accept(v)),
        Err(reason) => Ok(HandshakeReply::Reject(reason)),
    }
}

} // verus!
