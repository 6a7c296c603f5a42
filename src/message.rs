//! The RPC wire messages: requests from the client, responses from the
//! server, their flag bits, and their protobuf encoding.
use vstd::prelude::*;
use vstd::slice::{slice_subrange, slice_to_vec};

use crate::wire::{
    bytes_field, lemma_bytes_field_round_trip, lemma_parse_field_bounds,
    lemma_uint_field_round_trip, low32, parse_field, put_bytes_field, put_uint_field, read_field,
    uint_field, FieldValue, WireValue,
};

verus! {

/// Flag bit that marks the last message of a response stream.
pub const FLAG_FIN: u32 = 0x01;

/// Flag bit of a liveness probe, answered without calling the service.
pub const FLAG_ACK: u32 = 0x02;

/// Whether `flags` carries the `FIN` bit. Other bits are ignored.
pub open spec fn has_fin(flags: u32) -> bool {
    flags % 2 == 1
}

/// Whether `flags` carries the `ACK` bit. Other bits are ignored.
pub open spec fn has_ack(flags: u32) -> bool {
    (flags / 2) % 2 == 1
}

/// Tests the `FIN` bit of `flags`.
pub fn is_fin(flags: u32) -> (r: bool)
    ensures
        r == has_fin(flags),
{
    flags % 2 == 1
}

/// Tests the `ACK` bit of `flags`.
pub fn is_ack(flags: u32) -> (r: bool)
    ensures
        r == has_ack(flags),
{
    (flags / 2) % 2 == 1
}

/// A request as the client frames it.
#[derive(Debug, Clone)]
pub struct RpcRequest {
    pub request_id: u32,
    pub method: u32,
    /// The client's deadline, in whole seconds.
    pub deadline: u64,
    pub flags: u32,
    pub payload: Vec<u8>,
}

/// The mathematical value of an [`RpcRequest`].
pub struct RpcRequestView {
    pub request_id: u32,
    pub method: u32,
    pub deadline: u64,
    pub flags: u32,
    pub payload: Seq<u8>,
}

impl View for RpcRequest {
    type V = RpcRequestView;

    open spec fn view(&self) -> RpcRequestView {
        RpcRequestView {
            request_id: self.request_id,
            method: self.method,
            deadline: self.deadline,
            flags: self.flags,
            payload: self.payload@,
        }
    }
}

/// A response message as the server frames it.
#[derive(Debug, Clone)]
pub struct RpcResponse {
    pub request_id: u32,
    pub status: u32,
    pub flags: u32,
    pub payload: Vec<u8>,
}

/// The mathematical value of an [`RpcResponse`].
pub struct RpcResponseView {
    pub request_id: u32,
    pub status: u32,
    pub flags: u32,
    pub payload: Seq<u8>,
}

impl View for RpcResponse {
    type V = RpcResponseView;

    open spec fn view(&self) -> RpcResponseView {
        RpcResponseView {
            request_id: self.request_id,
            status: self.status,
            flags: self.flags,
            payload: self.payload@,
        }
    }
}

/// The message did not decode as protobuf of the expected shape.
#[derive(Debug, Clone, Copy, PartialEq, Eq, Structural)]
pub struct DecodeError;

/// The encoding of a request: fields 1 to 5 in order, zero and empty
/// fields left out.
pub open spec fn request_bytes(m: RpcRequestView) -> Seq<u8> {
    uint_field(1, m.request_id as nat) + (uint_field(2, m.method as nat) + (uint_field(3, m.deadline as nat)
        + (uint_field(4, m.flags as nat) + bytes_field(5, m.payload))))
}

/// The encoding of a response: fields 1 to 4 in order, zero and empty
/// fields left out.
pub open spec fn response_bytes(m: RpcResponseView) -> Seq<u8> {
    uint_field(1, m.request_id as nat) + (uint_field(2, m.status as nat) + (uint_field(3, m.flags as nat)
        + bytes_field(4, m.payload)))
}

/// The request with all fields zero or empty.
pub open spec fn empty_request() -> RpcRequestView {
    RpcRequestView { request_id: 0, method: 0, deadline: 0, flags: 0, payload: Seq::empty() }
}

/// The response with all fields zero or empty.
pub open spec fn empty_response() -> RpcResponseView {
    RpcResponseView { request_id: 0, status: 0, flags: 0, payload: Seq::empty() }
}

/// Merges one field into a request: a known field of the wrong wire type is
/// an error, an unknown field is skipped, a repeated field replaces.
pub open spec fn merge_request_field(m: RpcRequestView, f: u64, v: WireValue) -> Option<RpcRequestView> {
    if 1 <= f <= 4 {
        match v {
            WireValue::Varint(x) => Some(
                if f == 1 {
                    RpcRequestView { request_id: low32(x), ..m }
                } else if f == 2 {
                    RpcRequestView { method: low32(x), ..m }
                } else if f == 3 {
                    RpcRequestView { deadline: x, ..m }
                } else {
                    RpcRequestView { flags: low32(x), ..m }
                },
            ),
            _ => None,
        }
    } else if f == 5 {
        match v {
            WireValue::Bytes(p) => Some(RpcRequestView { payload: p, ..m }),
            _ => None,
        }
    } else {
        Some(m)
    }
}

/// Merges one field into a response, as [`merge_request_field`] does.
pub open spec fn merge_response_field(m: RpcResponseView, f: u64, v: WireValue) -> Option<RpcResponseView> {
    if 1 <= f <= 3 {
        match v {
            WireValue::Varint(x) => Some(
                if f == 1 {
                    RpcResponseView { request_id: low32(x), ..m }
                } else if f == 2 {
                    RpcResponseView { status: low32(x), ..m }
                } else {
                    RpcResponseView { flags: low32(x), ..m }
                },
            ),
            _ => None,
        }
    } else if f == 4 {
        match v {
            WireValue::Bytes(p) => Some(RpcResponseView { payload: p, ..m }),
            _ => None,
        }
    } else {
        Some(m)
    }
}

/// Decodes the fields of `s` into `m`, one after another.
pub open spec fn decode_request_from(s: Seq<u8>, m: RpcRequestView) -> Option<RpcRequestView>
    decreases s.len(),
{
    if s.len() == 0 {
        Some(m)
    } else {
        match parse_field(s) {
            Some((f, v, n)) => if 1 <= n <= s.len() {
                match merge_request_field(m, f, v) {
                    Some(m2) => decode_request_from(s.skip(n as int), m2),
                    None => None,
                }
            } else {
                None
            },
            None => None,
        }
    }
}

/// Decodes the fields of `s` into `m`, one after another.
pub open spec fn decode_response_from(s: Seq<u8>, m: RpcResponseView) -> Option<RpcResponseView>
    decreases s.len(),
{
    if s.len() == 0 {
        Some(m)
    } else {
        match parse_field(s) {
            Some((f, v, n)) => if 1 <= n <= s.len() {
                match merge_response_field(m, f, v) {
                    Some(m2) => decode_response_from(s.skip(n as int), m2),
                    None => None,
                }
            } else {
                None
            },
            None => None,
        }
    }
}

/// The request that `s` encodes, if it is one.
pub open spec fn decode_request_spec(s: Seq<u8>) -> Option<RpcRequestView> {
    decode_request_from(s, empty_request())
}

/// The response that `s` encodes, if it is one.
pub open spec fn decode_response_spec(s: Seq<u8>) -> Option<RpcResponseView> {
    decode_response_from(s, empty_response())
}

proof fn lemma_request_uint_step(f: u64, x: u64, rest: Seq<u8>, m: RpcRequestView)
    requires
        1 <= f <= 4,
    ensures
        decode_request_from(uint_field(f as nat, x as nat) + rest, m) == decode_request_from(
            rest,
            if x == 0 {
                m
            } else {
                merge_request_field(m, f, WireValue::Varint(x)).unwrap()
            },
        ),
{
    if x != 0 {
        lemma_uint_field_round_trip(f, x, rest);
    } else {
        assert(uint_field(f as nat, x as nat) + rest =~= rest);
    }
}

proof fn lemma_response_uint_step(f: u64, x: u64, rest: Seq<u8>, m: RpcResponseView)
    requires
        1 <= f <= 3,
    ensures
        decode_response_from(uint_field(f as nat, x as nat) + rest, m) == decode_response_from(
            rest,
            if x == 0 {
                m
            } else {
                merge_response_field(m, f, WireValue::Varint(x)).unwrap()
            },
        ),
{
    if x != 0 {
        lemma_uint_field_round_trip(f, x, rest);
    } else {
        assert(uint_field(f as nat, x as nat) + rest =~= rest);
    }
}

proof fn lemma_request_payload_step(p: Seq<u8>, m: RpcRequestView)
    requires
        p.len() <= u64::MAX,
        m.payload.len() == 0,
    ensures
        decode_request_from(bytes_field(5, p), m) == Some(RpcRequestView { payload: p, ..m }),
{
    let e = Seq::<u8>::empty();
    let b = bytes_field(5, p);
    if p.len() > 0 {
        lemma_bytes_field_round_trip(5, p, e);
        assert(b + e =~= b);
        assert(b.skip(b.len() as int) =~= e);
        assert(decode_request_from(e, RpcRequestView { payload: p, ..m }) == Some(
            RpcRequestView { payload: p, ..m },
        ));
    } else {
        assert(p =~= m.payload);
        assert(b.len() == 0);
    }
}

proof fn lemma_response_payload_step(p: Seq<u8>, m: RpcResponseView)
    requires
        p.len() <= u64::MAX,
        m.payload.len() == 0,
    ensures
        decode_response_from(bytes_field(4, p), m) == Some(RpcResponseView { payload: p, ..m }),
{
    let e = Seq::<u8>::empty();
    let b = bytes_field(4, p);
    if p.len() > 0 {
        lemma_bytes_field_round_trip(4, p, e);
        assert(b + e =~= b);
        assert(b.skip(b.len() as int) =~= e);
        assert(decode_response_from(e, RpcResponseView { payload: p, ..m }) == Some(
            RpcResponseView { payload: p, ..m },
        ));
    } else {
        assert(p =~= m.payload);
        assert(b.len() == 0);
    }
}

/// Decoding the encoding of a request gives the request back.
#[verifier::rlimit(40)]
pub proof fn lemma_request_round_trip(m: RpcRequestView)
    requires
        m.payload.len() <= u64::MAX,
    ensures
        decode_request_spec(request_bytes(m)) == Some(m),
{
    let b5 = bytes_field(5, m.payload);
    let s4 = uint_field(4, m.flags as nat) + b5;
    let s3 = uint_field(3, m.deadline as nat) + s4;
    let s2 = uint_field(2, m.method as nat) + s3;
    let m0 = empty_request();
    let m1 = RpcRequestView { request_id: m.request_id, ..m0 };
    let m2 = RpcRequestView { method: m.method, ..m1 };
    let m3 = RpcRequestView { deadline: m.deadline, ..m2 };
    let m4 = RpcRequestView { flags: m.flags, ..m3 };
    lemma_request_uint_step(1, m.request_id as u64, s2, m0);
    assert(decode_request_from(request_bytes(m), m0) == decode_request_from(s2, m1));
    lemma_request_uint_step(2, m.method as u64, s3, m1);
    assert(decode_request_from(s2, m1) == decode_request_from(s3, m2));
    lemma_request_uint_step(3, m.deadline, s4, m2);
    assert(decode_request_from(s3, m2) == decode_request_from(s4, m3));
    lemma_request_uint_step(4, m.flags as u64, b5, m3);
    assert(decode_request_from(s4, m3) == decode_request_from(b5, m4));
    lemma_request_payload_step(m.payload, m4);
    assert(RpcRequestView { payload: m.payload, ..m4 } == m);
}

/// Decoding the encoding of a response gives the response back.
pub proof fn lemma_response_round_trip(m: RpcResponseView)
    requires
        m.payload.len() <= u64::MAX,
    ensures
        decode_response_spec(response_bytes(m)) == Some(m),
{
    let b4 = bytes_field(4, m.payload);
    let s3 = uint_field(3, m.flags as nat) + b4;
    let s2 = uint_field(2, m.status as nat) + s3;
    let m0 = empty_response();
    let m1 = RpcResponseView { request_id: m.request_id, ..m0 };
    let m2 = RpcResponseView { status: m.status, ..m1 };
    let m3 = RpcResponseView { flags: m.flags, ..m2 };
    lemma_response_uint_step(1, m.request_id as u64, s2, m0);
    assert(decode_response_from(response_bytes(m), m0) == decode_response_from(s2, m1));
    lemma_response_uint_step(2, m.status as u64, s3, m1);
    assert(decode_response_from(s2, m1) == decode_response_from(s3, m2));
    lemma_response_uint_step(3, m.flags as u64, b4, m2);
    assert(decode_response_from(s3, m2) == decode_response_from(b4, m3));
    lemma_response_payload_step(m.payload, m3);
    assert(RpcResponseView { payload: m.payload, ..m3 } == m);
}

impl RpcRequest {
    /// The protobuf encoding of this request.
    pub fn to_encoded_bytes(&self) -> (r: Vec<u8>)
        ensures
            r@ == request_bytes(self@),
    {
        let mut out: Vec<u8> = Vec::new();
        put_uint_field(1, self.request_id as u64, &mut out);
        put_uint_field(2, self.method as u64, &mut out);
        put_uint_field(3, self.deadline, &mut out);
        put_uint_field(4, self.flags as u64, &mut out);
        put_bytes_field(5, self.payload.as_slice(), &mut out);
        assert(out@ =~= request_bytes(self@));
        out
    }

    /// Decodes a request from its protobuf encoding.
    pub fn decode(buf: &[u8]) -> (r: Result<RpcRequest, DecodeError>)
        ensures
            match decode_request_spec(buf@) {
                Some(m) => r is Ok && r.unwrap()@ == m,
                None => r is Err,
            },
    {
        let mut request_id: u32 = 0;
        let mut method: u32 = 0;
        let mut deadline: u64 = 0;
        let mut flags: u32 = 0;
        let mut payload: Vec<u8> = Vec::new();
        let mut pos: usize = 0;
        let blen: usize = buf.len();
        assert(buf@.skip(0) =~= buf@);
        assert(payload@ =~= Seq::<u8>::empty());
        while pos < blen
            invariant
                blen == buf@.len(),
                pos <= blen,
                decode_request_spec(buf@) == decode_request_from(
                    buf@.skip(pos as int),
                    RpcRequestView { request_id, method, deadline, flags, payload: payload@ },
                ),
            decreases blen - pos,
        {
            proof {
                lemma_parse_field_bounds(buf@.skip(pos as int));
            }
            let field = read_field(buf, pos);
            if field.is_none() {
                return Err(DecodeError);
            }
            let (f, v, next) = field.unwrap();
            assert(buf@.skip(next as int) =~= buf@.skip(pos as int).skip(next - pos));
            if 1 <= f && f <= 4 {
                match v {
                    FieldValue::Varint(x) => {
                        let low: u32 = (x % 0x1_0000_0000) as u32;
                        if f == 1 {
                            request_id = low;
                        } else if f == 2 {
                            method = low;
                        } else if f == 3 {
                            deadline = x;
                        } else {
                            flags = low;
                        }
                    },
                    _ => {
                        return Err(DecodeError);
                    },
                }
            } else if f == 5 {
                match v {
                    FieldValue::Bytes(lo, hi) => {
                        payload = slice_to_vec(slice_subrange(buf, lo, hi));
                    },
                    _ => {
                        return Err(DecodeError);
                    },
                }
            }
            pos = next;
        }
        assert(buf@.skip(pos as int).len() == 0);
        Ok(RpcRequest { request_id, method, deadline, flags, payload })
    }
}

impl RpcResponse {
    /// The protobuf encoding of this response.
    pub fn to_encoded_bytes(&self) -> (r: Vec<u8>)
        ensures
            r@ == response_bytes(self@),
    {
        let mut out: Vec<u8> = Vec::new();
        put_uint_field(1, self.request_id as u64, &mut out);
        put_uint_field(2, self.status as u64, &mut out);
        put_uint_field(3, self.flags as u64, &mut out);
        put_bytes_field(4, self.payload.as_slice(), &mut out);
        assert(out@ =~= response_bytes(self@));
        out
    }

    /// Decodes a response from its protobuf encoding.
    pub fn decode(buf: &[u8]) -> (r: Result<RpcResponse, DecodeError>)
        ensures
            match decode_response_spec(buf@) {
                Some(m) => r is Ok && r.unwrap()@ == m,
                None => r is Err,
            },
    {
        let mut request_id: u32 = 0;
        let mut status: u32 = 0;
        let mut flags: u32 = 0;
        let mut payload: Vec<u8> = Vec::new();
        let mut pos: usize = 0;
        let blen: usize = buf.len();
        assert(buf@.skip(0) =~= buf@);
        assert(payload@ =~= Seq::<u8>::empty());
        while pos < blen
            invariant
                blen == buf@.len(),
                pos <= blen,
                decode_response_spec(buf@) == decode_response_from(
                    buf@.skip(pos as int),
                    RpcResponseView { request_id, status, flags, payload: payload@ },
                ),
            decreases blen - pos,
        {
            proof {
                lemma_parse_field_bounds(buf@.skip(pos as int));
            }
            let field = read_field(buf, pos);
            if field.is_none() {
                return Err(DecodeError);
            }
            let (f, v, next) = field.unwrap();
            assert(buf@.skip(next as int) =~= buf@.skip(pos as int).skip(next - pos));
            if 1 <= f && f <= 3 {
                match v {
                    FieldValue::Varint(x) => {
                        let low: u32 = (x % 0x1_0000_0000) as u32;
                        if f == 1 {
                            request_id = low;
                        } else if f == 2 {
                            status = low;
                        } else {
                            flags = low;
                        }
                    },
                    _ => {
                        return Err(DecodeError);
                    },
                }
            } else if f == 4 {
                match v {
                    FieldValue::Bytes(lo, hi) => {
                        payload = slice_to_vec(slice_subrange(buf, lo, hi));
                    },
                    _ => {
                        return Err(DecodeError);
                    },
                }
            }
            pos = next;
        }
        assert(buf@.skip(pos as int).len() == 0);
        Ok(RpcResponse { request_id, status, flags, payload })
    }
}

} // verus!
