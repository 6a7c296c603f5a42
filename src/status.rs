//! Status codes carried by responses, and the status value a service
//! returns on failure.
use vstd::prelude::*;

verus! {

/// The status code of a response. `Success` is the only code of value zero.
#[derive(Debug, Clone, Copy, PartialEq, Eq, Structural)]
pub enum RpcStatusCode {
    Success,
    UnsupportedMethod,
    NotImplemented,
    BadRequest,
    Timeout,
    NotFound,
    HandshakeDenied,
    General,
    ProtocolError,
    Forbidden,
}

/// The wire value of each status code.
pub open spec fn status_code_value(c: RpcStatusCode) -> u32 {
    match c {
        RpcStatusCode::Success => 0,
        RpcStatusCode::UnsupportedMethod => 1,
        RpcStatusCode::NotImplemented => 2,
        RpcStatusCode::BadRequest => 3,
        RpcStatusCode::Timeout => 4,
        RpcStatusCode::NotFound => 5,
        RpcStatusCode::HandshakeDenied => 6,
        RpcStatusCode::General => 7,
        RpcStatusCode::ProtocolError => 8,
        RpcStatusCode::Forbidden => 9,
    }
}

impl RpcStatusCode {
    /// The wire value of this code.
    pub fn as_u32(self) -> (r: u32)
        ensures
            r == status_code_value(self),
    {
        match self {
            RpcStatusCode::Success => 0,
            RpcStatusCode::UnsupportedMethod => 1,
            RpcStatusCode::NotImplemented => 2,
            RpcStatusCode::BadRequest => 3,
            RpcStatusCode::Timeout => 4,
            RpcStatusCode::NotFound => 5,
            RpcStatusCode::HandshakeDenied => 6,
            RpcStatusCode::General => 7,
            RpcStatusCode::ProtocolError => 8,
            RpcStatusCode::Forbidden => 9,
        }
    }

    /// The code of a wire value; values with no code read as `General`.
    pub fn from_u32(v: u32) -> (r: RpcStatusCode)
        ensures
            v <= 9 ==> status_code_value(r) == v,
            v > 9 ==> r == RpcStatusCode::General,
    {
        match v {
            0 => RpcStatusCode::Success,
            1 => RpcStatusCode::UnsupportedMethod,
            2 => RpcStatusCode::NotImplemented,
            3 => RpcStatusCode::BadRequest,
            4 => RpcStatusCode::Timeout,
            5 => RpcStatusCode::NotFound,
            6 => RpcStatusCode::HandshakeDenied,
            7 => RpcStatusCode::General,
            8 => RpcStatusCode::ProtocolError,
            9 => RpcStatusCode::Forbidden,
            _ => RpcStatusCode::General,
        }
    }

    /// Whether this is the `Success` code.
    pub fn is_ok(self) -> (r: bool)
        ensures
            r <==> status_code_value(self) == 0,
    {
        match self {
            RpcStatusCode::Success => true,
            _ => false,
        }
    }
}

/// A status: a code, and details for a human reader.
#[derive(Debug, Clone)]
pub struct RpcStatus {
    pub code: RpcStatusCode,
    pub details: Vec<u8>,
}

impl RpcStatus {
    /// The `Success` status, without details.
    pub fn ok() -> (r: RpcStatus)
        ensures
            r.code == RpcStatusCode::Success,
            r.details@.len() == 0,
    {
        RpcStatus { code: RpcStatusCode::Success, details: Vec::new() }
    }

    /// A `BadRequest` status with the given details.
    pub fn bad_request(details: Vec<u8>) -> (r: RpcStatus)
        ensures
            r.code == RpcStatusCode::BadRequest,
            r.details@ == details@,
    {
        RpcStatus { code: RpcStatusCode::BadRequest, details }
    }

    /// The wire value of this status's code.
    pub fn as_code(&self) -> (r: u32)
        ensures
            r == status_code_value(self.code),
    {
        self.code.as_u32()
    }

    /// Whether the code is `Success`.
    pub fn is_ok(&self) -> (r: bool)
        ensures
            r <==> self.code == RpcStatusCode::Success,
    {
        self.code.is_ok()
    }

    /// The details, as the payload of an error response.
    pub fn to_details_bytes(&self) -> (r: Vec<u8>)
        ensures
            r@ == self.details@,
    {
        vstd::slice::slice_to_vec(self.details.as_slice())
    }
}

} // verus!
