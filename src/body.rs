//! One message of a service's response body.
use vstd::prelude::*;

verus! {

/// One message of a response body: its bytes, if any, and whether it is
/// the last message of the body.
#[derive(Debug, Clone)]
pub struct BodyBytes {
    pub bytes: Option<Vec<u8>>,
    pub is_finished: bool,
}

/// The bytes of a body message; a message without bytes has none.
pub open spec fn body_payload(b: BodyBytes) -> Seq<u8> {
    match b.bytes {
        Some(v) => v@,
        None => Seq::empty(),
    }
}

impl BodyBytes {
    /// A body message with the given bytes.
    pub fn new(bytes: Vec<u8>, is_finished: bool) -> (r: BodyBytes)
        ensures
            body_payload(r) == bytes@,
            r.is_finished == is_finished,
    {
        BodyBytes { bytes: Some(bytes), is_finished }
    }

    /// The number of bytes the message carries.
    pub fn len(&self) -> (r: usize)
        ensures
            r == body_payload(*self).len(),
    {
        match &self.bytes {
            Some(v) => v.len(),
            None => 0,
        }
    }

    /// Whether this is the last message of the body.
    pub fn is_finished(&self) -> (r: bool)
        ensures
            r == self.is_finished,
    {
        self.is_finished
    }

    /// The bytes of the message; empty where it has none.
    pub fn into_bytes(self) -> (r: Vec<u8>)
        ensures
            r@ == body_payload(self),
    {
        match self.bytes {
            Some(v) => v,
            None => Vec::new(),
        }
    }
}

} // verus!
