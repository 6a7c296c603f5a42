//! Length-delimited framing: each frame is a four-byte big-endian length
//! followed by that many bytes, never more than the frame limit.
use vstd::prelude::*;
use vstd::slice::{slice_subrange, slice_to_vec};

use crate::chunking::RPC_MAX_FRAME_SIZE;

verus! {

/// The four big-endian bytes of `n`.
pub open spec fn be_u32_bytes(n: nat) -> Seq<u8> {
    seq![
        (n / 0x100_0000 % 0x100) as u8,
        (n / 0x1_0000 % 0x100) as u8,
        (n / 0x100 % 0x100) as u8,
        (n % 0x100) as u8,
    ]
}

/// The value of the first four bytes of `s`, read big-endian.
pub open spec fn be_u32_value(s: Seq<u8>) -> nat {
    (s[0] * 0x100_0000 + s[1] * 0x1_0000 + s[2] * 0x100 + s[3]) as nat
}

/// A frame as written: its length, then its bytes.
pub open spec fn frame_bytes(payload: Seq<u8>) -> Seq<u8> {
    be_u32_bytes(payload.len()) + payload
}

/// What reading a frame off the front of `s` gives: `Err` where the length
/// exceeds the limit, `Ok(None)` where the frame is not all there yet, and
/// else the payload with the number of bytes the frame takes.
pub open spec fn read_frame_spec(s: Seq<u8>) -> Result<Option<(Seq<u8>, nat)>, FrameError> {
    if s.len() < 4 {
        Ok(None)
    } else if be_u32_value(s) > RPC_MAX_FRAME_SIZE {
        Err(FrameError::TooLarge)
    } else if s.len() < 4 + be_u32_value(s) {
        Ok(None)
    } else {
        Ok(Some((s.subrange(4, 4 + be_u32_value(s) as int), 4 + be_u32_value(s))))
    }
}

/// A frame was larger than the frame limit.
#[derive(Debug, Clone, Copy, PartialEq, Eq, Structural)]
pub enum FrameError {
    TooLarge,
}

/// Frames `payload`; fails where it exceeds the frame limit, so that no
/// frame written exceeds it.
pub fn write_frame(payload: &[u8]) -> (r: Result<Vec<u8>, FrameError>)
    ensures
        r is Ok <==> payload@.len() <= RPC_MAX_FRAME_SIZE,
        r matches Ok(f) ==> f@ == frame_bytes(payload@),
{
    let len: usize = payload.len();
    if len > RPC_MAX_FRAME_SIZE {
        return Err(FrameError::TooLarge);
    }
    let n: u32 = len as u32;
    let mut out: Vec<u8> = Vec::new();
    out.push((n / 0x100_0000 % 0x100) as u8);
    out.push((n / 0x1_0000 % 0x100) as u8);
    out.push((n / 0x100 % 0x100) as u8);
    out.push((n % 0x100) as u8);
    let ghost head = out@;
    out.extend_from_slice(payload);
    assert(head =~= be_u32_bytes(len as nat));
    assert(out@ =~= frame_bytes(payload@));
    Ok(out)
}

/// Reads the frame at the front of `buf`, as [`read_frame_spec`] says.
pub fn read_frame(buf: &[u8]) -> (r: Result<Option<(Vec<u8>, usize)>, FrameError>)
    ensures
        match read_frame_spec(buf@) {
            Err(e) => r == Err::<Option<(Vec<u8>, usize)>, FrameError>(e),
            Ok(None) => r matches Ok(None),
            Ok(Some((p, n))) => r matches Ok(Some((v, m))) && v@ == p && m == n,
        },
{
    let blen: usize = buf.len();
    if blen < 4 {
        return Ok(None);
    }
    let len: u64 = (buf[0] as u64) * 0x100_0000 + (buf[1] as u64) * 0x1_0000 + (buf[2] as u64) * 0x100
        + (buf[3] as u64);
    if len > RPC_MAX_FRAME_SIZE as u64 {
        return Err(FrameError::TooLarge);
    }
    let end: usize = 4 + len as usize;
    if blen < end {
        return Ok(None);
    }
    Ok(Some((slice_to_vec(slice_subrange(buf, 4, end)), end)))
}

/// Reading back a written frame, with anything after it, gives its payload
/// and its length on the wire.
pub proof fn lemma_frame_round_trip(payload: Seq<u8>, rest: Seq<u8>)
    requires
        payload.len() <= RPC_MAX_FRAME_SIZE,
    ensures
        read_frame_spec(frame_bytes(payload) + rest) == Ok::<Option<(Seq<u8>, nat)>, FrameError>(
            Some((payload, 4 + payload.len())),
        ),
{
    let s = frame_bytes(payload) + rest;
    let n = payload.len();
    assert(be_u32_value(s) == n) by {
        assert(s[0] == (n / 0x100_0000 % 0x100) as u8);
        assert(s[1] == (n / 0x1_0000 % 0x100) as u8);
        assert(s[2] == (n / 0x100 % 0x100) as u8);
        assert(s[3] == (n % 0x100) as u8);
        assert((n / 0x100_0000 % 0x100) * 0x100_0000 + (n / 0x1_0000 % 0x100) * 0x1_0000 + (n / 0x100
            % 0x100) * 0x100 + n % 0x100 == n) by (nonlinear_arith)
            requires
                n <= RPC_MAX_FRAME_SIZE,
        ;
    }
    assert(s.subrange(4, 4 + n as int) =~= payload);
}

} // verus!
