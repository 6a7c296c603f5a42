//! Splitting a response whose payload is too large for one message into
//! several messages that share its request id.
use vstd::prelude::*;
use vstd::slice::{slice_subrange, slice_to_vec};

use crate::message::{has_fin, RpcResponse, RpcResponseView};

verus! {

/// The largest frame, in bytes, that the server reads or writes.
pub const RPC_MAX_FRAME_SIZE: usize = 3 * 1024 * 1024;

/// The largest payload, in bytes, that one response message carries.
pub const RPC_CHUNK_SIZE: usize = 256 * 1024;

/// How many messages a payload of `len` bytes takes: one when empty.
pub open spec fn chunk_count(len: nat) -> nat {
    if len == 0 {
        1
    } else {
        ((len + RPC_CHUNK_SIZE - 1) / (RPC_CHUNK_SIZE as int)) as nat
    }
}

/// The payload of the `i`-th message: the `i`-th run of `RPC_CHUNK_SIZE`
/// bytes, cut short at the end of `p`.
pub open spec fn chunk_payload(p: Seq<u8>, i: int) -> Seq<u8> {
    let start = i * RPC_CHUNK_SIZE;
    let end = if start + RPC_CHUNK_SIZE <= p.len() {
        start + RPC_CHUNK_SIZE
    } else {
        p.len() as int
    };
    p.subrange(start, end)
}

/// `flags` without the `FIN` bit.
pub open spec fn without_fin(flags: u32) -> u32 {
    if has_fin(flags) {
        (flags - 1) as u32
    } else {
        flags
    }
}

/// The messages that carry `m`: each has its request id and status; only
/// the last keeps its `FIN` bit.
pub open spec fn chunked(m: RpcResponseView) -> Seq<RpcResponseView> {
    let n = chunk_count(m.payload.len());
    Seq::new(
        n,
        |i: int|
            RpcResponseView {
                request_id: m.request_id,
                status: m.status,
                flags: if i + 1 == n {
                    m.flags
                } else {
                    without_fin(m.flags)
                },
                payload: chunk_payload(m.payload, i),
            },
    )
}

/// The payloads of a sequence of messages, joined in order.
pub open spec fn joined_payloads(msgs: Seq<RpcResponseView>) -> Seq<u8> {
    msgs.map_values(|r: RpcResponseView| r.payload).flatten()
}

proof fn lemma_chunk_bounds(len: nat, i: int)
    requires
        len > 0,
        0 <= i < chunk_count(len),
    ensures
        i * RPC_CHUNK_SIZE < len,
        (i + 1 == chunk_count(len)) <==> (i + 1) * RPC_CHUNK_SIZE >= len,
{
    let c = RPC_CHUNK_SIZE as int;
    let n = chunk_count(len) as int;
    assert(n == (len + c - 1) / c);
    assert(i * c < len && ((i + 1 == n) <==> (i + 1) * c >= len)) by (nonlinear_arith)
        requires
            c > 0,
            n == (len + c - 1) / c,
            0 <= i < n,
            len > 0,
    {
        assert((n - 1) * c < len) by (nonlinear_arith)
            requires c > 0, n == (len + c - 1) / c, len > 0;
        assert(n * c >= len) by (nonlinear_arith)
            requires c > 0, n == (len + c - 1) / c;
        assert(i * c <= (n - 1) * c) by (nonlinear_arith)
            requires c > 0, i <= n - 1;
        if i + 1 < n {
            assert((i + 1) * c <= (n - 1) * c) by (nonlinear_arith)
                requires c > 0, i + 1 <= n - 1;
        }
    }
}

/// Each message of a split payload carries at most `RPC_CHUNK_SIZE` bytes.
pub proof fn lemma_chunk_size_bound(m: RpcResponseView, i: int)
    requires
        0 <= i < chunked(m).len(),
    ensures
        chunked(m)[i].payload.len() <= RPC_CHUNK_SIZE,
        chunked(m)[i].request_id == m.request_id,
{
    if m.payload.len() > 0 {
        lemma_chunk_bounds(m.payload.len(), i);
    }
}

proof fn lemma_rejoin_prefix(m: RpcResponseView, k: int)
    requires
        m.payload.len() > 0,
        0 <= k <= chunked(m).len(),
    ensures
        k < chunked(m).len() ==> chunked(m).map_values(|r: RpcResponseView| r.payload).take(k).flatten()
            == m.payload.subrange(0, k * RPC_CHUNK_SIZE),
        k == chunked(m).len() ==> chunked(m).map_values(|r: RpcResponseView| r.payload).take(k).flatten()
            == m.payload,
    decreases k,
{
    broadcast use Seq::lemma_flatten_push;

    let p = m.payload;
    let c = RPC_CHUNK_SIZE as int;
    let parts = chunked(m).map_values(|r: RpcResponseView| r.payload);
    let n = chunked(m).len() as int;
    if k == 0 {
        assert(parts.take(0) =~= Seq::<Seq<u8>>::empty());
        assert(p.subrange(0, 0) =~= Seq::<u8>::empty());
    } else {
        let j = k - 1;
        lemma_rejoin_prefix(m, j);
        lemma_chunk_bounds(p.len(), j);
        assert(parts.take(k) =~= parts.take(j).push(parts[j]));
        assert(parts[j] == chunk_payload(p, j));
        assert(k * c == j * c + c) by (nonlinear_arith)
            requires k == j + 1;
        if k == n {
            assert(p.subrange(0, j * c) + chunk_payload(p, j) =~= p);
        } else {
            assert(k * c == j * c + c) by (nonlinear_arith)
                requires k == j + 1;
            assert(p.subrange(0, j * c) + chunk_payload(p, j) =~= p.subrange(0, k * c));
        }
    }
}

/// Joining the payloads of the messages that carry `m`, in order, gives
/// back the payload of `m` byte for byte.
pub proof fn lemma_chunks_rejoin(m: RpcResponseView)
    ensures
        joined_payloads(chunked(m)) == m.payload,
{
    broadcast use Seq::lemma_flatten_singleton;

    let parts = chunked(m).map_values(|r: RpcResponseView| r.payload);
    if m.payload.len() == 0 {
        assert(parts.len() == 1);
        assert(parts[0] =~= m.payload);
    } else {
        let n = chunked(m).len() as int;
        lemma_rejoin_prefix(m, n);
        assert(parts.take(n) =~= parts);
    }
}

/// A payload of exactly `RPC_CHUNK_SIZE` bytes goes in one message, which
/// keeps the flags of the response, `FIN` among them.
pub proof fn lemma_chunk_exact_size(m: RpcResponseView)
    requires
        m.payload.len() == RPC_CHUNK_SIZE,
    ensures
        chunked(m).len() == 1,
        chunked(m)[0].flags == m.flags,
        chunked(m)[0].payload == m.payload,
{
    assert(chunk_payload(m.payload, 0) =~= m.payload);
}

/// A payload of one byte more than `RPC_CHUNK_SIZE` goes in two messages;
/// only the second keeps the `FIN` bit.
pub proof fn lemma_chunk_one_over(m: RpcResponseView)
    requires
        m.payload.len() == RPC_CHUNK_SIZE + 1,
    ensures
        chunked(m).len() == 2,
        !has_fin(chunked(m)[0].flags),
        chunked(m)[1].flags == m.flags,
        chunked(m)[0].payload.len() == RPC_CHUNK_SIZE,
        chunked(m)[1].payload.len() == 1,
{
}

proof fn lemma_chunk_count_exec(len: int, n: int)
    requires
        len >= 0,
        n == (if len == 0 {
            1
        } else if len % (RPC_CHUNK_SIZE as int) == 0 {
            len / (RPC_CHUNK_SIZE as int)
        } else {
            len / (RPC_CHUNK_SIZE as int) + 1
        }),
    ensures
        n == chunk_count(len as nat),
{
    let c = RPC_CHUNK_SIZE as int;
    if len > 0 {
        assert(len == (len / c) * c + len % c) by (nonlinear_arith)
            requires c > 0;
        if len % c == 0 {
            assert((len + c - 1) / c == len / c) by (nonlinear_arith)
                requires c > 0, len == (len / c) * c, len > 0;
        } else {
            assert((len + c - 1) / c == len / c + 1) by (nonlinear_arith)
                requires c > 0, len == (len / c) * c + len % c, 0 < len % c < c;
        }
    }
}

/// Splits `msg` into the messages that carry it: runs of `RPC_CHUNK_SIZE`
/// bytes sharing its request id and status, where only the last keeps the
/// `FIN` bit.
pub fn chunk_response(msg: &RpcResponse) -> (r: Vec<RpcResponse>)
    ensures
        r@.len() == chunked(msg@).len(),
        forall|i: int| 0 <= i < r@.len() ==> #[trigger] r@[i]@ == chunked(msg@)[i],
{
    let len: usize = msg.payload.len();
    let c: usize = RPC_CHUNK_SIZE;
    let n: usize = if len == 0 {
        1
    } else if len % c == 0 {
        len / c
    } else {
        len / c + 1
    };
    proof {
        lemma_chunk_count_exec(len as int, n as int);
    }
    let ghost target = chunked(msg@);
    let clear: u32 = if msg.flags % 2 == 1 {
        msg.flags - 1
    } else {
        msg.flags
    };
    let mut out: Vec<RpcResponse> = Vec::new();
    let mut i: usize = 0;
    let mut start: usize = 0;
    while i < n
        invariant
            n == target.len(),
            target == chunked(msg@),
            len == msg.payload@.len(),
            c == RPC_CHUNK_SIZE,
            clear == without_fin(msg.flags),
            i <= n,
            i < n ==> start == i * c,
            out@.len() == i,
            forall|j: int| 0 <= j < i ==> #[trigger] out@[j]@ == target[j],
        decreases n - i,
    {
        proof {
            if len > 0 {
                lemma_chunk_bounds(len as nat, i as int);
                assert(start < len);
            } else {
                assert(i == 0);
                assert(start == 0);
            }
        }
        let end: usize = if len - start >= c {
            start + c
        } else {
            len
        };
        let piece = slice_to_vec(slice_subrange(msg.payload.as_slice(), start, end));
        let flags: u32 = if i + 1 == n {
            msg.flags
        } else {
            clear
        };
        let part = RpcResponse { request_id: msg.request_id, status: msg.status, flags, payload: piece };
        assert(part@ == target[i as int]);
        out.push(part);
        i = i + 1;
        if i < n {
            assert(start + c == i * c) by (nonlinear_arith)
                requires start == (i - 1) * c;
            start = start + c;
        }
    }
    out
}

} // verus!
