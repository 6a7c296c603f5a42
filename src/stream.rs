//! Laws of a streamed response: the frames of a body, in order, and what
//! holds of them.
use vstd::prelude::*;

use crate::body::BodyBytes;
use crate::chunking::{chunked, lemma_chunk_size_bound, without_fin, RPC_MAX_FRAME_SIZE};
use crate::message::{has_fin, response_bytes, RpcResponseView, FLAG_FIN};
use crate::session::{into_response_spec, item_frames_match};
use crate::status::RpcStatus;
use crate::varint::{lemma_varint_round_trip, varint_bytes};
use crate::wire::uint_field;

verus! {

/// The messages sent for a body, item after item, each split into chunks.
pub open spec fn body_stream(request_id: u32, items: Seq<Result<BodyBytes, RpcStatus>>) -> Seq<RpcResponseView> {
    items.map_values(|it: Result<BodyBytes, RpcStatus>| chunked(into_response_spec(request_id, it))).flatten()
}

/// An item that is a body message, not the last one.
pub open spec fn is_open_item(it: Result<BodyBytes, RpcStatus>) -> bool {
    it matches Ok(b) && !b.is_finished
}

/// A body that ends as it should: every item but the last is a body
/// message that is not the last, and the last is the final body message or
/// an error.
pub open spec fn body_terminates(items: Seq<Result<BodyBytes, RpcStatus>>) -> bool {
    &&& items.len() > 0
    &&& forall|i: int| 0 <= i < items.len() - 1 ==> is_open_item(#[trigger] items[i])
    &&& items.last() matches Ok(b) ==> b.is_finished
}

proof fn lemma_open_items(request_id: u32, items: Seq<Result<BodyBytes, RpcStatus>>)
    requires
        forall|i: int| 0 <= i < items.len() ==> is_open_item(#[trigger] items[i]),
    ensures
        forall|j: int| 0 <= j < body_stream(request_id, items).len() ==> {
            &&& #[trigger] body_stream(request_id, items)[j].request_id == request_id
            &&& !has_fin(body_stream(request_id, items)[j].flags)
        },
    decreases items.len(),
{
    broadcast use Seq::lemma_flatten_push;

    if items.len() > 0 {
        let init = items.drop_last();
        let f = |it: Result<BodyBytes, RpcStatus>| chunked(into_response_spec(request_id, it));
        lemma_open_items(request_id, init);
        assert(items.map_values(f) =~= init.map_values(f).push(f(items.last())));
        let a = body_stream(request_id, init);
        let b = f(items.last());
        assert(body_stream(request_id, items) == a + b);
        assert forall|j: int| 0 <= j < body_stream(request_id, items).len() implies {
            &&& #[trigger] body_stream(request_id, items)[j].request_id == request_id
            &&& !has_fin(body_stream(request_id, items)[j].flags)
        } by {
            if j >= a.len() {
                let k = j - a.len();
                assert(is_open_item(items[items.len() - 1]));
                assert(b[k].flags == 0 || b[k].flags == without_fin(0));
            }
        }
    }
}

/// For a body that ends as it should, every message sent bears the
/// request's id, and exactly one carries `FIN`: the last.
pub proof fn lemma_fin_once(request_id: u32, items: Seq<Result<BodyBytes, RpcStatus>>)
    requires
        body_terminates(items),
    ensures
        body_stream(request_id, items).len() > 0,
        forall|j: int| 0 <= j < body_stream(request_id, items).len() ==> {
            &&& #[trigger] body_stream(request_id, items)[j].request_id == request_id
            &&& (has_fin(body_stream(request_id, items)[j].flags) <==> j == body_stream(request_id, items).len() - 1)
        },
{
    broadcast use Seq::lemma_flatten_push;

    let init = items.drop_last();
    let f = |it: Result<BodyBytes, RpcStatus>| chunked(into_response_spec(request_id, it));
    assert forall|i: int| 0 <= i < init.len() implies is_open_item(#[trigger] init[i]) by {
        assert(init[i] == items[i]);
    }
    lemma_open_items(request_id, init);
    assert(items =~= init.push(items.last()));
    assert(items.map_values(f) =~= init.map_values(f).push(f(items.last())));
    let a = body_stream(request_id, init);
    let m = into_response_spec(request_id, items.last());
    let b = chunked(m);
    assert(body_stream(request_id, items) == a + b);
    assert(m.flags == FLAG_FIN);
    assert(b.len() > 0);
    assert forall|j: int| 0 <= j < body_stream(request_id, items).len() implies {
        &&& #[trigger] body_stream(request_id, items)[j].request_id == request_id
        &&& (has_fin(body_stream(request_id, items)[j].flags) <==> j == body_stream(request_id, items).len() - 1)
    } by {
        if j >= a.len() {
            let k = j - a.len();
            assert(b[k] == chunked(m)[k]);
            if k + 1 == b.len() {
                assert(b[k].flags == FLAG_FIN);
            } else {
                assert(b[k].flags == without_fin(FLAG_FIN));
            }
        }
    }
}

/// The messages sent for an item of a body set no flag bit but `FIN`.
pub proof fn lemma_item_flags_defined(request_id: u32, item: Result<BodyBytes, RpcStatus>)
    ensures
        forall|i: int| 0 <= i < chunked(into_response_spec(request_id, item)).len() ==> {
            let f = #[trigger] chunked(into_response_spec(request_id, item))[i].flags;
            f == 0 || f == FLAG_FIN
        },
{
}

proof fn lemma_uint_field_len(field: nat, v: u64)
    requires
        1 <= field < 16,
    ensures
        uint_field(field, v as nat).len() <= 11,
{
    lemma_varint_round_trip(v, Seq::empty());
    assert(varint_bytes(field * 8).len() == 1);
}

/// A response message takes at most 44 bytes more than its payload.
pub proof fn lemma_response_bytes_len(m: RpcResponseView)
    requires
        m.payload.len() <= u64::MAX,
    ensures
        response_bytes(m).len() <= m.payload.len() + 44,
{
    lemma_uint_field_len(1, m.request_id as u64);
    lemma_uint_field_len(2, m.status as u64);
    lemma_uint_field_len(3, m.flags as u64);
    if m.payload.len() > 0 {
        lemma_varint_round_trip(m.payload.len() as u64, Seq::empty());
        assert(varint_bytes(4 * 8 + 2).len() == 1);
    }
}

/// No frame sent for an item of a body exceeds the frame limit.
pub proof fn lemma_frames_fit(frames: Seq<Vec<u8>>, request_id: u32, item: Result<BodyBytes, RpcStatus>)
    requires
        item_frames_match(frames, request_id, item),
    ensures
        forall|i: int| 0 <= i < frames.len() ==> #[trigger] frames[i]@.len() <= RPC_MAX_FRAME_SIZE,
{
    let m = into_response_spec(request_id, item);
    assert forall|i: int| 0 <= i < frames.len() implies #[trigger] frames[i]@.len() <= RPC_MAX_FRAME_SIZE by {
        lemma_chunk_size_bound(m, i);
        lemma_response_bytes_len(chunked(m)[i]);
    }
}

} // verus!
