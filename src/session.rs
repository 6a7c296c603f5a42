//! The decisions of one session: what to do with each inbound frame, with
//! what the service returned, and with each message of a response body.
use vstd::prelude::*;
use vstd::slice::slice_to_vec;
use vstd::string::StringSliceAdditionalSpecFns;

use crate::body::{body_payload, BodyBytes};
use crate::chunking::{chunk_response, chunked};
use crate::config::{deadline_below, is_deadline_below, RpcServerBuilder};
use crate::error::RpcServerError;
use crate::message::{
    decode_request_spec, has_ack, has_fin, is_ack, is_fin, response_bytes, RpcRequest, RpcRequestView,
    RpcResponse, RpcResponseView, FLAG_ACK, FLAG_FIN,
};
use crate::status::{status_code_value, RpcStatus, RpcStatusCode};
use crate::text::{chars_to_string, decimal, hex_text, push_decimal, push_hex, str_to_chars};

verus! {

/// A service that answers for a protocol of a fixed name.
pub trait NamedProtocolService {
    /// The name of the protocol.
    const PROTOCOL_NAME: &'static [u8];

    /// The name of the protocol this service answers for.
    fn as_protocol_name(&self) -> &'static [u8] {
        Self::PROTOCOL_NAME
    }
}

/// The details sent with a response to a request whose deadline is too short.
pub const INVALID_DEADLINE_DETAILS: &'static str = "Invalid deadline. The deadline MUST be at least the minimum client deadline.";

/// The text of a protocol name read as UTF-8, with each invalid sequence
/// replaced by U+FFFD.
pub uninterp spec fn utf8_lossy_text(b: Seq<u8>) -> Seq<char>;

/// Relies on `String::from_utf8_lossy`: the text depends on the bytes alone.
#[verifier::external_body]
fn utf8_lossy(bytes: &[u8]) -> (r: String)
    ensures
        r@ == utf8_lossy_text(bytes@),
{
    String::from_utf8_lossy(bytes).into_owned()
}

/// The answer to a request whose deadline is shorter than the minimum.
pub open spec fn bad_deadline_response(request_id: u32) -> RpcResponseView {
    RpcResponseView {
        request_id,
        status: status_code_value(RpcStatusCode::BadRequest),
        flags: FLAG_FIN,
        payload: INVALID_DEADLINE_DETAILS.spec_bytes(),
    }
}

/// The answer to a request with the `ACK` flag.
pub open spec fn ack_response(request_id: u32) -> RpcResponseView {
    RpcResponseView {
        request_id,
        status: status_code_value(RpcStatusCode::Success),
        flags: FLAG_ACK,
        payload: Seq::empty(),
    }
}

/// The response message for one item of a body: a body message, flagged
/// `FIN` where it is the last, or an error status, always flagged `FIN`.
pub open spec fn into_response_spec(request_id: u32, item: Result<BodyBytes, RpcStatus>) -> RpcResponseView {
    match item {
        Ok(b) => RpcResponseView {
            request_id,
            status: status_code_value(RpcStatusCode::Success),
            flags: if b.is_finished {
                FLAG_FIN
            } else {
                0
            },
            payload: body_payload(b),
        },
        Err(s) => RpcResponseView {
            request_id,
            status: status_code_value(s.code),
            flags: FLAG_FIN,
            payload: s.details@,
        },
    }
}

/// The response message for one item of a body.
pub fn into_response(request_id: u32, item: Result<BodyBytes, RpcStatus>) -> (r: RpcResponse)
    ensures
        r@ == into_response_spec(request_id, item),
{
    match item {
        Ok(msg) => {
            let flags: u32 = if msg.is_finished() {
                FLAG_FIN
            } else {
                0
            };
            RpcResponse {
                request_id,
                status: RpcStatusCode::Success.as_u32(),
                flags,
                payload: msg.into_bytes(),
            }
        },
        Err(err) => RpcResponse {
            request_id,
            status: err.as_code(),
            flags: FLAG_FIN,
            payload: err.to_details_bytes(),
        },
    }
}

/// A call of the service that a request asks for.
#[derive(Debug)]
pub struct ServiceCall {
    pub request_id: u32,
    pub method: u32,
    /// The client's deadline, in whole seconds.
    pub deadline: u64,
    pub payload: Vec<u8>,
}

/// What to do with a request.
#[derive(Debug)]
pub enum RequestAction {
    /// Send this one response, then read the next request.
    Reply(RpcResponse),
    /// Send nothing and read the next request.
    Ignore,
    /// Call the service.
    Call(ServiceCall),
}

/// What to do with request `m`, under a minimum deadline of `min`: a
/// deadline below it is answered with `BadRequest` and `FIN`; then a `FIN`
/// from the client is passed over; then an `ACK` is answered at once; and
/// anything else goes to the service.
pub open spec fn request_action_matches(a: RequestAction, m: RpcRequestView, config: RpcServerBuilder) -> bool {
    if deadline_below(m.deadline, config.spec_min_deadline()) {
        a matches RequestAction::Reply(resp) && resp@ == bad_deadline_response(m.request_id)
    } else if has_fin(m.flags) {
        a is Ignore
    } else if has_ack(m.flags) {
        a matches RequestAction::Reply(resp) && resp@ == ack_response(m.request_id)
    } else {
        a matches RequestAction::Call(c) && c.request_id == m.request_id && c.method == m.method
            && c.deadline == m.deadline && c.payload@ == m.payload
    }
}

/// A request whose deadline is below the minimum gets exactly one answer:
/// a `BadRequest` response with `FIN` and the request's id; the service is
/// not called.
pub proof fn lemma_short_deadline_rejected(a: RequestAction, m: RpcRequestView, config: RpcServerBuilder)
    requires
        request_action_matches(a, m, config),
        deadline_below(m.deadline, config.spec_min_deadline()),
    ensures
        a matches RequestAction::Reply(resp) && resp@.request_id == m.request_id && resp@.status
            == status_code_value(RpcStatusCode::BadRequest) && has_fin(resp@.flags),
        !(a is Call),
{
}

/// A request with the `ACK` flag (and an admissible deadline, and no `FIN`)
/// gets exactly one answer: an `ACK`-flagged `Success` response with the
/// request's id; the service is not called.
pub proof fn lemma_ack_answered(a: RequestAction, m: RpcRequestView, config: RpcServerBuilder)
    requires
        request_action_matches(a, m, config),
        !deadline_below(m.deadline, config.spec_min_deadline()),
        !has_fin(m.flags),
        has_ack(m.flags),
    ensures
        a matches RequestAction::Reply(resp) && resp@.request_id == m.request_id && resp@.status
            == status_code_value(RpcStatusCode::Success) && has_ack(resp@.flags) && !has_fin(resp@.flags),
        !(a is Call),
{
}

/// What a poll of the inbound half gave while a response was streaming.
#[derive(Debug)]
pub enum InboundPoll {
    /// A frame arrived.
    Frame(Vec<u8>),
    /// Nothing is ready.
    Pending,
    /// Reading would block.
    WouldBlock,
    /// Reading failed.
    Failed,
    /// The client closed the substream.
    Closed,
}

/// What reading the next frame gave while waiting for a request.
#[derive(Debug)]
pub enum ReadOutcome {
    Frame(Vec<u8>),
    Failed,
    Ended,
}

/// The next step of a session waiting for a request.
#[derive(Debug)]
pub enum SessionStep {
    /// Act on the request, then read the next one.
    Handle(RequestAction),
    /// Close the substream and end the session with this result.
    Close(Result<(), RpcServerError>),
}

/// What the service call came to.
#[derive(Debug)]
pub enum ServiceOutcome {
    /// The service returned a body to stream.
    Body,
    /// The service failed with a status.
    Failed(RpcStatus),
    /// The service did not answer within the deadline.
    TimedOut,
}

/// The next step after the service call.
#[derive(Debug)]
pub enum ServiceStep {
    /// Stream the body.
    Stream,
    /// Send these encoded frames of the error response in order, then read
    /// the next request.
    Reply(Vec<Vec<u8>>),
    /// Count a missed deadline, send nothing, and read the next request.
    DeadlineExceeded,
}

/// What waiting for the next message of a response body gave.
#[derive(Debug)]
pub enum NextBody {
    Item(Result<BodyBytes, RpcStatus>),
    End,
    TimedOut,
}

/// The next step of a streaming response.
#[derive(Debug)]
pub enum StreamStep {
    /// Send these encoded frames in order, then go on streaming.
    Send(Vec<Vec<u8>>),
    /// The response is complete.
    Done,
    /// Count a missed deadline and stop streaming.
    DeadlineExceeded,
}

/// The context handed to the service with each request.
#[derive(Debug, Clone)]
pub struct RequestContext {
    pub request_id: u32,
    pub node_id: Vec<u8>,
}

/// The encoded frames that carry one item of a body: the item's response
/// message split into chunks, each encoded.
pub open spec fn item_frames_match(frames: Seq<Vec<u8>>, request_id: u32, item: Result<BodyBytes, RpcStatus>) -> bool {
    let msgs = chunked(into_response_spec(request_id, item));
    &&& frames.len() == msgs.len()
    &&& forall|i: int| 0 <= i < frames.len() ==> #[trigger] frames[i]@ == response_bytes(msgs[i])
}

/// Encodes the frames that carry one item of a response body.
pub fn item_frames(request_id: u32, item: Result<BodyBytes, RpcStatus>) -> (r: Vec<Vec<u8>>)
    ensures
        item_frames_match(r@, request_id, item),
{
    let resp = into_response(request_id, item);
    let parts = chunk_response(&resp);
    let ghost msgs = chunked(resp@);
    let mut out: Vec<Vec<u8>> = Vec::new();
    let mut i: usize = 0;
    while i < parts.len()
        invariant
            i <= parts@.len(),
            parts@.len() == msgs.len(),
            forall|j: int| 0 <= j < parts@.len() ==> #[trigger] parts@[j]@ == msgs[j],
            out@.len() == i,
            forall|j: int| 0 <= j < i ==> #[trigger] out@[j]@ == response_bytes(msgs[j]),
        decreases parts@.len() - i,
    {
        out.push(parts[i].to_encoded_bytes());
        i = i + 1;
    }
    out
}

/// The text that marks a session's log lines: its stream, its peer in
/// hexadecimal, and its protocol's name.
pub open spec fn logging_context_text(stream_id: u32, node_id: Seq<u8>, protocol: Seq<u8>) -> Seq<char> {
    "stream_id: "@ + decimal(stream_id as nat) + ", peer: "@ + hex_text(node_id) + ", protocol: "@
        + utf8_lossy_text(protocol)
}

/// Appends the characters of `s`.
fn push_str(s: &str, out: &mut Vec<char>)
    ensures
        final(out)@ == old(out)@ + s@,
{
    let mut chars = str_to_chars(s);
    out.append(&mut chars);
}

/// One session: a substream that passed the handshake, with the protocol
/// and peer it serves.
pub struct ActivePeerRpcService {
    config: RpcServerBuilder,
    protocol: Vec<u8>,
    node_id: Vec<u8>,
    stream_id: u32,
    logging_context_string: String,
}

impl ActivePeerRpcService {
    /// The log text matches the session's stream, peer and protocol.
    #[verifier::type_invariant]
    spec fn context_matches(&self) -> bool {
        self.logging_context_string@ == logging_context_text(self.stream_id, self.node_id@, self.protocol@)
    }

    /// The settings the session runs under.
    pub closed spec fn spec_config(&self) -> RpcServerBuilder {
        self.config
    }

    /// The protocol the session serves.
    pub closed spec fn spec_protocol(&self) -> Seq<u8> {
        self.protocol@
    }

    /// The peer at the other end.
    pub closed spec fn spec_node_id(&self) -> Seq<u8> {
        self.node_id@
    }

    /// The substream the session runs on.
    pub closed spec fn spec_stream_id(&self) -> u32 {
        self.stream_id
    }

    /// A session for `protocol` with peer `node_id` on substream
    /// `stream_id`.
    pub fn new(config: RpcServerBuilder, protocol: Vec<u8>, node_id: Vec<u8>, stream_id: u32) -> (r:
        ActivePeerRpcService)
        ensures
            r.spec_config() == config,
            r.spec_protocol() == protocol@,
            r.spec_node_id() == node_id@,
            r.spec_stream_id() == stream_id,
    {
        let mut text: Vec<char> = Vec::new();
        push_str("stream_id: ", &mut text);
        push_decimal(stream_id as u64, &mut text);
        push_str(", peer: ", &mut text);
        push_hex(node_id.as_slice(), &mut text);
        push_str(", protocol: ", &mut text);
        let name = utf8_lossy(protocol.as_slice());
        push_str(name.as_str(), &mut text);
        assert(text@ =~= logging_context_text(stream_id, node_id@, protocol@));
        let logging_context_string = chars_to_string(&text);
        ActivePeerRpcService { config, protocol, node_id, stream_id, logging_context_string }
    }

    /// The text that marks the session's log lines.
    pub fn logging_context_string(&self) -> (r: &String)
        ensures
            r@ == logging_context_text(self.spec_stream_id(), self.spec_node_id(), self.spec_protocol()),
    {
        proof {
            use_type_invariant(self);
        }
        &self.logging_context_string
    }

    /// The protocol name as text.
    pub fn protocol_name(&self) -> (r: String)
        ensures
            r@ == utf8_lossy_text(self.spec_protocol()),
    {
        utf8_lossy(self.protocol.as_slice())
    }

    /// The context for the service call of request `request_id`.
    pub fn create_request_context(&self, request_id: u32) -> (r: RequestContext)
        ensures
            r.request_id == request_id,
            r.node_id@ == self.spec_node_id(),
    {
        RequestContext { request_id, node_id: slice_to_vec(self.node_id.as_slice()) }
    }

    /// Decides what to do with an inbound frame: an undecodable one is a
    /// `DecodeError`; a request is answered, passed over or sent to the
    /// service as [`request_action_matches`] says.
    pub fn handle_request(&self, frame: &[u8]) -> (r: Result<RequestAction, RpcServerError>)
        ensures
            match decode_request_spec(frame@) {
                None => r matches Err(RpcServerError::DecodeError),
                Some(m) => r matches Ok(a) && request_action_matches(a, m, self.spec_config()),
            },
    {
        let req = match RpcRequest::decode(frame) {
            Ok(req) => req,
            Err(_) => {
                return Err(RpcServerError::DecodeError);
            },
        };
        let min = self.config.minimum_client_deadline();
        if is_deadline_below(req.deadline, &min) {
            let details = slice_to_vec(INVALID_DEADLINE_DETAILS.as_bytes());
            let status = RpcStatus::bad_request(details);
            let resp = RpcResponse {
                request_id: req.request_id,
                status: status.as_code(),
                flags: FLAG_FIN,
                payload: status.to_details_bytes(),
            };
            return Ok(RequestAction::Reply(resp));
        }
        if is_fin(req.flags) {
            return Ok(RequestAction::Ignore);
        }
        if is_ack(req.flags) {
            let resp = RpcResponse {
                request_id: req.request_id,
                status: RpcStatusCode::Success.as_u32(),
                flags: FLAG_ACK,
                payload: Vec::new(),
            };
            assert(resp@.payload =~= Seq::<u8>::empty());
            return Ok(RequestAction::Reply(resp));
        }
        Ok(
            RequestAction::Call(
                ServiceCall {
                    request_id: req.request_id,
                    method: req.method,
                    deadline: req.deadline,
                    payload: req.payload,
                },
            ),
        )
    }

    /// The next step of a session waiting for a request: a frame is acted
    /// on (an undecodable one closes the session with `DecodeError`); a
    /// failed read closes it with `Io`; the end of the stream closes it
    /// cleanly.
    pub fn next_step(&self, outcome: ReadOutcome) -> (r: SessionStep)
        ensures
            match outcome {
                ReadOutcome::Frame(f) => match decode_request_spec(f@) {
                    None => r matches SessionStep::Close(Err(RpcServerError::DecodeError)),
                    Some(m) => r matches SessionStep::Handle(a) && request_action_matches(a, m, self.spec_config()),
                },
                ReadOutcome::Failed => r matches SessionStep::Close(Err(RpcServerError::Io)),
                ReadOutcome::Ended => r matches SessionStep::Close(Ok(())),
            },
    {
        match outcome {
            ReadOutcome::Frame(f) => match self.handle_request(f.as_slice()) {
                Ok(a) => SessionStep::Handle(a),
                Err(e) => SessionStep::Close(Err(e)),
            },
            ReadOutcome::Failed => SessionStep::Close(Err(RpcServerError::Io)),
            ReadOutcome::Ended => SessionStep::Close(Ok(())),
        }
    }

    /// The step after the service call of request `request_id`: a body is
    /// streamed; a failure is answered with a response carrying its status
    /// and details, split into chunks like any response, the last flagged
    /// `FIN`; a missed deadline sends nothing.
    pub fn after_service_call(&self, request_id: u32, outcome: ServiceOutcome) -> (r: ServiceStep)
        ensures
            match outcome {
                ServiceOutcome::Body => r is Stream,
                ServiceOutcome::Failed(s) => r matches ServiceStep::Reply(frames) && item_frames_match(
                    frames@,
                    request_id,
                    Err(s),
                ),
                ServiceOutcome::TimedOut => r is DeadlineExceeded,
            },
    {
        match outcome {
            ServiceOutcome::Body => ServiceStep::Stream,
            ServiceOutcome::Failed(s) => ServiceStep::Reply(item_frames(request_id, Err(s))),
            ServiceOutcome::TimedOut => ServiceStep::DeadlineExceeded,
        }
    }

    /// Looks at what the client sent while a response was streaming: a
    /// `FIN` interrupts the stream; any other request, an undecodable
    /// frame, a failed read or a closed stream is an error; nothing ready
    /// lets the stream go on.
    pub fn check_interruptions(&self, poll: InboundPoll) -> (r: Result<(), RpcServerError>)
        ensures
            match poll {
                InboundPoll::Frame(f) => match decode_request_spec(f@) {
                    None => r matches Err(RpcServerError::UnexpectedIncomingMessageMalformed),
                    Some(m) => if has_fin(m.flags) {
                        r matches Err(RpcServerError::ClientInterruptedStream)
                    } else {
                        r matches Err(RpcServerError::UnexpectedIncomingMessage(q)) && q@ == m
                    },
                },
                InboundPoll::Pending | InboundPoll::WouldBlock => r is Ok,
                InboundPoll::Failed => r matches Err(RpcServerError::Io),
                InboundPoll::Closed => r matches Err(RpcServerError::StreamClosedByRemote),
            },
    {
        match poll {
            InboundPoll::Frame(f) => match RpcRequest::decode(f.as_slice()) {
                Err(_) => Err(RpcServerError::UnexpectedIncomingMessageMalformed),
                Ok(req) => {
                    if is_fin(req.flags) {
                        Err(RpcServerError::ClientInterruptedStream)
                    } else {
                        Err(RpcServerError::UnexpectedIncomingMessage(req))
                    }
                },
            },
            InboundPoll::Pending => Ok(()),
            InboundPoll::WouldBlock => Ok(()),
            InboundPoll::Failed => Err(RpcServerError::Io),
            InboundPoll::Closed => Err(RpcServerError::StreamClosedByRemote),
        }
    }

    /// Whether streaming goes on after the interruption check: it stops
    /// cleanly on a client `FIN` (`Ok(false)`), fails on any other error,
    /// and goes on otherwise (`Ok(true)`).
    pub fn continue_streaming(&self, check: Result<(), RpcServerError>) -> (r: Result<bool, RpcServerError>)
        ensures
            match check {
                Ok(()) => r matches Ok(true),
                Err(RpcServerError::ClientInterruptedStream) => r matches Ok(false),
                Err(e) => r == Err::<bool, RpcServerError>(e),
            },
    {
        match check {
            Ok(()) => Ok(true),
            Err(RpcServerError::ClientInterruptedStream) => Ok(false),
            Err(e) => Err(e),
        }
    }

    /// The next step of a streaming response for request `request_id`: an
    /// item of the body is sent as the frames that carry it; the end of the
    /// body completes the response; a missed deadline stops it.
    pub fn next_stream_step(&self, request_id: u32, next: NextBody) -> (r: StreamStep)
        ensures
            match next {
                NextBody::Item(item) => r matches StreamStep::Send(frames) && item_frames_match(
                    frames@,
                    request_id,
                    item,
                ),
                NextBody::End => r is Done,
                NextBody::TimedOut => r is DeadlineExceeded,
            },
    {
        match next {
            NextBody::Item(item) => StreamStep::Send(item_frames(request_id, item)),
            NextBody::End => StreamStep::Done,
            NextBody::TimedOut => StreamStep::DeadlineExceeded,
        }
    }
}

} // verus!
