use tari_rpc_core::body::BodyBytes;
use tari_rpc_core::bounded_executor::{BoundedExecutor, OptionallyBoundedExecutor};
use tari_rpc_core::chunking::{chunk_response, RPC_CHUNK_SIZE, RPC_MAX_FRAME_SIZE};
use tari_rpc_core::config::{RpcServerBuilder, TimeSpan};
use tari_rpc_core::error::{HandshakeError, RpcServerError};
use tari_rpc_core::framing::{read_frame, write_frame, FrameError};
use tari_rpc_core::handshake::{negotiate_version, HandshakeRejectReason};
use tari_rpc_core::message::{RpcRequest, RpcResponse, FLAG_ACK, FLAG_FIN};
use tari_rpc_core::server::PeerRpcServer;
use tari_rpc_core::session::{
    into_response, ActivePeerRpcService, InboundPoll, NextBody, ReadOutcome, RequestAction,
    ServiceOutcome, ServiceStep, SessionStep, StreamStep,
};
use tari_rpc_core::status::{RpcStatus, RpcStatusCode};

fn request(request_id: u32, method: u32, deadline: u64, flags: u32, payload: Vec<u8>) -> Vec<u8> {
    RpcRequest { request_id, method, deadline, flags, payload }.to_encoded_bytes()
}

fn session(config: RpcServerBuilder) -> ActivePeerRpcService {
    ActivePeerRpcService::new(config, b"/tari/test/1.0".to_vec(), b"peer-a".to_vec(), 17)
}

fn decode_frames(frames: &[Vec<u8>]) -> Vec<RpcResponse> {
    frames.iter().map(|f| RpcResponse::decode(f).unwrap()).collect()
}

#[test]
fn basic_rpc_round() {
    let config = RpcServerBuilder::new().with_maximum_simultaneous_sessions(4);
    let s = session(config);
    let frame = request(7, 1, 5, 0, vec![0xAA]);
    let call = match s.handle_request(&frame).unwrap() {
        RequestAction::Call(c) => c,
        other => panic!("expected a service call, got {:?}", other),
    };
    assert_eq!(call.request_id, 7);
    assert_eq!(call.method, 1);
    assert_eq!(call.deadline, 5);
    assert_eq!(call.payload, vec![0xAA]);
    assert!(matches!(s.after_service_call(7, ServiceOutcome::Body), ServiceStep::Stream));
    let item = Ok(BodyBytes::new(vec![0xBB], true));
    let frames = match s.next_stream_step(7, NextBody::Item(item)) {
        StreamStep::Send(f) => f,
        other => panic!("expected frames, got {:?}", other),
    };
    let msgs = decode_frames(&frames);
    assert_eq!(msgs.len(), 1);
    assert_eq!(msgs[0].request_id, 7);
    assert_eq!(msgs[0].status, 0);
    assert_eq!(msgs[0].flags, FLAG_FIN);
    assert_eq!(msgs[0].payload, vec![0xBB]);
    assert!(matches!(s.next_stream_step(7, NextBody::End), StreamStep::Done));
}

#[test]
fn ack_fast_path() {
    let s = session(RpcServerBuilder::new());
    let frame = request(9, 0, 5, FLAG_ACK, vec![]);
    match s.handle_request(&frame).unwrap() {
        RequestAction::Reply(resp) => {
            assert_eq!(resp.request_id, 9);
            assert_eq!(resp.status, 0);
            assert_eq!(resp.flags, FLAG_ACK);
            assert!(resp.payload.is_empty());
        },
        other => panic!("expected an ACK reply, got {:?}", other),
    }
}

#[test]
fn deadline_too_small() {
    let config = RpcServerBuilder::new().with_minimum_client_deadline(TimeSpan::from_secs(2));
    let s = session(config);
    let frame = request(3, 1, 1, 0, vec![1, 2]);
    match s.next_step(ReadOutcome::Frame(frame)) {
        SessionStep::Handle(RequestAction::Reply(resp)) => {
            assert_eq!(resp.request_id, 3);
            assert_eq!(resp.status, RpcStatusCode::BadRequest.as_u32());
            assert_eq!(resp.flags, FLAG_FIN);
            assert!(!resp.payload.is_empty());
        },
        other => panic!("expected a bad-request reply, got {:?}", other),
    }
    // The session stays open: a good request afterwards goes to the service.
    let frame = request(4, 1, 2, 0, vec![]);
    assert!(matches!(s.next_step(ReadOutcome::Frame(frame)), SessionStep::Handle(RequestAction::Call(_))));
}

#[test]
fn deadline_below_fractional_minimum() {
    let config = RpcServerBuilder::new().with_minimum_client_deadline(TimeSpan::new(2, 500_000_000));
    let s = session(config);
    assert!(matches!(s.handle_request(&request(1, 1, 2, 0, vec![])).unwrap(), RequestAction::Reply(_)));
    assert!(matches!(s.handle_request(&request(1, 1, 3, 0, vec![])).unwrap(), RequestAction::Call(_)));
}

#[test]
fn client_fin_is_ignored_between_requests() {
    let s = session(RpcServerBuilder::new());
    let frame = request(5, 1, 5, FLAG_FIN, vec![]);
    assert!(matches!(s.handle_request(&frame).unwrap(), RequestAction::Ignore));
}

#[test]
fn streaming_with_interruption() {
    let s = session(RpcServerBuilder::new());
    let mut sent = 0;
    for _ in 0..3 {
        assert!(matches!(s.continue_streaming(s.check_interruptions(InboundPoll::Pending)), Ok(true)));
        let item = Ok(BodyBytes::new(vec![1, 2, 3], false));
        match s.next_stream_step(11, NextBody::Item(item)) {
            StreamStep::Send(frames) => {
                let msgs = decode_frames(&frames);
                assert_eq!(msgs.len(), 1);
                assert_eq!(msgs[0].flags & FLAG_FIN, 0);
                sent += 1;
            },
            other => panic!("expected frames, got {:?}", other),
        }
    }
    assert_eq!(sent, 3);
    let fin = request(11, 0, 5, FLAG_FIN, vec![]);
    let check = s.check_interruptions(InboundPoll::Frame(fin));
    assert!(matches!(check, Err(RpcServerError::ClientInterruptedStream)));
    assert!(matches!(s.continue_streaming(check), Ok(false)));
}

#[test]
fn unexpected_messages_while_streaming() {
    let s = session(RpcServerBuilder::new());
    let other = request(12, 2, 5, 0, vec![9]);
    match s.check_interruptions(InboundPoll::Frame(other)) {
        Err(RpcServerError::UnexpectedIncomingMessage(req)) => {
            assert_eq!(req.request_id, 12);
            assert_eq!(req.payload, vec![9]);
        },
        other => panic!("unexpected {:?}", other),
    }
    assert!(matches!(
        s.check_interruptions(InboundPoll::Frame(vec![0xFF])),
        Err(RpcServerError::UnexpectedIncomingMessageMalformed)
    ));
    assert!(matches!(s.check_interruptions(InboundPoll::Closed), Err(RpcServerError::StreamClosedByRemote)));
    assert!(matches!(s.check_interruptions(InboundPoll::Failed), Err(RpcServerError::Io)));
    assert!(s.check_interruptions(InboundPoll::WouldBlock).is_ok());
    assert!(s.continue_streaming(Err(RpcServerError::StreamClosedByRemote)).is_err());
}

#[test]
fn admission_overflow() {
    let config = RpcServerBuilder::new().with_maximum_simultaneous_sessions(1);
    let mut server = PeerRpcServer::new(config);
    assert!(server.check_admission().is_ok());
    let permit_a = server.start_session(Ok(0)).unwrap();
    assert_eq!(server.num_active_sessions(), 1);
    match server.check_admission() {
        Err((reason, err)) => {
            assert_eq!(reason, HandshakeRejectReason::NoSessionsAvailable);
            assert!(matches!(err, RpcServerError::MaximumSessionsReached));
        },
        Ok(()) => panic!("a second session must be turned down"),
    }
    assert_eq!(server.num_active_sessions(), 1);
    server.end_session(permit_a);
    assert_eq!(server.num_active_sessions(), 0);
    assert!(server.check_admission().is_ok());
}

#[test]
fn n_plus_one_substreams() {
    let n = 3;
    let mut server = PeerRpcServer::new(RpcServerBuilder::new().with_maximum_simultaneous_sessions(n));
    let mut admitted = 0;
    let mut rejected = Vec::new();
    for _ in 0..n + 1 {
        match server.check_admission() {
            Ok(()) => {
                server.start_session(Ok(0)).unwrap();
                admitted += 1;
            },
            Err((reason, _)) => rejected.push(reason),
        }
    }
    assert_eq!(admitted, n);
    assert_eq!(rejected, vec![HandshakeRejectReason::NoSessionsAvailable]);
}

#[test]
fn failed_handshake_takes_no_permit() {
    let mut server = PeerRpcServer::new(RpcServerBuilder::new().with_maximum_simultaneous_sessions(2));
    let r = server.start_session(Err(HandshakeError::TimedOut));
    assert!(matches!(r, Err(RpcServerError::HandshakeError(HandshakeError::TimedOut))));
    assert!(r.unwrap_err().is_handshake_error());
    assert_eq!(server.num_active_sessions(), 0);
    let r = server.after_make_service(Err(RpcServerError::ProtocolServiceNotFound));
    assert!(matches!(r, Err((HandshakeRejectReason::ProtocolNotSupported, RpcServerError::ProtocolServiceNotFound))));
}

#[test]
fn service_timeout_sends_nothing() {
    let s = session(RpcServerBuilder::new());
    assert!(matches!(s.after_service_call(1, ServiceOutcome::TimedOut), ServiceStep::DeadlineExceeded));
    assert!(matches!(s.next_stream_step(1, NextBody::TimedOut), StreamStep::DeadlineExceeded));
    // The session still reads the next request.
    assert!(matches!(s.next_step(ReadOutcome::Frame(request(2, 1, 5, 0, vec![]))), SessionStep::Handle(_)));
}

#[test]
fn service_error_is_one_fin_response() {
    let s = session(RpcServerBuilder::new());
    let status = RpcStatus { code: RpcStatusCode::NotFound, details: b"nope".to_vec() };
    match s.after_service_call(8, ServiceOutcome::Failed(status)) {
        ServiceStep::Reply(frames) => {
            assert_eq!(frames.len(), 1);
            let resp = RpcResponse::decode(&frames[0]).unwrap();
            assert_eq!(resp.request_id, 8);
            assert_eq!(resp.status, 5);
            assert_eq!(resp.flags, FLAG_FIN);
            assert_eq!(resp.payload, b"nope".to_vec());
        },
        other => panic!("expected a reply, got {:?}", other),
    }
}

#[test]
fn session_read_outcomes() {
    let s = session(RpcServerBuilder::new());
    assert!(matches!(s.next_step(ReadOutcome::Ended), SessionStep::Close(Ok(()))));
    assert!(matches!(s.next_step(ReadOutcome::Failed), SessionStep::Close(Err(RpcServerError::Io))));
    assert!(matches!(
        s.next_step(ReadOutcome::Frame(vec![0x08])),
        SessionStep::Close(Err(RpcServerError::DecodeError))
    ));
}

#[test]
fn request_and_response_round_trip() {
    let req = RpcRequest { request_id: 300, method: 2, deadline: 1 << 40, flags: 3, payload: vec![5; 200] };
    let back = RpcRequest::decode(&req.to_encoded_bytes()).unwrap();
    assert_eq!(back.request_id, 300);
    assert_eq!(back.method, 2);
    assert_eq!(back.deadline, 1 << 40);
    assert_eq!(back.flags, 3);
    assert_eq!(back.payload, vec![5; 200]);
    let resp = RpcResponse { request_id: 0, status: 7, flags: 0, payload: vec![] };
    let back = RpcResponse::decode(&resp.to_encoded_bytes()).unwrap();
    assert_eq!(back.request_id, 0);
    assert_eq!(back.status, 7);
    assert_eq!(back.flags, 0);
    assert!(back.payload.is_empty());
}

#[test]
fn request_wire_bytes() {
    let bytes = RpcRequest { request_id: 7, method: 1, deadline: 5, flags: 0, payload: vec![0xAA] }.to_encoded_bytes();
    assert_eq!(bytes, vec![0x08, 7, 0x10, 1, 0x18, 5, 0x2A, 1, 0xAA]);
    let empty = RpcRequest { request_id: 0, method: 0, deadline: 0, flags: 0, payload: vec![] }.to_encoded_bytes();
    assert!(empty.is_empty());
}

#[test]
fn decoder_skips_unknown_fields() {
    // field 9 as a varint, then field 1 = 4
    let req = RpcRequest::decode(&[0x48, 0x01, 0x08, 0x04]).unwrap();
    assert_eq!(req.request_id, 4);
    // field 1 with the wrong wire type
    assert!(RpcRequest::decode(&[0x0A, 0x00]).is_err());
    // truncated payload
    assert!(RpcRequest::decode(&[0x2A, 0x05, 0x01]).is_err());
}

#[test]
fn chunk_exactly_chunk_size() {
    let resp = RpcResponse { request_id: 1, status: 0, flags: FLAG_FIN, payload: vec![7; RPC_CHUNK_SIZE] };
    let parts = chunk_response(&resp);
    assert_eq!(parts.len(), 1);
    assert_eq!(parts[0].flags, FLAG_FIN);
    assert_eq!(parts[0].payload.len(), RPC_CHUNK_SIZE);
}

#[test]
fn chunk_one_over_chunk_size() {
    let resp = RpcResponse { request_id: 1, status: 0, flags: FLAG_FIN, payload: vec![7; RPC_CHUNK_SIZE + 1] };
    let parts = chunk_response(&resp);
    assert_eq!(parts.len(), 2);
    assert_eq!(parts[0].flags & FLAG_FIN, 0);
    assert_eq!(parts[1].flags, FLAG_FIN);
    assert_eq!(parts[1].payload.len(), 1);
}

#[test]
fn chunks_rejoin_to_the_payload() {
    let payload: Vec<u8> = (0..(RPC_CHUNK_SIZE * 2 + 17)).map(|i| (i % 251) as u8).collect();
    let resp = RpcResponse { request_id: 42, status: 0, flags: FLAG_FIN, payload: payload.clone() };
    let parts = chunk_response(&resp);
    assert_eq!(parts.len(), 3);
    let mut joined = Vec::new();
    for (i, p) in parts.iter().enumerate() {
        assert_eq!(p.request_id, 42);
        assert_eq!(p.flags & FLAG_FIN != 0, i == 2);
        joined.extend_from_slice(&p.payload);
    }
    assert_eq!(joined, payload);
    let empty = chunk_response(&RpcResponse { request_id: 1, status: 0, flags: 0, payload: vec![] });
    assert_eq!(empty.len(), 1);
}

#[test]
fn fin_only_on_last_frame_of_body() {
    let s = session(RpcServerBuilder::new());
    let items = vec![
        Ok(BodyBytes::new(vec![1; RPC_CHUNK_SIZE + 3], false)),
        Ok(BodyBytes::new(vec![2; 4], false)),
        Ok(BodyBytes::new(vec![3; RPC_CHUNK_SIZE * 2], true)),
    ];
    let mut all = Vec::new();
    for item in items {
        match s.next_stream_step(77, NextBody::Item(item)) {
            StreamStep::Send(frames) => all.extend(decode_frames(&frames)),
            other => panic!("expected frames, got {:?}", other),
        }
    }
    assert_eq!(all.len(), 5);
    for (i, m) in all.iter().enumerate() {
        assert_eq!(m.request_id, 77);
        assert_eq!(m.flags & FLAG_FIN != 0, i == 4);
    }
}

#[test]
fn frames_fit_and_round_trip() {
    let frames = match session(RpcServerBuilder::new())
        .next_stream_step(1, NextBody::Item(Ok(BodyBytes::new(vec![0; RPC_CHUNK_SIZE * 3], true))))
    {
        StreamStep::Send(f) => f,
        other => panic!("expected frames, got {:?}", other),
    };
    for f in &frames {
        assert!(f.len() <= RPC_MAX_FRAME_SIZE);
        let framed = write_frame(f).unwrap();
        let (back, used) = read_frame(&framed).unwrap().unwrap();
        assert_eq!(&back, f);
        assert_eq!(used, f.len() + 4);
    }
    assert_eq!(write_frame(&vec![0; RPC_MAX_FRAME_SIZE + 1]), Err(FrameError::TooLarge));
    assert_eq!(read_frame(&[0, 0, 0, 3, 1, 2]), Ok(None));
    assert_eq!(read_frame(&[0xFF, 0, 0, 0]), Err(FrameError::TooLarge));
    assert_eq!(write_frame(&[1, 2]).unwrap(), vec![0, 0, 0, 2, 1, 2]);
}

#[test]
fn into_response_of_error_and_body() {
    let r = into_response(3, Err(RpcStatus::bad_request(b"bad".to_vec())));
    assert_eq!(r.status, 3);
    assert_eq!(r.flags, FLAG_FIN);
    assert_eq!(r.payload, b"bad".to_vec());
    let r = into_response(3, Ok(BodyBytes { bytes: None, is_finished: false }));
    assert_eq!(r.status, 0);
    assert_eq!(r.flags, 0);
    assert!(r.payload.is_empty());
}

#[test]
fn version_negotiation() {
    assert_eq!(negotiate_version(&[0, 1, 2], &[2, 1, 5]), Ok(2));
    assert_eq!(negotiate_version(&[0], &[1, 2]), Err(HandshakeRejectReason::UnsupportedVersion));
    assert_eq!(HandshakeRejectReason::from_u8(2), HandshakeRejectReason::NoSessionsAvailable);
    assert_eq!(HandshakeRejectReason::ProtocolNotSupported.as_u8(), 3);
}

#[test]
fn executor_permits() {
    let mut e = BoundedExecutor::new(2);
    assert!(e.can_spawn());
    let p1 = e.try_spawn().unwrap();
    let _p2 = e.try_spawn().unwrap();
    assert_eq!(e.num_available(), 0);
    assert_eq!(e.num_active(), 2);
    assert!(e.try_spawn().is_err());
    e.release(p1);
    assert_eq!(e.num_available() + e.num_active(), e.max_available());
    assert_eq!(BoundedExecutor::max_theoretical_tasks(), usize::MAX >> 4);
    let mut unbounded = OptionallyBoundedExecutor::new(None);
    assert!(unbounded.try_spawn().is_ok());
    assert_eq!(unbounded.num_available(), usize::MAX);
    assert_eq!(unbounded.max_available(), None);
    let bounded = OptionallyBoundedExecutor::new(Some(0));
    assert!(!bounded.can_spawn());
    assert_eq!(bounded.max_available(), Some(0));
}

#[test]
fn builder_defaults() {
    let b = RpcServerBuilder::default();
    assert_eq!(b.maximum_simultaneous_sessions(), Some(1000));
    assert_eq!(b.minimum_client_deadline(), TimeSpan::from_secs(1));
    assert_eq!(b.handshake_timeout(), TimeSpan::from_secs(15));
    let b = b.with_unlimited_simultaneous_sessions();
    assert_eq!(b.maximum_simultaneous_sessions(), None);
    let server = PeerRpcServer::new(b);
    assert_eq!(server.num_active_sessions(), 0);
}

#[test]
fn protocol_name_and_context() {
    let s = session(RpcServerBuilder::new());
    assert_eq!(s.protocol_name(), "/tari/test/1.0");
    let ctx = s.create_request_context(5);
    assert_eq!(ctx.request_id, 5);
    assert_eq!(ctx.node_id, b"peer-a".to_vec());
}

#[test]
fn long_service_error_is_split_to_fit_frames() {
    let s = session(RpcServerBuilder::new());
    let status = RpcStatus { code: RpcStatusCode::General, details: vec![b'x'; RPC_MAX_FRAME_SIZE + 10] };
    match s.after_service_call(9, ServiceOutcome::Failed(status)) {
        ServiceStep::Reply(frames) => {
            let msgs = decode_frames(&frames);
            assert!(msgs.len() > 1);
            let mut details = Vec::new();
            for (i, (f, m)) in frames.iter().zip(msgs.iter()).enumerate() {
                assert!(f.len() <= RPC_MAX_FRAME_SIZE);
                assert_eq!(m.request_id, 9);
                assert_eq!(m.status, 7);
                assert_eq!(m.flags & FLAG_FIN != 0, i == msgs.len() - 1);
                details.extend_from_slice(&m.payload);
            }
            assert_eq!(details.len(), RPC_MAX_FRAME_SIZE + 10);
        },
        other => panic!("expected a reply, got {:?}", other),
    }
}

#[test]
fn logging_context_names_stream_peer_and_protocol() {
    let s = ActivePeerRpcService::new(RpcServerBuilder::new(), b"/tari/mempool/1.0".to_vec(), vec![0xab, 0x01], 42);
    assert_eq!(s.logging_context_string(), "stream_id: 42, peer: ab01, protocol: /tari/mempool/1.0");
}

#[test]
fn factory_error_is_handed_back() {
    let server = PeerRpcServer::new(RpcServerBuilder::new());
    assert!(server.after_make_service(Ok(())).is_ok());
    match server.after_make_service(Err(RpcServerError::DecodeError)) {
        Err((HandshakeRejectReason::ProtocolNotSupported, RpcServerError::DecodeError)) => {},
        other => panic!("unexpected {:?}", other),
    }
}
