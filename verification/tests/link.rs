use chia_protocol::ProtocolMessageTypes;
use dig_peer_protocol::error::ErrorSource;
use dig_peer_protocol::link::{
    begin_request, conclude_request, fallible_reply, infallible_reply, offer, opcode_from_encoding,
    opcode_of, outbound_limiter, route, send_step, websocket_uri, InboundFrame, Outcome, Routing,
    SendStep, INBOUND_CHANNEL_CAPACITY, RATE_LIMIT_BACKOFF, RATE_LIMIT_WINDOW_SECONDS,
};
use dig_peer_protocol::request_map::{Correlation, RequestMap, CAPACITY};
use dig_peer_protocol::{
    Admission, Bytes, DigMessage, DigMessageType, LimitFactor, LinkError, LinkOptions, OpcodeRateLimits,
    DIG_MESSAGE, HOLDINGS_ANNOUNCE, STORE_MELTED,
};
use std::sync::Arc;
use tokio::sync::oneshot::{self, error::TryRecvError};
use tokio::sync::{OwnedSemaphorePermit, Semaphore};

const SECOND: u128 = 1_000_000_000;

fn permit() -> OwnedSemaphorePermit {
    Arc::new(Semaphore::new(1))
        .try_acquire_owned()
        .expect("a fresh semaphore has a permit")
}

fn frame(opcode: u8, id: Option<u16>, body: &[u8]) -> InboundFrame {
    InboundFrame::Binary(DigMessage::new(opcode, id, Bytes::from(body)).to_bytes())
}

/// Starts a request and gives its id and the end on which its reply arrives.
fn begin(requests: &mut RequestMap, opcode: u8, expected: &[u8]) -> (u16, oneshot::Receiver<DigMessage>) {
    let (sender, receiver) = oneshot::channel();
    let (id, message) = begin_request(
        requests,
        sender,
        permit(),
        opcode,
        expected.to_vec(),
        Bytes::new(b"ping".to_vec()),
    );
    assert_eq!(message, DigMessage::new(opcode, Some(id), Bytes::new(b"ping".to_vec())));
    (id, receiver)
}

#[test]
fn the_default_options_are_pinned() {
    let options = LinkOptions::default();
    assert_eq!(options.rate_limit_factor, LimitFactor::new(3, 5).expect("a ratio"));
    assert_eq!(options.send_timeout, 120 * SECOND);
    assert_eq!(options.request_timeout, 60 * SECOND);
    assert_eq!(INBOUND_CHANNEL_CAPACITY, 32);
    assert_eq!(RATE_LIMIT_WINDOW_SECONDS, 60);
    assert_eq!(RATE_LIMIT_BACKOFF, SECOND);
}

#[test]
fn a_peer_is_dialled_at_its_websocket_path() {
    assert_eq!(websocket_uri("127.0.0.1:8444"), "wss://127.0.0.1:8444/ws");
}

#[test]
fn opcodes_of_chia_types_are_their_wire_bytes() {
    assert_eq!(opcode_of(ProtocolMessageTypes::Handshake).expect("an opcode"), 1);
    assert_eq!(opcode_of(ProtocolMessageTypes::RequestPeersIntroducer).expect("an opcode"), 63);
    assert_eq!(opcode_from_encoding(&[9, 8]).expect("an opcode"), 9);
    assert!(matches!(opcode_from_encoding(&[]), Err(LinkError::MalformedOpcode)));
}

#[test]
fn a_verdict_decides_what_becomes_of_a_message() {
    let message = DigMessage::new(HOLDINGS_ANNOUNCE, None, Bytes::new(vec![1, 2, 3]));
    match send_step(&message, Admission::Admitted, u128::MAX, 0) {
        SendStep::Write(bytes) => assert_eq!(bytes, message.to_bytes()),
        other => panic!("an admitted message must be written, got {other:?}"),
    }
    assert!(matches!(
        send_step(&message, Admission::Unsendable, 0, 120 * SECOND),
        SendStep::Fail(LinkError::Unsendable(222, 3))
    ));
    assert!(matches!(
        send_step(&message, Admission::Deferred, 119 * SECOND, 120 * SECOND),
        SendStep::Wait
    ));
    assert!(matches!(
        send_step(&message, Admission::Deferred, 119 * SECOND + 1, 120 * SECOND),
        SendStep::Fail(LinkError::SendTimeout(222))
    ));
    assert!(matches!(
        send_step(&message, Admission::Deferred, u128::MAX, 120 * SECOND),
        SendStep::Fail(LinkError::SendTimeout(222))
    ));
}

/// One byte over the size cap is refused at once; the cap itself is sent.
#[test]
fn an_oversized_message_is_refused_and_the_cap_itself_is_sent() {
    let options = LinkOptions::default();
    let mut limiter = outbound_limiter(options.rate_limit_factor, OpcodeRateLimits::default());

    let over_cap = DigMessage::new(HOLDINGS_ANNOUNCE, None, Bytes::new(vec![0u8; 1024 * 1024 + 1]));
    assert!(matches!(
        offer(&mut limiter, &over_cap, 0, options.send_timeout),
        SendStep::Fail(LinkError::Unsendable(222, 1_048_577))
    ));

    let at_cap = DigMessage::new(HOLDINGS_ANNOUNCE, None, Bytes::new(vec![0u8; 1024 * 1024]));
    match offer(&mut limiter, &at_cap, 0, options.send_timeout) {
        SendStep::Write(bytes) => assert_eq!(bytes.len(), 6 + 1024 * 1024),
        other => panic!("the control was refused: {other:?}"),
    }
}

#[test]
fn frames_that_are_no_messages_change_nothing() {
    let mut requests = RequestMap::new();
    let (id, mut receiver) = begin(&mut requests, HOLDINGS_ANNOUNCE, &[STORE_MELTED]);

    assert!(matches!(route(&mut requests, InboundFrame::Close), Routing::Stop));
    assert!(matches!(route(&mut requests, InboundFrame::Control), Routing::Ignore));
    match route(&mut requests, InboundFrame::Text("hello".into())) {
        Routing::UnexpectedText(text) => assert_eq!(text, "hello"),
        other => panic!("text was routed as {other:?}"),
    }
    assert!(matches!(
        route(&mut requests, InboundFrame::Binary(vec![1, 2, 3])),
        Routing::Malformed
    ));

    // The frame behind the malformed one still reaches its waiter.
    match route(&mut requests, frame(STORE_MELTED, Some(id), b"pong")) {
        Routing::Answer(request, message) => request.send(message).expect("the waiter is there"),
        other => panic!("the reply was routed as {other:?}"),
    }
    assert_eq!(receiver.try_recv().expect("a reply").data.as_ref(), b"pong");
    assert!(requests.is_empty());
}

#[test]
fn a_dig_request_finds_its_response() {
    let mut requests = RequestMap::new();
    let (request, response) = (
        DigMessageType::RequestStatus.to_byte(),
        DigMessageType::RespondStatus.to_byte(),
    );
    let (id, mut receiver) = begin(&mut requests, request, &[response]);
    match route(&mut requests, frame(response, Some(id), b"pong")) {
        Routing::Answer(waiter, message) => waiter.send(message).expect("the waiter is there"),
        other => panic!("the response was routed as {other:?}"),
    }
    let received = receiver.try_recv().expect("a reply");
    assert_eq!(received.msg_type, 206);
    let outcome = conclude_request(&mut requests, id, request, Outcome::Replied(received));
    assert_eq!(outcome.expect("a reply").data.as_ref(), b"pong");
}

/// An inbound request may carry an id that one of our own requests holds.
#[test]
fn an_inbound_request_is_delivered_with_its_id() {
    let mut requests = RequestMap::new();
    let register_peer = DigMessageType::RegisterPeer.to_byte();
    for outstanding in [false, true] {
        if outstanding {
            let (id, _receiver) = begin(&mut requests, HOLDINGS_ANNOUNCE, &[STORE_MELTED]);
            assert_eq!(id, 0);
        }
        match route(&mut requests, frame(register_peer, Some(0), b"request")) {
            Routing::Deliver(message) => {
                assert_eq!(message.msg_type, 218);
                assert_eq!(message.id, Some(0));
                assert_eq!(message.data.as_ref(), b"request");
            }
            other => panic!("the request was routed as {other:?}"),
        }
    }
    assert!(matches!(
        route(&mut requests, frame(register_peer, None, b"")),
        Routing::Deliver(_)
    ));
}

#[test]
fn a_flood_of_unmatched_ids_leaves_the_reply_path_open() {
    let mut requests = RequestMap::new();
    let (id, mut receiver) = begin(&mut requests, HOLDINGS_ANNOUNCE, &[HOLDINGS_ANNOUNCE]);
    for offset in 0..64u16 {
        assert!(matches!(
            route(&mut requests, frame(HOLDINGS_ANNOUNCE, Some(u16::MAX - offset), b"unmatched")),
            Routing::Deliver(_)
        ));
    }
    match route(&mut requests, frame(HOLDINGS_ANNOUNCE, Some(id), b"pong")) {
        Routing::Answer(request, message) => request.send(message).expect("the waiter is there"),
        other => panic!("the reply was routed as {other:?}"),
    }
    assert_eq!(receiver.try_recv().expect("a reply").data.as_ref(), b"pong");
}

#[test]
fn an_undeclared_reply_is_named_at_the_deadline() {
    let mut requests = RequestMap::new();
    let (id, _receiver) = begin(&mut requests, HOLDINGS_ANNOUNCE, &[STORE_MELTED]);

    match route(&mut requests, frame(DIG_MESSAGE, Some(id), b"answers-nothing-we-asked")) {
        Routing::Deliver(message) => assert_eq!(message.data.as_ref(), b"answers-nothing-we-asked"),
        other => panic!("the undeclared frame was routed as {other:?}"),
    }
    match conclude_request(&mut requests, id, HOLDINGS_ANNOUNCE, Outcome::Expired) {
        Err(LinkError::InvalidResponse(expected, found)) => {
            assert_eq!(expected, vec![STORE_MELTED]);
            assert_eq!(found, DIG_MESSAGE);
        }
        other => panic!("expected the undeclared opcode, got {other:?}"),
    }
    assert!(requests.is_empty(), "the id was not given back");
}

#[test]
fn a_silent_peer_is_a_plain_timeout() {
    let mut requests = RequestMap::new();
    let (id, _receiver) = begin(&mut requests, HOLDINGS_ANNOUNCE, &[STORE_MELTED]);
    assert!(matches!(
        conclude_request(&mut requests, id, HOLDINGS_ANNOUNCE, Outcome::Expired),
        Err(LinkError::RequestTimeout(222))
    ));
    assert!(requests.is_empty(), "the id was not given back");
    assert!(matches!(
        conclude_request(&mut requests, id, HOLDINGS_ANNOUNCE, Outcome::Expired),
        Err(LinkError::RequestTimeout(222))
    ));
}

#[test]
fn a_failed_send_gives_the_id_back() {
    let mut requests = RequestMap::new();
    let (id, _receiver) = begin(&mut requests, HOLDINGS_ANNOUNCE, &[STORE_MELTED]);
    let outcome = Outcome::SendFailed(LinkError::SendTimeout(HOLDINGS_ANNOUNCE));
    assert!(matches!(
        conclude_request(&mut requests, id, HOLDINGS_ANNOUNCE, outcome),
        Err(LinkError::SendTimeout(222))
    ));
    assert!(requests.is_empty());
}

#[test]
fn a_closed_link_is_reported() {
    let (sender, receiver) = oneshot::channel::<DigMessage>();
    drop(sender);
    let error = receiver.blocking_recv().expect_err("the sender is gone");
    let mut requests = RequestMap::new();
    assert!(matches!(
        conclude_request(&mut requests, 0, HOLDINGS_ANNOUNCE, Outcome::Closed(error)),
        Err(LinkError::Recv(_))
    ));
}

/// A late reply to a request that timed out does not reach the next request.
#[test]
fn a_late_reply_does_not_reach_the_next_request() {
    let mut requests = RequestMap::new();
    let (a, _a_receiver) = begin(&mut requests, HOLDINGS_ANNOUNCE, &[HOLDINGS_ANNOUNCE]);
    assert!(conclude_request(&mut requests, a, HOLDINGS_ANNOUNCE, Outcome::Expired).is_err());

    let (b, mut b_receiver) = begin(&mut requests, HOLDINGS_ANNOUNCE, &[HOLDINGS_ANNOUNCE]);
    assert_ne!(a, b);
    assert!(matches!(
        route(&mut requests, frame(HOLDINGS_ANNOUNCE, Some(a), b"answer-to-A")),
        Routing::Deliver(_)
    ));
    match route(&mut requests, frame(HOLDINGS_ANNOUNCE, Some(b), b"answer-to-B")) {
        Routing::Answer(request, message) => request.send(message).expect("the waiter is there"),
        other => panic!("the reply was routed as {other:?}"),
    }
    assert_eq!(b_receiver.try_recv().expect("a reply").data.as_ref(), b"answer-to-B");
}

#[test]
fn a_typed_reply_must_carry_its_opcode() {
    let reply = |opcode| DigMessage::new(opcode, Some(1), Bytes::new(b"body".to_vec()));
    assert_eq!(infallible_reply(5, reply(5)).expect("the body").as_ref(), b"body");
    match infallible_reply(5, reply(222)) {
        Err(LinkError::InvalidResponse(expected, found)) => assert_eq!((expected, found), (vec![5], 222)),
        other => panic!("expected a refusal, got {other:?}"),
    }

    assert_eq!(fallible_reply(5, 6, reply(5)).expect("declared").expect("accepted").as_ref(), b"body");
    assert_eq!(
        fallible_reply(5, 6, reply(6)).expect("declared").expect_err("rejected").as_ref(),
        b"body"
    );
    match fallible_reply(5, 6, reply(7)) {
        Err(LinkError::InvalidResponse(expected, found)) => assert_eq!((expected, found), (vec![5, 6], 7)),
        other => panic!("expected a refusal, got {other:?}"),
    }
}

#[test]
fn ids_are_issued_in_turn_and_skip_the_ones_in_use() {
    let mut requests = RequestMap::new();
    let mut receivers = Vec::new();
    for expected_id in 0..3u16 {
        let (sender, receiver) = oneshot::channel();
        assert_eq!(requests.insert(sender, vec![1], permit()), expected_id);
        receivers.push(receiver);
    }
    assert!(requests.cancel(1).is_some());
    assert!(requests.cancel(1).is_none());
    let (sender, _receiver) = oneshot::channel();
    assert_eq!(requests.register(sender, vec![1], permit()), 3);
    assert_eq!(requests.len(), 3);
}

/// The cursor runs through the whole id space before an id comes back, and skips those in use.
#[test]
fn an_id_comes_back_after_all_the_others() {
    let mut requests = RequestMap::new();
    let (kept_sender, _kept) = oneshot::channel();
    assert_eq!(requests.register(kept_sender, vec![], permit()), 0);
    for expected_id in 1..=u16::MAX {
        let (sender, _receiver) = oneshot::channel();
        assert_eq!(requests.register(sender, vec![], permit()), expected_id);
        requests.reclaim(&[expected_id]);
    }
    let (sender, _receiver) = oneshot::channel();
    assert_eq!(requests.register(sender, vec![], permit()), 1);
    assert_eq!(CAPACITY, 65_535);
}

#[test]
fn callers_that_gave_up_lose_their_ids_to_the_next_insert() {
    let mut requests = RequestMap::new();
    let (sender, receiver) = oneshot::channel();
    let abandoned = requests.insert(sender, vec![7], permit());
    drop(receiver);
    let (sender, _receiver) = oneshot::channel();
    let id = requests.insert(sender, vec![7], permit());
    assert_eq!(requests.len(), 1);
    assert!(matches!(requests.take(abandoned, 7), Correlation::Unknown));
    assert!(matches!(requests.take(id, 7), Correlation::Answer(_)));
}

#[test]
fn the_last_undeclared_opcode_is_the_one_reported() {
    let mut requests = RequestMap::new();
    let (sender, _receiver) = oneshot::channel();
    let id = requests.insert(sender, vec![7, 8], permit());
    assert!(matches!(requests.take(id, 1), Correlation::Undeclared));
    assert!(matches!(requests.take(id, 2), Correlation::Undeclared));
    let request = requests.cancel(id).expect("the waiter stayed parked");
    assert_eq!(request.into_diagnosis(), Some((vec![7, 8], 2)));
}

#[test]
fn a_reply_to_a_caller_that_gave_up_comes_back() {
    let mut requests = RequestMap::new();
    let (sender, mut receiver) = oneshot::channel();
    let id = requests.register(sender, vec![7], permit());
    assert_eq!(receiver.try_recv(), Err(TryRecvError::Empty));
    drop(receiver);
    let message = DigMessage::new(7, Some(id), Bytes::new(vec![1]));
    match requests.take(id, 7) {
        Correlation::Answer(request) => assert_eq!(request.send(message.clone()), Err(message)),
        other => panic!("the frame was classified as {other:?}"),
    }
}

#[test]
fn errors_say_what_went_wrong() {
    assert_eq!(
        LinkError::from(chia_traits::Error::EndOfBuffer).to_string(),
        format!("streamable error: {}", chia_traits::Error::EndOfBuffer)
    );
    assert_eq!(
        LinkError::from(tungstenite::Error::ConnectionClosed).to_string(),
        format!("websocket error: {}", tungstenite::Error::ConnectionClosed)
    );
    assert_eq!(
        LinkError::from(std::io::Error::new(std::io::ErrorKind::Other, "no route")).to_string(),
        "io error: no route"
    );
    assert_eq!(
        LinkError::InvalidResponse(vec![5, 60, 221], 222).to_string(),
        "expected a response with opcode in [5, 60, 221], found 222"
    );
    assert_eq!(
        LinkError::InvalidResponse(vec![], 0).to_string(),
        "expected a response with opcode in [], found 0"
    );
    let (sender, receiver) = oneshot::channel::<DigMessage>();
    drop(sender);
    assert_eq!(
        LinkError::from(receiver.blocking_recv().expect_err("the sender is gone")).to_string(),
        "the link closed before a response arrived"
    );
    assert_eq!(
        LinkError::UnsupportedTls.to_string(),
        "the websocket's TLS backend is not supported by this build"
    );
    assert_eq!(
        LinkError::Unsendable(222, 1_048_577).to_string(),
        "a message with opcode 222 and a 1048577-byte body exceeds the per-message limit"
    );
    assert_eq!(
        LinkError::SendTimeout(7).to_string(),
        "timed out waiting for rate-limit budget to send opcode 7"
    );
    assert_eq!(
        LinkError::RequestTimeout(40).to_string(),
        "timed out waiting for a response to opcode 40"
    );
    assert_eq!(
        LinkError::MalformedOpcode.to_string(),
        "message type did not encode to a single-byte opcode"
    );
}

/// Callers that gave up hold every permit, and an id is still available.
#[test]
fn a_map_full_of_abandoned_requests_takes_another_one() {
    let mut requests = RequestMap::new();
    let mut receivers = Vec::new();
    for expected_id in 0..u16::MAX {
        let (sender, receiver) = oneshot::channel();
        assert_eq!(requests.register(sender, vec![221], permit()), expected_id);
        receivers.push(receiver);
    }
    assert_eq!(requests.len(), CAPACITY);
    drop(receivers);
    let (sender, _receiver) = oneshot::channel();
    assert_eq!(requests.insert(sender, vec![221], permit()), u16::MAX);
    assert_eq!(requests.len(), 1);
}

#[test]
fn only_abandoned_requests_are_taken_back() {
    let mut requests = RequestMap::new();
    let (gone_sender, gone) = oneshot::channel();
    let (live_sender, _live) = oneshot::channel();
    assert_eq!(requests.insert(gone_sender, vec![221], permit()), 0);
    assert_eq!(requests.insert(live_sender, vec![221], permit()), 1);
    drop(gone);
    requests.reclaim_abandoned();
    assert!(matches!(requests.take(0, 221), Correlation::Unknown));
    assert!(matches!(requests.take(1, 221), Correlation::Answer(_)));
}

#[test]
fn errors_name_the_error_they_stem_from() {
    assert!(matches!(
        LinkError::from(chia_traits::Error::EndOfBuffer).source(),
        Some(ErrorSource::Streamable(chia_traits::Error::EndOfBuffer))
    ));
    match LinkError::from(std::io::Error::new(std::io::ErrorKind::Other, "no route")).source() {
        Some(ErrorSource::Io(error)) => assert_eq!(error.to_string(), "no route"),
        other => panic!("expected the io error, got {other:?}"),
    }
    let (sender, receiver) = oneshot::channel::<DigMessage>();
    drop(sender);
    let closed = LinkError::from(receiver.blocking_recv().expect_err("the sender is gone"));
    assert!(matches!(closed.source(), Some(ErrorSource::Recv(_))));
    assert!(LinkError::from(tungstenite::Error::ConnectionClosed).source().is_none());
    assert!(LinkError::MalformedOpcode.source().is_none());
}
