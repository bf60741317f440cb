//! The decisions of a peer link: how an inbound frame is routed, when an outbound message is
//! written, and how a request ends.
//!
//! Nothing here touches a socket or a clock of its own. A driver performs what a decision asks
//! for and hands the outcome back.

use crate::bytes::Bytes;
use crate::dig_message;
use crate::dig_message::DigMessage;
use crate::error::LinkError;
use crate::opcodes;
use crate::rate_limit;
use crate::rate_limit::{Admission, Direction, LimitFactor, OpcodeRateLimiter, OpcodeRateLimits};
use crate::request_map;
use crate::request_map::{Correlation, Request, RequestMap};
use chia_protocol::ProtocolMessageTypes;
use tokio::sync::oneshot::error::RecvError;
use tokio::sync::{oneshot, OwnedSemaphorePermit};
use vstd::prelude::*;
use vstd::string::StringExecFns;

verus! {

/// How many inbound messages may queue for the application.
pub const INBOUND_CHANNEL_CAPACITY: usize = 32;

/// How long to wait before the rate limiter is asked again after it deferred a message, in
/// nanoseconds.
pub const RATE_LIMIT_BACKOFF: u128 = 1_000_000_000;

/// The window over which outbound rate-limit budgets reset.
pub const RATE_LIMIT_WINDOW_SECONDS: u64 = 60;

/// The nanoseconds of a second.
pub const NANOSECONDS: u128 = 1_000_000_000;

/// Tunables of a single link. More may come, so start from [`Default`] and assign the fields that
/// matter.
#[derive(Debug, Clone, Copy)]
#[non_exhaustive]
pub struct LinkOptions {
    /// Scales every outbound rate-limit budget but the size of one message.
    pub rate_limit_factor: LimitFactor,
    /// How long a message may wait for rate-limit budget, in nanoseconds. Only a deferred message
    /// waits at all.
    pub send_timeout: u128,
    /// How long a request waits for its reply, in nanoseconds.
    pub request_timeout: u128,
}

impl Default for LinkOptions {
    /// Three fifths of the nominal allowance, two whole windows to send and a minute to be
    /// answered. Two windows are long enough that a budget that was only exhausted always clears.
    fn default() -> (r: Self)
        ensures
            r.rate_limit_factor.over() == 3,
            r.rate_limit_factor.under() == 5,
            r.send_timeout == 2 * RATE_LIMIT_WINDOW_SECONDS * NANOSECONDS,
            r.request_timeout == 60 * NANOSECONDS,
            r.send_timeout == 120_000_000_000,
            r.request_timeout == 60_000_000_000,
    {
        LinkOptions {
            rate_limit_factor: LimitFactor::new(3, 5).unwrap(),
            send_timeout: 120_000_000_000,
            request_timeout: 60_000_000_000,
        }
    }
}

// ---------------------------------------------------------------------------
// Dialling
// ---------------------------------------------------------------------------

/// The websocket address of a peer whose socket address is written `socket_addr`.
#[must_use]
pub fn websocket_uri(socket_addr: &str) -> (r: String)
    ensures
        r@ == "wss://"@ + socket_addr@ + "/ws"@,
{
    let mut r = String::new();
    r.append("wss://");
    r.append(socket_addr);
    r.append("/ws");
    assert(r@ =~= "wss://"@ + socket_addr@ + "/ws"@);
    r
}

/// The opcode that the encoding of a message type spells: its first byte.
pub fn opcode_from_encoding(encoding: &[u8]) -> (r: Result<u8, LinkError>)
    ensures
        match r {
            Ok(opcode) => encoding@.len() > 0 && opcode == encoding@[0],
            Err(error) => encoding@.len() == 0 && error == LinkError::MalformedOpcode,
        },
{
    if encoding.len() > 0 {
        Ok(encoding[0])
    } else {
        Err(LinkError::MalformedOpcode)
    }
}

/// The wire opcode of one of Chia's message types, by its single-byte encoding.
pub fn opcode_of(msg_type: ProtocolMessageTypes) -> (r: Result<u8, LinkError>)
    ensures
        r matches Ok(opcode) && opcode == opcodes::message_type_encoding(msg_type)[0] && opcode
            < opcodes::DIG_BAND_START,
        r matches Ok(opcode) && opcodes::message_type_encoding(msg_type) == seq![opcode] && opcode < 200,
{
    match opcodes::encode_message_type(&msg_type) {
        Ok(encoding) => opcode_from_encoding(encoding.as_slice()),
        Err(error) => Err(LinkError::from(error)),
    }
}

// ---------------------------------------------------------------------------
// Sending
// ---------------------------------------------------------------------------

/// The limiter of the send path of a link. A refusal there is not charged: a caller that backs
/// off and retries is not penalised.
#[must_use]
pub fn outbound_limiter(limit_factor: LimitFactor, limits: OpcodeRateLimits) -> (r: OpcodeRateLimiter)
    ensures
        exists|now: u64|
            r@ == #[trigger] rate_limit::started(
                now,
                Direction::Outbound,
                RATE_LIMIT_WINDOW_SECONDS,
                limit_factor,
                limits@,
            ),
{
    OpcodeRateLimiter::new(Direction::Outbound, RATE_LIMIT_WINDOW_SECONDS, limit_factor, limits)
}

/// What becomes of an outbound message.
#[derive(Debug)]
pub enum SendStep {
    /// Write these bytes as a single binary frame.
    Write(Vec<u8>),
    /// Sleep for [`RATE_LIMIT_BACKOFF`], then ask again.
    Wait,
    /// Give up.
    Fail(LinkError),
}

/// Whether a message that was deferred `elapsed` after it was handed in may wait once more.
pub open spec fn may_wait(elapsed: int, send_timeout: int) -> bool {
    elapsed + RATE_LIMIT_BACKOFF <= send_timeout
}

/// Whether `step` is right for a message under a verdict. An admitted message is written, an
/// unsendable one fails immediately. A deferred one waits, or fails once no time is left for
/// another backoff.
pub open spec fn is_step(
    step: SendStep,
    message: dig_message::Frame,
    admission: Admission,
    elapsed: int,
    send_timeout: int,
) -> bool {
    match admission {
        Admission::Admitted => step matches SendStep::Write(frame) && frame@ == dig_message::encoded_frame(message),
        Admission::Unsendable => step matches SendStep::Fail(LinkError::Unsendable(opcode, len)) && opcode
            == message.msg_type && len == message.data.len(),
        Admission::Deferred => if may_wait(elapsed, send_timeout) {
            step is Wait
        } else {
            step matches SendStep::Fail(LinkError::SendTimeout(opcode)) && opcode == message.msg_type
        },
    }
}

/// What becomes of `message` under the verdict `admission`, `elapsed` nanoseconds after it was
/// handed in.
pub fn send_step(message: &DigMessage, admission: Admission, elapsed: u128, send_timeout: u128) -> (r: SendStep)
    ensures
        is_step(r, message@, admission, elapsed as int, send_timeout as int),
        match admission {
            Admission::Admitted => {
                &&& r is Write
                &&& r->Write_0@ == dig_message::encoded_frame(message@)
                &&& message.data@.len() <= 16_777_216 ==> dig_message::decoded_frame(r->Write_0@) == Some(message@)
            },
            Admission::Unsendable => r matches SendStep::Fail(LinkError::Unsendable(opcode, len)) && opcode
                == message.msg_type && len == message.data@.len(),
            Admission::Deferred => if elapsed + 1_000_000_000 <= send_timeout {
                r is Wait
            } else {
                r matches SendStep::Fail(LinkError::SendTimeout(opcode)) && opcode == message.msg_type
            },
        },
{
    proof {
        if message.data@.len() <= 16_777_216 {
            dig_message::frame_round_trips(message@, Seq::empty());
            assert(dig_message::encoded_frame(message@) + Seq::empty() =~= dig_message::encoded_frame(message@));
        }
    }
    match admission {
        Admission::Admitted => SendStep::Write(message.to_bytes()),
        Admission::Unsendable => SendStep::Fail(LinkError::Unsendable(message.msg_type, message.data.len())),
        Admission::Deferred => {
            if elapsed > send_timeout || send_timeout - elapsed < RATE_LIMIT_BACKOFF {
                SendStep::Fail(LinkError::SendTimeout(message.msg_type))
            } else {
                SendStep::Wait
            }
        },
    }
}

/// Offers `message` to the limiter and says what becomes of it.
pub fn offer(limiter: &mut OpcodeRateLimiter, message: &DigMessage, elapsed: u128, send_timeout: u128) -> (r: SendStep)
    ensures
        exists|now: u64|
            {
                &&& is_step(
                    r,
                    message@,
                    #[trigger] old(limiter)@.verdict_at(now, message.msg_type, message.data@.len()),
                    elapsed as int,
                    send_timeout as int,
                )
                &&& final(limiter)@ == old(limiter)@.after(now, message.msg_type, message.data@.len())
            },
        r is Write ==> r->Write_0@ == dig_message::encoded_frame(message@),
        r is Write && message.data@.len() <= 16_777_216 ==> dig_message::decoded_frame(r->Write_0@) == Some(message@),
        r is Wait ==> elapsed + 1_000_000_000 <= send_timeout,
        r matches SendStep::Fail(error) ==> {
            ||| error matches LinkError::Unsendable(opcode, len) && opcode == message.msg_type && len
                == message.data@.len()
            ||| error matches LinkError::SendTimeout(opcode) && opcode == message.msg_type && elapsed + 1_000_000_000
                > send_timeout
        },
{
    let admission = limiter.try_admit(message);
    send_step(message, admission, elapsed, send_timeout)
}

// ---------------------------------------------------------------------------
// Receiving
// ---------------------------------------------------------------------------

/// A websocket frame, as far as the link tells frames apart.
#[derive(Debug)]
pub enum InboundFrame {
    /// The peer closes the connection.
    Close,
    /// A ping, a pong or a raw frame, which the transport has dealt with.
    Control,
    /// Text, which the protocol does not use.
    Text(String),
    /// One whole binary payload.
    Binary(Vec<u8>),
}

/// What the reader does with a frame.
#[derive(Debug)]
pub enum Routing {
    /// End the loop.
    Stop,
    /// Go on with the next frame.
    Ignore,
    /// Log that an unexpected text arrived, and go on.
    UnexpectedText(String),
    /// Log that a payload did not decode, and go on.
    Malformed,
    /// Hand the message to the request that it answers.
    Answer(Request, DigMessage),
    /// Hand the message to the application, without waiting: where its queue is full, the
    /// message is dropped.
    Deliver(DigMessage),
}

/// The outstanding requests after a payload arrived.
pub open spec fn after_payload(before: request_map::Outstanding, payload: Seq<u8>) -> request_map::Outstanding {
    match dig_message::decoded_frame(payload) {
        Some(frame) => match frame.id {
            Some(id) => before.after_frame(id, frame.msg_type),
            None => before,
        },
        None => before,
    }
}

/// Whether `routing` is right for a payload: what does not decode is skipped, what answers a
/// request goes to that request, and everything else goes to the application.
pub open spec fn routes(before: request_map::Outstanding, payload: Seq<u8>, routing: Routing) -> bool {
    match dig_message::decoded_frame(payload) {
        None => routing is Malformed,
        Some(frame) => match frame.id {
            Some(id) if before.is_answered_by(id, frame.msg_type) => routing matches Routing::Answer(request, message)
                && request@ == before.waiters[id] && message@ == frame,
            _ => routing matches Routing::Deliver(message) && message@ == frame,
        },
    }
}

/// Routes one inbound frame.
///
/// Decoding never depends on the opcode being known, an id that no request holds is delivered,
/// and a payload that does not decode is skipped: no single frame but a close ends the link.
pub fn route(requests: &mut RequestMap, frame: InboundFrame) -> (r: Routing)
    ensures
        match frame {
            InboundFrame::Close => r is Stop && final(requests)@ == old(requests)@,
            InboundFrame::Control => r is Ignore && final(requests)@ == old(requests)@,
            InboundFrame::Text(text) => r == Routing::UnexpectedText(text) && final(requests)@ == old(requests)@,
            InboundFrame::Binary(payload) => routes(old(requests)@, payload@, r) && final(requests)@
                == after_payload(old(requests)@, payload@),
        },
        final(requests)@.next_id == old(requests)@.next_id,
        frame matches InboundFrame::Binary(payload) ==> match dig_message::decoded_frame(payload@) {
            None => r is Malformed && final(requests)@.waiters == old(requests)@.waiters,
            Some(sent) => match sent.id {
                None => r matches Routing::Deliver(message) && message@ == sent && final(requests)@.waiters == old(
                    requests,
                )@.waiters,
                Some(id) => {
                    let waiters = old(requests)@.waiters;
                    if waiters.contains_key(id) && waiters[id].expected.contains(sent.msg_type) {
                        &&& r matches Routing::Answer(request, message) && request@ == waiters[id] && message@ == sent
                        &&& final(requests)@.waiters == waiters.remove(id)
                    } else {
                        &&& r matches Routing::Deliver(message) && message@ == sent
                        &&& !waiters.contains_key(id) ==> final(requests)@.waiters == waiters
                        &&& waiters.contains_key(id) ==> final(requests)@.waiters == waiters.insert(
                            id,
                            (request_map::Waiter { undeclared: Some(sent.msg_type), ..waiters[id] }),
                        )
                    }
                },
            },
        },
{
    match frame {
        InboundFrame::Close => Routing::Stop,
        InboundFrame::Control => Routing::Ignore,
        InboundFrame::Text(text) => Routing::UnexpectedText(text),
        InboundFrame::Binary(payload) => {
            let message = match DigMessage::from_bytes_owned(payload) {
                Some(message) => message,
                None => return Routing::Malformed,
            };
            match message.id {
                Some(id) => match requests.take(id, message.msg_type) {
                    Correlation::Answer(request) => Routing::Answer(request, message),
                    Correlation::Undeclared => Routing::Deliver(message),
                    Correlation::Unknown => Routing::Deliver(message),
                },
                None => Routing::Deliver(message),
            }
        },
    }
}

// ---------------------------------------------------------------------------
// Requests
// ---------------------------------------------------------------------------

/// Registers a request and frames it: the id that was reserved, and the message to send.
pub fn begin_request(
    requests: &mut RequestMap,
    sender: oneshot::Sender<DigMessage>,
    permit: OwnedSemaphorePermit,
    opcode: u8,
    expected: Vec<u8>,
    data: Bytes,
) -> (r: (u16, DigMessage))
    requires
        old(requests)@.waiters.len() <= request_map::CAPACITY,
    ensures
        r.1@ == (dig_message::Frame { msg_type: opcode, id: Some(r.0), data: data@ }),
        exists|closed: Seq<u16>|
            {
                let kept = #[trigger] old(requests)@.without(closed);
                &&& old(requests)@.abandoned(closed)
                &&& kept.found_open()
                &&& request_map::first_free(kept.waiters.dom(), kept.next_id, r.0)
                &&& final(requests)@ == kept.with(
                    r.0,
                    (request_map::Waiter { sender, expected: expected@, undeclared: None, permit }),
                )
            },
        old(requests)@.waiters.len() < request_map::CAPACITY ==> final(requests)@.waiters.len()
            <= request_map::CAPACITY,
        final(requests)@.waiters.len() <= request_map::CAPACITY || (old(requests)@.waiters.len()
            == request_map::CAPACITY && old(requests)@.found_open()),
        r.1.msg_type == opcode,
        r.1.id == Some(r.0),
        r.1.data@ == data@,
        old(requests)@.waiters.contains_key(r.0) ==> request_map::receiver_gone(old(requests)@.waiters[r.0].sender),
        final(requests)@.waiters.contains_key(r.0),
        final(requests)@.waiters[r.0] == (request_map::Waiter { sender, expected: expected@, undeclared: None, permit }),
        final(requests)@.next_id == (r.0 + 1) % 0x1_0000,
        forall|passed: u16|
            (passed - old(requests)@.next_id) % 0x1_0000 < (r.0 - old(requests)@.next_id) % 0x1_0000 ==> #[trigger] old(
                requests,
            )@.waiters.contains_key(passed) && request_map::found_open(old(requests)@.waiters[passed].sender),
        forall|other: u16|
            old(requests)@.waiters.contains_key(other) && !request_map::receiver_gone(
                old(requests)@.waiters[other].sender,
            ) ==> #[trigger] final(requests)@.waiters.contains_key(other),
        forall|other: u16| #[trigger]
            final(requests)@.waiters.contains_key(other) && other != r.0 ==> old(requests)@.waiters.contains_key(other)
                && final(requests)@.waiters[other] == old(requests)@.waiters[other] && request_map::found_open(
                old(requests)@.waiters[other].sender,
            ),
{
    let id = requests.insert(sender, expected, permit);
    (id, DigMessage::new(opcode, Some(id), data))
}

/// How the wait for a reply ended.
#[derive(Debug)]
pub enum Outcome {
    /// The request could not be sent.
    SendFailed(LinkError),
    /// The reply arrived.
    Replied(DigMessage),
    /// The link closed.
    Closed(RecvError),
    /// The deadline passed.
    Expired,
}

/// The outstanding requests once the request under `id` has ended so. One that was not sent or
/// that expired gives its id back at once.
pub open spec fn after_outcome(before: request_map::Outstanding, id: u16, outcome: Outcome) -> request_map::Outstanding {
    match outcome {
        Outcome::SendFailed(_) | Outcome::Expired => before.cancelled(id),
        Outcome::Replied(_) | Outcome::Closed(_) => before,
    }
}

/// Whether `result` is what a request reports that has ended so. At the deadline, a peer that
/// answered with an undeclared opcode is told apart from one that said nothing.
pub open spec fn reports(
    before: request_map::Outstanding,
    id: u16,
    opcode: u8,
    outcome: Outcome,
    result: Result<DigMessage, LinkError>,
) -> bool {
    match outcome {
        Outcome::SendFailed(error) => result matches Err(reported) && reported == error,
        Outcome::Replied(reply) => result matches Ok(message) && message == reply,
        Outcome::Closed(error) => result matches Err(reported) && reported == LinkError::Recv(error),
        Outcome::Expired => if before.waiters.contains_key(id) && before.waiters[id].undeclared is Some {
            result matches Err(LinkError::InvalidResponse(expected, found)) && expected@
                == before.waiters[id].expected && Some(found) == before.waiters[id].undeclared
        } else {
            result matches Err(reported) && reported == LinkError::RequestTimeout(opcode)
        },
    }
}

/// Ends the request with `opcode` that holds `id`.
pub fn conclude_request(requests: &mut RequestMap, id: u16, opcode: u8, outcome: Outcome) -> (r: Result<
    DigMessage,
    LinkError,
>)
    ensures
        reports(old(requests)@, id, opcode, outcome, r),
        final(requests)@ == after_outcome(old(requests)@, id, outcome),
        final(requests)@.next_id == old(requests)@.next_id,
        match outcome {
            Outcome::SendFailed(error) => r matches Err(reported) && reported == error && final(requests)@.waiters
                == old(requests)@.waiters.remove(id),
            Outcome::Replied(reply) => r matches Ok(message) && message == reply && final(requests)@.waiters == old(
                requests,
            )@.waiters,
            Outcome::Closed(error) => r matches Err(LinkError::Recv(reported)) && reported == error && final(requests)@.waiters == old(requests)@.waiters,
            Outcome::Expired => {
                let waiters = old(requests)@.waiters;
                &&& final(requests)@.waiters == waiters.remove(id)
                &&& match r {
                    Err(LinkError::InvalidResponse(expected, found)) => {
                        &&& waiters.contains_key(id)
                        &&& waiters[id].undeclared == Some(found)
                        &&& waiters[id].expected == expected@
                    },
                    Err(LinkError::RequestTimeout(reported)) => {
                        &&& waiters.contains_key(id) ==> waiters[id].undeclared is None
                        &&& reported == opcode
                    },
                    _ => false,
                }
            },
        },
{
    match outcome {
        Outcome::SendFailed(error) => {
            let _ = requests.cancel(id);
            Err(error)
        },
        Outcome::Replied(message) => Ok(message),
        Outcome::Closed(error) => Err(LinkError::from(error)),
        Outcome::Expired => {
            let diagnosis = match requests.cancel(id) {
                Some(request) => request.into_diagnosis(),
                None => None,
            };
            match diagnosis {
                Some((expected, found)) => Err(LinkError::InvalidResponse(expected, found)),
                None => Err(LinkError::RequestTimeout(opcode)),
            }
        },
    }
}

/// The body of a reply that must carry exactly one opcode.
pub fn infallible_reply(expected: u8, message: DigMessage) -> (r: Result<Bytes, LinkError>)
    ensures
        if message.msg_type == expected {
            r matches Ok(body) && body@ == message.data@
        } else {
            r matches Err(LinkError::InvalidResponse(opcodes, found)) && opcodes@ == seq![expected] && found
                == message.msg_type
        },
{
    if message.msg_type != expected {
        let mut declared: Vec<u8> = Vec::new();
        declared.push(expected);
        assert(declared@ =~= seq![expected]);
        return Err(LinkError::InvalidResponse(declared, message.msg_type));
    }
    Ok(message.data)
}

/// The body of a reply that must carry the opcode of an acceptance or that of a rejection. Where
/// the two are one, it is an acceptance.
pub fn fallible_reply(accepted: u8, rejected: u8, message: DigMessage) -> (r: Result<Result<Bytes, Bytes>, LinkError>)
    ensures
        if message.msg_type == accepted {
            r matches Ok(Ok(body)) && body@ == message.data@
        } else if message.msg_type == rejected {
            r matches Ok(Err(body)) && body@ == message.data@
        } else {
            r matches Err(LinkError::InvalidResponse(opcodes, found)) && opcodes@ == seq![accepted, rejected]
                && found == message.msg_type
        },
{
    if message.msg_type == accepted {
        Ok(Ok(message.data))
    } else if message.msg_type == rejected {
        Ok(Err(message.data))
    } else {
        let mut declared: Vec<u8> = Vec::new();
        declared.push(accepted);
        declared.push(rejected);
        assert(declared@ =~= seq![accepted, rejected]);
        Err(LinkError::InvalidResponse(declared, message.msg_type))
    }
}

// ---------------------------------------------------------------------------
// Laws
// ---------------------------------------------------------------------------

/// A send ends: it waits no more often than the backoff goes into the timeout. `elapsed` holds the
/// times at which a deferred message was told to wait, each a whole backoff after the one before.
pub proof fn a_send_waits_a_bounded_number_of_times(elapsed: Seq<int>, send_timeout: int)
    requires
        elapsed.len() > 0,
        elapsed[0] >= 0,
        forall|i: int| 0 < i < elapsed.len() ==> #[trigger] elapsed[i] >= elapsed[i - 1] + RATE_LIMIT_BACKOFF,
        forall|i: int| 0 <= i < elapsed.len() ==> may_wait(#[trigger] elapsed[i], send_timeout),
    ensures
        elapsed.len() * RATE_LIMIT_BACKOFF <= send_timeout,
{
    let last = elapsed.len() - 1;
    waits_add_up(elapsed, last);
    assert(may_wait(elapsed[last], send_timeout));
}

proof fn waits_add_up(elapsed: Seq<int>, i: int)
    requires
        0 <= i < elapsed.len(),
        elapsed[0] >= 0,
        forall|i: int| 0 < i < elapsed.len() ==> #[trigger] elapsed[i] >= elapsed[i - 1] + RATE_LIMIT_BACKOFF,
    ensures
        elapsed[i] >= i * RATE_LIMIT_BACKOFF,
    decreases i,
{
    if i > 0 {
        waits_add_up(elapsed, i - 1);
    }
}

/// A request and its reply find each other: once a request has been registered under `id`, a
/// payload that frames a reply with that id and a declared opcode goes to its waiter.
pub proof fn a_reply_reaches_its_request(
    before: request_map::Outstanding,
    id: u16,
    waiter: request_map::Waiter,
    reply: dig_message::Frame,
    routing: Routing,
)
    requires
        reply.id == Some(id),
        waiter.expected.contains(reply.msg_type),
        reply.data.len() <= DigMessage::MAX_MESSAGE_SIZE,
        routes(before.with(id, waiter), dig_message::encoded_frame(reply), routing),
    ensures
        routing matches Routing::Answer(request, message) && request@ == waiter && message@ == reply,
{
    dig_message::frame_round_trips(reply, Seq::empty());
    assert(dig_message::encoded_frame(reply) + Seq::empty() =~= dig_message::encoded_frame(reply));
}

/// A message that answers no request reaches the application whatever its opcode and its id.
pub proof fn an_unmatched_message_is_delivered(
    before: request_map::Outstanding,
    message: dig_message::Frame,
    routing: Routing,
)
    requires
        message.data.len() <= DigMessage::MAX_MESSAGE_SIZE,
        message.id matches Some(id) ==> !before.is_answered_by(id, message.msg_type),
        routes(before, dig_message::encoded_frame(message), routing),
    ensures
        routing matches Routing::Deliver(delivered) && delivered@ == message,
{
    dig_message::frame_round_trips(message, Seq::empty());
    assert(dig_message::encoded_frame(message) + Seq::empty() =~= dig_message::encoded_frame(message));
}

/// A payload that answers no request does not change how a later payload is routed: a flood of
/// unmatched or malformed payloads never keeps a reply from its request.
pub proof fn unmatched_payloads_do_not_disturb_routing(
    before: request_map::Outstanding,
    payload: Seq<u8>,
    id: u16,
    msg_type: u8,
)
    requires
        dig_message::decoded_frame(payload) matches Some(frame) ==> (frame.id matches Some(other)
            ==> !before.is_answered_by(other, frame.msg_type)),
    ensures
        after_payload(before, payload).is_answered_by(id, msg_type) == before.is_answered_by(id, msg_type),
{
}

/// A request that was answered with an undeclared opcode and nothing else reports that opcode at
/// its deadline.
pub proof fn a_junk_reply_is_reported_at_the_deadline(
    before: request_map::Outstanding,
    id: u16,
    opcode: u8,
    waiter: request_map::Waiter,
    junk: u8,
    result: Result<DigMessage, LinkError>,
)
    requires
        !waiter.expected.contains(junk),
        reports(before.with(id, waiter).after_frame(id, junk), id, opcode, Outcome::Expired, result),
    ensures
        result matches Err(LinkError::InvalidResponse(expected, found)) && expected@ == waiter.expected && found
            == junk,
{
}

/// A request that nothing arrived for reports a plain timeout that names its own opcode.
pub proof fn a_silent_peer_is_reported_as_a_timeout(
    before: request_map::Outstanding,
    id: u16,
    opcode: u8,
    waiter: request_map::Waiter,
    result: Result<DigMessage, LinkError>,
)
    requires
        waiter.undeclared is None,
        reports(before.with(id, waiter), id, opcode, Outcome::Expired, result),
    ensures
        result matches Err(LinkError::RequestTimeout(reported)) && reported == opcode,
{
}

/// The fixed numbers of a link: 32 messages may queue, a deferred message is offered again after a
/// second, and budgets are counted over a minute.
pub proof fn the_numbers_of_a_link()
    ensures
        INBOUND_CHANNEL_CAPACITY == 32,
        NANOSECONDS == 1_000_000_000,
        RATE_LIMIT_BACKOFF == NANOSECONDS,
        RATE_LIMIT_WINDOW_SECONDS == 60,
{
}

/// What is written for an admitted message decodes to that message, with its opcode, its id and its
/// payload, whatever time has passed.
pub proof fn an_admitted_message_is_written_whole(
    step: SendStep,
    message: dig_message::Frame,
    elapsed: int,
    send_timeout: int,
)
    requires
        is_step(step, message, Admission::Admitted, elapsed, send_timeout),
    ensures
        step is Write,
        step->Write_0@ == dig_message::encoded_frame(message),
        message.data.len() <= 16 * 1024 * 1024 ==> dig_message::decoded_frame(step->Write_0@) == Some(message),
{
    if message.data.len() <= 16 * 1024 * 1024 {
        dig_message::frame_round_trips(message, Seq::empty());
        assert(dig_message::encoded_frame(message) + Seq::empty() =~= dig_message::encoded_frame(message));
    }
}

/// A message that no budget admits fails at once under its own opcode and length, however much time
/// is left.
pub proof fn an_unsendable_message_fails_at_once(
    step: SendStep,
    message: dig_message::Frame,
    elapsed: int,
    send_timeout: int,
)
    requires
        is_step(step, message, Admission::Unsendable, elapsed, send_timeout),
    ensures
        step matches SendStep::Fail(LinkError::Unsendable(opcode, len)) && opcode == message.msg_type && len
            == message.data.len(),
{
}

/// A deferred message waits exactly where a whole second is left, and otherwise times out under its
/// own opcode.
pub proof fn a_deferred_message_waits_while_a_second_is_left(
    step: SendStep,
    message: dig_message::Frame,
    elapsed: int,
    send_timeout: int,
)
    requires
        is_step(step, message, Admission::Deferred, elapsed, send_timeout),
    ensures
        step is Wait <==> elapsed + 1_000_000_000 <= send_timeout,
        step is Wait || (step matches SendStep::Fail(LinkError::SendTimeout(opcode)) && opcode == message.msg_type),
        may_wait(elapsed, send_timeout) <==> send_timeout - elapsed >= 1_000_000_000,
{
}

/// A payload that decodes to a frame with an id and an opcode that the request under the id declared
/// goes to that request, whatever else is outstanding and wherever the cursor stands. The request is
/// then gone, and nothing else has changed.
pub proof fn an_answer_reaches_its_request_whatever_else_is_outstanding(
    before: request_map::Outstanding,
    payload: Seq<u8>,
    reply: dig_message::Frame,
    id: u16,
    routing: Routing,
)
    requires
        dig_message::decoded_frame(payload) == Some(reply),
        reply.id == Some(id),
        before.waiters.contains_key(id),
        before.waiters[id].expected.contains(reply.msg_type),
        routes(before, payload, routing),
    ensures
        routing matches Routing::Answer(request, message) && request@ == before.waiters[id] && message@ == reply,
        after_payload(before, payload).waiters == before.waiters.remove(id),
        after_payload(before, payload).next_id == before.next_id,
{
}

/// A reply finds its request even where another request was registered after it.
pub proof fn an_answer_reaches_an_earlier_request(
    before: request_map::Outstanding,
    id: u16,
    waiter: request_map::Waiter,
    other: u16,
    later: request_map::Waiter,
    reply: dig_message::Frame,
    routing: Routing,
)
    requires
        other != id,
        reply.id == Some(id),
        reply.data.len() <= 16 * 1024 * 1024,
        waiter.expected.contains(reply.msg_type),
        routes(before.with(id, waiter).with(other, later), dig_message::encoded_frame(reply), routing),
    ensures
        routing matches Routing::Answer(request, message) && request@ == waiter && message@ == reply,
{
    dig_message::frame_round_trips(reply, Seq::empty());
    assert(dig_message::encoded_frame(reply) + Seq::empty() =~= dig_message::encoded_frame(reply));
}

/// A payload that decodes but answers nothing goes to the application: one without an id, one whose
/// id no request holds, and one whose opcode the request under its id did not declare. Only the last
/// leaves a mark, on that request alone.
pub proof fn what_answers_nothing_goes_to_the_application(
    before: request_map::Outstanding,
    payload: Seq<u8>,
    frame: dig_message::Frame,
    routing: Routing,
)
    requires
        dig_message::decoded_frame(payload) == Some(frame),
        frame.id matches Some(id) && before.waiters.contains_key(id) ==> !before.waiters[frame.id->Some_0].expected.contains(
            frame.msg_type,
        ),
        routes(before, payload, routing),
    ensures
        routing matches Routing::Deliver(message) && message@ == frame,
        after_payload(before, payload).next_id == before.next_id,
        frame.id is None ==> after_payload(before, payload).waiters == before.waiters,
        frame.id matches Some(id) ==> {
            let after = after_payload(before, payload).waiters;
            &&& after.dom() == before.waiters.dom()
            &&& after.remove(id) == before.waiters.remove(id)
            &&& before.waiters.contains_key(id) ==> {
                &&& after[id].undeclared == Some(frame.msg_type)
                &&& after[id].expected == before.waiters[id].expected
                &&& after[id].sender == before.waiters[id].sender
                &&& after[id].permit == before.waiters[id].permit
            }
        },
{
    if let Some(id) = frame.id {
        request_map::a_frame_is_taken_or_noted(before, id, frame.msg_type);
    }
}

/// A payload that does not decode is skipped, and only such a one is. It touches no request.
pub proof fn what_does_not_decode_is_skipped(before: request_map::Outstanding, payload: Seq<u8>, routing: Routing)
    requires
        routes(before, payload, routing),
    ensures
        routing is Malformed <==> dig_message::decoded_frame(payload) is None,
        routing is Malformed ==> after_payload(before, payload) == before,
{
}

/// Routing of a payload depends on the request under its id alone.
pub proof fn routing_looks_at_one_request(
    one: request_map::Outstanding,
    two: request_map::Outstanding,
    payload: Seq<u8>,
    routing: Routing,
)
    requires
        dig_message::decoded_frame(payload) matches Some(frame) ==> (frame.id matches Some(id) ==> {
            &&& one.waiters.contains_key(id) == two.waiters.contains_key(id)
            &&& one.waiters.contains_key(id) ==> one.waiters[id] == two.waiters[id]
        }),
    ensures
        routes(one, payload, routing) == routes(two, payload, routing),
{
}

/// A request gives its id back exactly where it was not sent or has expired, and leaves every other
/// request and the cursor alone.
pub proof fn an_ended_request_gives_its_id_back(before: request_map::Outstanding, id: u16, outcome: Outcome)
    ensures
        ({
            let after = after_outcome(before, id, outcome);
            &&& after.next_id == before.next_id
            &&& after.waiters.remove(id) == before.waiters.remove(id)
            &&& outcome is SendFailed || outcome is Expired ==> !after.waiters.contains_key(id)
            &&& outcome is Replied || outcome is Closed ==> after.waiters == before.waiters
        }),
{
    assert(after_outcome(before, id, outcome).waiters.remove(id) =~= before.waiters.remove(id));
}

/// What a request reports: the reply where one came, and otherwise the error that says how the wait
/// ended. At the deadline that is the opcode that was noted on the request, with those it declared,
/// or a timeout where none was.
pub proof fn a_request_reports_how_it_ended(
    before: request_map::Outstanding,
    id: u16,
    opcode: u8,
    outcome: Outcome,
    result: Result<DigMessage, LinkError>,
)
    requires
        reports(before, id, opcode, outcome, result),
    ensures
        result is Ok <==> outcome is Replied,
        outcome matches Outcome::Replied(reply) ==> result->Ok_0 == reply,
        outcome matches Outcome::SendFailed(error) ==> result->Err_0 == error,
        outcome matches Outcome::Closed(error) ==> result->Err_0 == LinkError::Recv(error),
        outcome is Expired ==> match result->Err_0 {
            LinkError::InvalidResponse(expected, found) => {
                &&& before.waiters.contains_key(id)
                &&& before.waiters[id].undeclared == Some(found)
                &&& before.waiters[id].expected == expected@
            },
            LinkError::RequestTimeout(reported) => {
                &&& before.waiters.contains_key(id) ==> before.waiters[id].undeclared is None
                &&& reported == opcode
            },
            _ => false,
        },
{
}

} // verus!
