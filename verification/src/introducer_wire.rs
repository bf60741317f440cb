//! The messages between a node and an introducer.
//!
//! [`RegisterPeer`] and [`RegisterAck`] are DIG messages, by which a node advertises where it can
//! be reached. [`RequestPeersIntroducer`] and [`RespondPeersIntroducer`] are the two of Chia's
//! introducer protocol, and keep its encoding.

use crate::bytes::Bytes;
use crate::dig_message::DigMessage;
use crate::dig_message_type::DigMessageType;
use crate::node_type;
use crate::node_type::NodeType;
use crate::streamable;
use crate::streamable::StreamError;
use vstd::prelude::*;

verus! {

// ---------------------------------------------------------------------------
// RegisterPeer
// ---------------------------------------------------------------------------

/// The contents of a registration.
#[verifier::ext_equal]
pub struct Registration {
    /// The address.
    pub ip: Seq<char>,
    /// The port.
    pub port: u16,
    /// The role.
    pub node_type: NodeType,
}

/// Self-registration with an introducer.
#[derive(Debug, Clone, PartialEq, Eq, Hash)]
pub struct RegisterPeer {
    /// Externally reachable address or host name.
    pub ip: String,
    /// Listening port.
    pub port: u16,
    /// Declared service role.
    pub node_type: NodeType,
}

impl View for RegisterPeer {
    type V = Registration;

    open spec fn view(&self) -> Registration {
        Registration { ip: self.ip@, port: self.port, node_type: self.node_type }
    }
}

/// The bytes of a registration: the fields in the order of their declaration.
pub open spec fn encoded_registration(registration: Registration) -> Seq<u8> {
    streamable::encoded_text(registration.ip) + streamable::be_u16(registration.port) + seq![
        node_type::role_byte(registration.node_type),
    ]
}

/// Decoding a registration of `input` at `at`.
pub open spec fn parsed_registration(input: Seq<u8>, at: int) -> streamable::Parsed<Registration> {
    match streamable::parsed_text(input, at) {
        Err(error) => Err(error),
        Ok((ip, after_ip)) => match streamable::parsed_u16(input, after_ip) {
            Err(error) => Err(error),
            Ok((port, after_port)) => match node_type::parsed_role(input, after_port) {
                Err(error) => Err(error),
                Ok((node_type, end)) => Ok((Registration { ip, port, node_type }, end)),
            },
        },
    }
}

/// Decoding a buffer that holds one registration and nothing behind it.
pub open spec fn decoded_registration(input: Seq<u8>) -> Result<Registration, StreamError> {
    match parsed_registration(input, 0) {
        Err(error) => Err(error),
        Ok((registration, end)) => if end == input.len() {
            Ok(registration)
        } else {
            Err(StreamError::InputTooLarge)
        },
    }
}

impl RegisterPeer {
    /// A registration of the given parts.
    #[must_use]
    pub fn new(ip: String, port: u16, node_type: NodeType) -> (r: Self)
        ensures
            r@ == (Registration { ip: ip@, port, node_type }),
    {
        RegisterPeer { ip, port, node_type }
    }

    /// The encoded registration. An address that its length prefix cannot describe is refused.
    pub fn to_bytes(&self) -> (r: Result<Vec<u8>, StreamError>)
        ensures
            match r {
                Ok(encoded) => streamable::text_fits(self.ip@) && encoded@ == encoded_registration(self@),
                Err(error) => !streamable::text_fits(self.ip@) && error == StreamError::InputTooLarge,
            },
    {
        let mut out: Vec<u8> = Vec::new();
        streamable::stream_text(&self.ip, &mut out)?;
        streamable::stream_u16(self.port, &mut out)?;
        self.node_type.stream(&mut out)?;
        assert(out@ =~= encoded_registration(self@));
        Ok(out)
    }

    /// Decodes a registration of `input` at `at`, and says where it ends.
    pub fn parse(input: &[u8], at: usize) -> (r: Result<(Self, usize), StreamError>)
        requires
            at <= input@.len(),
        ensures
            match r {
                Ok((registration, next)) => next <= input@.len() && parsed_registration(input@, at as int) == Ok::<
                    (Registration, int),
                    StreamError,
                >((registration@, next as int)),
                Err(error) => parsed_registration(input@, at as int) == Err::<(Registration, int), StreamError>(
                    error,
                ),
            },
    {
        let (ip, after_ip) = streamable::parse_text(input, at)?;
        let (port, after_port) = streamable::parse_u16(input, after_ip)?;
        let (node_type, end) = NodeType::parse(input, after_port)?;
        Ok((RegisterPeer { ip, port, node_type }, end))
    }

    /// Decodes a buffer that holds one registration and nothing behind it.
    pub fn from_bytes(input: &[u8]) -> (r: Result<Self, StreamError>)
        ensures
            match r {
                Ok(registration) => decoded_registration(input@) == Ok::<Registration, StreamError>(registration@),
                Err(error) => decoded_registration(input@) == Err::<Registration, StreamError>(error),
            },
    {
        let (registration, end) = RegisterPeer::parse(input, 0)?;
        if end == input.len() {
            Ok(registration)
        } else {
            Err(StreamError::InputTooLarge)
        }
    }

    /// The registration as a message, with the given correlation id.
    pub fn to_dig_message(&self, id: Option<u16>) -> (r: Result<DigMessage, StreamError>)
        ensures
            match r {
                Ok(message) => {
                    &&& streamable::text_fits(self.ip@)
                    &&& message.msg_type == 218
                    &&& message.id == id
                    &&& message.data@ == encoded_registration(self@)
                },
                Err(error) => !streamable::text_fits(self.ip@) && error == StreamError::InputTooLarge,
            },
    {
        let body = self.to_bytes()?;
        Ok(DigMessage::new(DigMessageType::RegisterPeer.to_byte(), id, Bytes::new(body)))
    }

    /// The registration in a message: `None` where the opcode is another one, which is no error,
    /// and the decoded body otherwise.
    pub fn from_dig_message(message: &DigMessage) -> (r: Option<Result<Self, StreamError>>)
        ensures
            r is None <==> message.msg_type != 218,
            r matches Some(body) ==> match body {
                Ok(registration) => decoded_registration(message.data@) == Ok::<Registration, StreamError>(
                    registration@,
                ),
                Err(error) => decoded_registration(message.data@) == Err::<Registration, StreamError>(error),
            },
    {
        if message.msg_type != DigMessageType::RegisterPeer.to_byte() {
            return None;
        }
        Some(RegisterPeer::from_bytes(message.data.as_ref()))
    }
}

/// A registration whose address fits its length prefix is decoded as it was.
pub proof fn registration_round_trips(registration: Registration)
    requires
        streamable::text_fits(registration.ip),
    ensures
        decoded_registration(encoded_registration(registration)) == Ok::<Registration, StreamError>(registration),
{
    let input = encoded_registration(registration);
    let ip = streamable::encoded_text(registration.ip);
    let port = streamable::be_u16(registration.port);
    let role = seq![node_type::role_byte(registration.node_type)];
    streamable::whole_stands(input);
    streamable::concatenation_stands(input, 0, ip + port, role);
    streamable::concatenation_stands(input, 0, ip, port);
    streamable::text_round_trips(registration.ip, input, 0);
    streamable::u16_round_trips(registration.port, input, ip.len() as int);
    let after_port = (ip + port).len() as int;
    assert(input[after_port + 0] == role[0]);
    node_type::bytes_tell_roles_apart();
    assert(node_type::names_a_role(role[0]));
}

// ---------------------------------------------------------------------------
// RegisterAck
// ---------------------------------------------------------------------------

/// The answer to a registration. A `false` is a rejection by policy and a valid outcome, no error.
#[derive(Debug, Clone, Copy, PartialEq, Eq, Hash)]
pub struct RegisterAck {
    /// Whether the peer was accepted.
    pub success: bool,
}

/// Decoding an answer of `input` at `at`.
pub open spec fn parsed_ack(input: Seq<u8>, at: int) -> streamable::Parsed<RegisterAck> {
    match streamable::parsed_bool(input, at) {
        Err(error) => Err(error),
        Ok((success, end)) => Ok((RegisterAck { success }, end)),
    }
}

/// Decoding a buffer that holds one answer and nothing behind it.
pub open spec fn decoded_ack(input: Seq<u8>) -> Result<RegisterAck, StreamError> {
    match parsed_ack(input, 0) {
        Err(error) => Err(error),
        Ok((ack, end)) => if end == input.len() {
            Ok(ack)
        } else {
            Err(StreamError::InputTooLarge)
        },
    }
}

impl RegisterAck {
    /// An answer.
    #[must_use]
    pub fn new(success: bool) -> (r: Self)
        ensures
            r.success == success,
    {
        RegisterAck { success }
    }

    /// The encoded answer: one byte.
    pub fn to_bytes(&self) -> (r: Result<Vec<u8>, StreamError>)
        ensures
            r is Ok,
            r->Ok_0@ == streamable::encoded_bool(self.success),
    {
        let mut out: Vec<u8> = Vec::new();
        streamable::stream_bool(self.success, &mut out)?;
        assert(out@ =~= streamable::encoded_bool(self.success));
        Ok(out)
    }

    /// Decodes an answer of `input` at `at`, and says where it ends.
    pub fn parse(input: &[u8], at: usize) -> (r: Result<(Self, usize), StreamError>)
        requires
            at <= input@.len(),
        ensures
            streamable::agrees(r, parsed_ack(input@, at as int)),
            r matches Ok((_, next)) ==> next <= input@.len(),
    {
        let (success, end) = streamable::parse_bool(input, at)?;
        Ok((RegisterAck { success }, end))
    }

    /// Decodes a buffer that holds one answer and nothing behind it.
    pub fn from_bytes(input: &[u8]) -> (r: Result<Self, StreamError>)
        ensures
            r == decoded_ack(input@),
    {
        let (ack, end) = RegisterAck::parse(input, 0)?;
        if end == input.len() {
            Ok(ack)
        } else {
            Err(StreamError::InputTooLarge)
        }
    }

    /// The answer as a message, with the given correlation id.
    pub fn to_dig_message(&self, id: Option<u16>) -> (r: Result<DigMessage, StreamError>)
        ensures
            r is Ok,
            r->Ok_0.msg_type == 219,
            r->Ok_0.id == id,
            r->Ok_0.data@ == streamable::encoded_bool(self.success),
    {
        let body = self.to_bytes()?;
        Ok(DigMessage::new(DigMessageType::RegisterAck.to_byte(), id, Bytes::new(body)))
    }

    /// The answer in a message: `None` where the opcode is another one, which is no error, and the
    /// decoded body otherwise.
    pub fn from_dig_message(message: &DigMessage) -> (r: Option<Result<Self, StreamError>>)
        ensures
            r is None <==> message.msg_type != 219,
            r matches Some(body) ==> body == decoded_ack(message.data@),
    {
        if message.msg_type != DigMessageType::RegisterAck.to_byte() {
            return None;
        }
        Some(RegisterAck::from_bytes(message.data.as_ref()))
    }
}

/// An answer of either polarity is decoded as it was.
pub proof fn ack_round_trips(success: bool)
    ensures
        decoded_ack(streamable::encoded_bool(success)) == Ok::<RegisterAck, StreamError>(RegisterAck { success }),
{
    let input = streamable::encoded_bool(success);
    streamable::whole_stands(input);
    streamable::bool_round_trips(success, input, 0);
}

// ---------------------------------------------------------------------------
// RequestPeersIntroducer and RespondPeersIntroducer
// ---------------------------------------------------------------------------

/// Request for the peers an introducer knows. The body is empty.
#[derive(Debug, Clone, Copy, PartialEq, Eq, Hash)]
pub struct RequestPeersIntroducer {}

/// Decoding a buffer that holds a request and nothing behind it.
pub open spec fn decoded_peers_request(input: Seq<u8>) -> Result<RequestPeersIntroducer, StreamError> {
    if input.len() == 0 {
        Ok(RequestPeersIntroducer {  })
    } else {
        Err(StreamError::InputTooLarge)
    }
}

impl RequestPeersIntroducer {
    /// The opcode of the request in Chia's namespace.
    pub const OPCODE: u8 = 63;

    /// A request.
    #[must_use]
    pub fn new() -> (r: Self)
        ensures
            r == (RequestPeersIntroducer {  }),
    {
        RequestPeersIntroducer {  }
    }

    /// The encoded request: nothing.
    pub fn to_bytes(&self) -> (r: Result<Vec<u8>, StreamError>)
        ensures
            r is Ok,
            r->Ok_0@ == Seq::<u8>::empty(),
    {
        Ok(Vec::new())
    }

    /// Decodes a buffer that holds a request and nothing behind it.
    pub fn from_bytes(input: &[u8]) -> (r: Result<Self, StreamError>)
        ensures
            r == decoded_peers_request(input@),
    {
        if input.len() == 0 {
            Ok(RequestPeersIntroducer {  })
        } else {
            Err(StreamError::InputTooLarge)
        }
    }
}

/// The contents of one entry of a peer list.
#[verifier::ext_equal]
pub struct KnownPeer {
    /// The address.
    pub host: Seq<char>,
    /// The port.
    pub port: u16,
    /// When the peer was last seen.
    pub timestamp: u64,
}

/// One entry of a peer list.
#[derive(Debug, Clone, PartialEq, Eq, Hash)]
pub struct TimestampedPeerInfo {
    /// Address or host name.
    pub host: String,
    /// Listening port.
    pub port: u16,
    /// When the peer was last seen, in seconds since the Unix epoch.
    pub timestamp: u64,
}

impl View for TimestampedPeerInfo {
    type V = KnownPeer;

    open spec fn view(&self) -> KnownPeer {
        KnownPeer { host: self.host@, port: self.port, timestamp: self.timestamp }
    }
}

/// The bytes of one entry: the fields in the order of their declaration.
pub open spec fn encoded_peer(peer: KnownPeer) -> Seq<u8> {
    streamable::encoded_text(peer.host) + streamable::be_u16(peer.port) + streamable::be_u64(peer.timestamp)
}

/// The bytes of the entries, one behind the other.
pub open spec fn encoded_peers(peers: Seq<KnownPeer>) -> Seq<u8>
    decreases peers.len(),
{
    if peers.len() == 0 {
        Seq::empty()
    } else {
        encoded_peers(peers.drop_last()) + encoded_peer(peers.last())
    }
}

/// The bytes of a peer list: the number of its entries, then the entries.
pub open spec fn encoded_peer_list(peers: Seq<KnownPeer>) -> Seq<u8> {
    streamable::be_u32(peers.len() as u32) + encoded_peers(peers)
}

/// Whether the number of entries and every address fit their length prefixes.
pub open spec fn peers_fit(peers: Seq<KnownPeer>) -> bool {
    &&& peers.len() <= streamable::MAX_PREFIXED_LEN
    &&& forall|i: int| 0 <= i < peers.len() ==> streamable::text_fits(#[trigger] peers[i].host)
}

/// Decoding one entry of `input` at `at`.
pub open spec fn parsed_peer(input: Seq<u8>, at: int) -> streamable::Parsed<KnownPeer> {
    match streamable::parsed_text(input, at) {
        Err(error) => Err(error),
        Ok((host, after_host)) => match streamable::parsed_u16(input, after_host) {
            Err(error) => Err(error),
            Ok((port, after_port)) => match streamable::parsed_u64(input, after_port) {
                Err(error) => Err(error),
                Ok((timestamp, end)) => Ok((KnownPeer { host, port, timestamp }, end)),
            },
        },
    }
}

/// Decoding `count` entries of `input` from `at` on: the first that fails decides.
pub open spec fn parsed_peers(input: Seq<u8>, at: int, count: nat) -> streamable::Parsed<Seq<KnownPeer>>
    decreases count,
{
    if count == 0 {
        Ok((Seq::empty(), at))
    } else {
        match parsed_peers(input, at, (count - 1) as nat) {
            Err(error) => Err(error),
            Ok((peers, next)) => match parsed_peer(input, next) {
                Err(error) => Err(error),
                Ok((peer, end)) => Ok((peers.push(peer), end)),
            },
        }
    }
}

/// Decoding a peer list of `input` at `at`.
pub open spec fn parsed_peer_list(input: Seq<u8>, at: int) -> streamable::Parsed<Seq<KnownPeer>> {
    match streamable::parsed_u32(input, at) {
        Err(error) => Err(error),
        Ok((count, start)) => parsed_peers(input, start, count as nat),
    }
}

/// Decoding a buffer that holds one peer list and nothing behind it.
pub open spec fn decoded_peer_list(input: Seq<u8>) -> Result<Seq<KnownPeer>, StreamError> {
    match parsed_peer_list(input, 0) {
        Err(error) => Err(error),
        Ok((peers, end)) => if end == input.len() {
            Ok(peers)
        } else {
            Err(StreamError::InputTooLarge)
        },
    }
}

/// The contents of a list of entries.
pub open spec fn known_peers(list: Seq<TimestampedPeerInfo>) -> Seq<KnownPeer> {
    list.map_values(|peer: TimestampedPeerInfo| peer@)
}

impl TimestampedPeerInfo {
    /// An entry of the given parts.
    #[must_use]
    pub fn new(host: String, port: u16, timestamp: u64) -> (r: Self)
        ensures
            r@ == (KnownPeer { host: host@, port, timestamp }),
    {
        TimestampedPeerInfo { host, port, timestamp }
    }

    /// Appends the encoded entry to `out`. An address that its length prefix cannot describe is
    /// refused, and then nothing is appended.
    pub fn stream(&self, out: &mut Vec<u8>) -> (r: Result<(), StreamError>)
        ensures
            streamable::text_fits(self.host@) ==> r is Ok && final(out)@ == old(out)@ + encoded_peer(self@),
            !streamable::text_fits(self.host@) ==> r == streamable::refused_as_too_large() && final(out)@ == old(
                out,
            )@,
    {
        streamable::stream_text(&self.host, out)?;
        streamable::stream_u16(self.port, out)?;
        streamable::stream_u64(self.timestamp, out)?;
        assert(out@ =~= old(out)@ + encoded_peer(self@));
        Ok(())
    }

    /// Decodes an entry of `input` at `at`, and says where it ends.
    pub fn parse(input: &[u8], at: usize) -> (r: Result<(Self, usize), StreamError>)
        requires
            at <= input@.len(),
        ensures
            match r {
                Ok((peer, next)) => next <= input@.len() && parsed_peer(input@, at as int) == Ok::<
                    (KnownPeer, int),
                    StreamError,
                >((peer@, next as int)),
                Err(error) => parsed_peer(input@, at as int) == Err::<(KnownPeer, int), StreamError>(error),
            },
    {
        let (host, after_host) = streamable::parse_text(input, at)?;
        let (port, after_port) = streamable::parse_u16(input, after_host)?;
        let (timestamp, end) = streamable::parse_u64(input, after_port)?;
        Ok((TimestampedPeerInfo { host, port, timestamp }, end))
    }
}

/// The peers an introducer knows.
#[derive(Debug, Clone, PartialEq, Eq, Hash)]
pub struct RespondPeersIntroducer {
    /// The known peers.
    pub peer_list: Vec<TimestampedPeerInfo>,
}

impl View for RespondPeersIntroducer {
    type V = Seq<KnownPeer>;

    open spec fn view(&self) -> Seq<KnownPeer> {
        known_peers(self.peer_list@)
    }
}

impl RespondPeersIntroducer {
    /// The opcode of the response in Chia's namespace.
    pub const OPCODE: u8 = 64;

    /// A response with the given list.
    #[must_use]
    pub fn new(peer_list: Vec<TimestampedPeerInfo>) -> (r: Self)
        ensures
            r.peer_list == peer_list,
    {
        RespondPeersIntroducer { peer_list }
    }

    /// The encoded list. A list or an address that its length prefix cannot describe is refused.
    pub fn to_bytes(&self) -> (r: Result<Vec<u8>, StreamError>)
        ensures
            match r {
                Ok(encoded) => peers_fit(self@) && encoded@ == encoded_peer_list(self@),
                Err(error) => !peers_fit(self@) && error == StreamError::InputTooLarge,
            },
    {
        let count: usize = self.peer_list.len();
        if count > streamable::MAX_PREFIXED_LEN {
            return Err(StreamError::InputTooLarge);
        }
        let mut out: Vec<u8> = Vec::new();
        streamable::stream_u32(count as u32, &mut out)?;
        let mut i: usize = 0;
        assert(out@ =~= streamable::be_u32(count as u32) + encoded_peers(self@.take(0)));
        while i < count
            invariant
                i <= count,
                count == self.peer_list@.len(),
                count <= streamable::MAX_PREFIXED_LEN,
                out@ == streamable::be_u32(count as u32) + encoded_peers(self@.take(i as int)),
                forall|j: int| 0 <= j < i ==> streamable::text_fits(#[trigger] self@[j].host),
            decreases count - i,
        {
            let streamed = self.peer_list[i].stream(&mut out);
            assert(self@[i as int] == self.peer_list@[i as int]@);
            if streamed.is_err() {
                return Err(StreamError::InputTooLarge);
            }
            proof {
                let done = self@.take(i + 1);
                assert(done.drop_last() =~= self@.take(i as int));
                assert(done.last() == self@[i as int]);
                assert(out@ =~= streamable::be_u32(count as u32) + encoded_peers(done));
            }
            i = i + 1;
        }
        assert(self@.take(i as int) =~= self@);
        Ok(out)
    }

    /// Decodes a list of `input` at `at`, and says where it ends. The number of entries is chosen
    /// by the peer, and is never trusted beyond the buffer.
    pub fn parse(input: &[u8], at: usize) -> (r: Result<(Self, usize), StreamError>)
        requires
            at <= input@.len(),
        ensures
            match r {
                Ok((response, next)) => next <= input@.len() && parsed_peer_list(input@, at as int) == Ok::<
                    (Seq<KnownPeer>, int),
                    StreamError,
                >((response@, next as int)),
                Err(error) => parsed_peer_list(input@, at as int) == Err::<(Seq<KnownPeer>, int), StreamError>(
                    error,
                ),
            },
    {
        let (count, start) = streamable::parse_u32(input, at)?;
        let mut peer_list: Vec<TimestampedPeerInfo> = Vec::new();
        let mut next: usize = start;
        let mut i: u32 = 0;
        assert(known_peers(peer_list@) =~= Seq::<KnownPeer>::empty());
        while i < count
            invariant
                i <= count,
                next <= input@.len(),
                streamable::parsed_u32(input@, at as int) == Ok::<(u32, int), StreamError>((count, start as int)),
                parsed_peers(input@, start as int, i as nat) == Ok::<(Seq<KnownPeer>, int), StreamError>(
                    (known_peers(peer_list@), next as int),
                ),
            decreases count - i,
        {
            match TimestampedPeerInfo::parse(input, next) {
                Ok((peer, end)) => {
                    let ghost before = peer_list@;
                    peer_list.push(peer);
                    assert(known_peers(peer_list@) =~= known_peers(before).push(peer@));
                    next = end;
                },
                Err(error) => {
                    proof {
                        failure_is_final(input@, start as int, (i + 1) as nat, count as nat);
                    }
                    return Err(error);
                },
            }
            i = i + 1;
        }
        Ok((RespondPeersIntroducer { peer_list }, next))
    }

    /// Decodes a buffer that holds one list and nothing behind it.
    pub fn from_bytes(input: &[u8]) -> (r: Result<Self, StreamError>)
        ensures
            match r {
                Ok(response) => decoded_peer_list(input@) == Ok::<Seq<KnownPeer>, StreamError>(response@),
                Err(error) => decoded_peer_list(input@) == Err::<Seq<KnownPeer>, StreamError>(error),
            },
    {
        let (response, end) = RespondPeersIntroducer::parse(input, 0)?;
        if end == input.len() {
            Ok(response)
        } else {
            Err(StreamError::InputTooLarge)
        }
    }
}

/// Once some entries fail to decode, so do more, and for the same reason.
proof fn failure_is_final(input: Seq<u8>, at: int, count: nat, total: nat)
    requires
        parsed_peers(input, at, count) is Err,
        count <= total,
    ensures
        parsed_peers(input, at, total) == parsed_peers(input, at, count),
    decreases total - count,
{
    if count < total {
        failure_is_final(input, at, count, (total - 1) as nat);
    }
}

/// An entry whose address fits its length prefix is decoded as it was, wherever it stands.
pub proof fn peer_round_trips(peer: KnownPeer, input: Seq<u8>, at: int)
    requires
        streamable::text_fits(peer.host),
        streamable::stands_at(input, at, encoded_peer(peer)),
    ensures
        parsed_peer(input, at) == Ok::<(KnownPeer, int), StreamError>((peer, at + encoded_peer(peer).len())),
{
    let host = streamable::encoded_text(peer.host);
    let port = streamable::be_u16(peer.port);
    let timestamp = streamable::be_u64(peer.timestamp);
    streamable::concatenation_stands(input, at, host + port, timestamp);
    streamable::concatenation_stands(input, at, host, port);
    streamable::text_round_trips(peer.host, input, at);
    streamable::u16_round_trips(peer.port, input, at + host.len());
    streamable::u64_round_trips(peer.timestamp, input, at + (host + port).len());
}

/// Entries whose addresses fit their length prefixes are decoded as they were, wherever they stand.
proof fn peers_round_trip(peers: Seq<KnownPeer>, input: Seq<u8>, at: int)
    requires
        forall|i: int| 0 <= i < peers.len() ==> streamable::text_fits(#[trigger] peers[i].host),
        streamable::stands_at(input, at, encoded_peers(peers)),
    ensures
        parsed_peers(input, at, peers.len()) == Ok::<(Seq<KnownPeer>, int), StreamError>(
            (peers, at + encoded_peers(peers).len()),
        ),
    decreases peers.len(),
{
    if peers.len() > 0 {
        let first = peers.drop_last();
        let last = peers.last();
        streamable::concatenation_stands(input, at, encoded_peers(first), encoded_peer(last));
        assert forall|i: int| 0 <= i < first.len() implies streamable::text_fits(#[trigger] first[i].host) by {
            assert(first[i] == peers[i]);
        }
        peers_round_trip(first, input, at);
        peer_round_trips(last, input, at + encoded_peers(first).len());
        assert(first.push(last) =~= peers);
    } else {
        assert(peers =~= Seq::<KnownPeer>::empty());
    }
}

/// A list that fits its length prefixes is decoded as it was.
pub proof fn peer_list_round_trips(peers: Seq<KnownPeer>)
    requires
        peers_fit(peers),
    ensures
        decoded_peer_list(encoded_peer_list(peers)) == Ok::<Seq<KnownPeer>, StreamError>(peers),
{
    let input = encoded_peer_list(peers);
    let prefix = streamable::be_u32(peers.len() as u32);
    streamable::whole_stands(input);
    streamable::concatenation_stands(input, 0, prefix, encoded_peers(peers));
    streamable::u32_round_trips(peers.len() as u32, input, 0);
    peers_round_trip(peers, input, 4);
}

// ---------------------------------------------------------------------------
// Layouts
// ---------------------------------------------------------------------------

/// What is encoded are the fields themselves, and the entries of a list in their order.
pub proof fn what_is_encoded_are_the_fields(
    registration: RegisterPeer,
    peer: TimestampedPeerInfo,
    response: RespondPeersIntroducer,
)
    ensures
        registration@.ip == registration.ip@,
        registration@.port == registration.port,
        registration@.node_type == registration.node_type,
        peer@.host == peer.host@,
        peer@.port == peer.port,
        peer@.timestamp == peer.timestamp,
        response@.len() == response.peer_list@.len(),
        forall|i: int| 0 <= i < response@.len() ==> #[trigger] response@[i] == response.peer_list@[i]@,
{
}

/// A registration is encoded as the length-prefixed UTF-8 form of the address, the port most
/// significant byte first, and the byte of the role.
pub proof fn the_layout_of_a_registration(registration: Registration)
    ensures
        ({
            let ip = vstd::utf8::encode_utf8(registration.ip);
            let n = ip.len() as int;
            let e = encoded_registration(registration);
            &&& e.len() == n + 7
            &&& n < 0x1_0000_0000 ==> e[0] * 0x100_0000 + e[1] * 0x1_0000 + e[2] * 0x100 + e[3] == n
            &&& e.subrange(4, 4 + n) == ip
            &&& e[n + 4] * 0x100 + e[n + 5] == registration.port
            &&& e[n + 6] == node_type::role_byte(registration.node_type)
        }),
{
    let ip = vstd::utf8::encode_utf8(registration.ip);
    let n = ip.len() as int;
    let text = streamable::encoded_text(registration.ip);
    let port = streamable::be_u16(registration.port);
    let e = encoded_registration(registration);
    streamable::text_is_prefixed_by_its_length(registration.ip);
    streamable::integers_are_spelled_most_significant_first(registration.port, 0, 0);
    assert forall|i: int| 0 <= i < text.len() implies #[trigger] e[i] == text[i] by {
        assert((text + port)[i] == text[i]);
    }
    assert(e.subrange(4, 4 + n) =~= text.subrange(4, 4 + n));
    assert((text + port)[n + 4] == port[0] && (text + port)[n + 5] == port[1]);
}

/// A registration is read field by field, each where the one before it ends: the first that fails
/// decides, and a buffer that holds more is refused. A buffer is decoded only if it is the encoding
/// of what comes out.
pub proof fn a_registration_is_read_field_by_field(input: Seq<u8>, at: int)
    requires
        0 <= at,
    ensures
        match parsed_registration(input, at) {
            Ok((registration, end)) => {
                &&& streamable::text_fits(registration.ip)
                &&& end == at + encoded_registration(registration).len()
                &&& end <= input.len()
                &&& input.subrange(at, end) == encoded_registration(registration)
            },
            Err(error) => {
                let ip = streamable::parsed_text(input, at);
                ||| ip is Err && ip->Err_0 == error
                ||| ip is Ok && ip->Ok_0.1 + 3 > input.len() && error == StreamError::EndOfBuffer
                ||| ip is Ok && ip->Ok_0.1 + 3 <= input.len() && !node_type::names_a_role(input[ip->Ok_0.1 + 2])
                    && error == StreamError::InvalidEnum
            },
        },
        match decoded_registration(input) {
            Ok(registration) => input == encoded_registration(registration),
            Err(error) => match parsed_registration(input, 0) {
                Ok((_, end)) => end < input.len() && error == StreamError::InputTooLarge,
                Err(cause) => error == cause,
            },
        },
{
    a_parsed_registration_is_encoded_there(input, at);
    a_parsed_registration_is_encoded_there(input, 0);
    if decoded_registration(input) is Ok {
        assert(input.subrange(0, input.len() as int) =~= input);
    }
}

proof fn a_parsed_registration_is_encoded_there(input: Seq<u8>, at: int)
    requires
        0 <= at,
    ensures
        parsed_registration(input, at) matches Ok((registration, end)) ==> {
            &&& streamable::text_fits(registration.ip)
            &&& end == at + encoded_registration(registration).len()
            &&& end <= input.len()
            &&& input.subrange(at, end) == encoded_registration(registration)
        },
        parsed_registration(input, at) matches Err(error) ==> {
            let ip = streamable::parsed_text(input, at);
            ||| ip is Err && ip->Err_0 == error
            ||| ip is Ok && ip->Ok_0.1 + 3 > input.len() && error == StreamError::EndOfBuffer
            ||| ip is Ok && ip->Ok_0.1 + 3 <= input.len() && !node_type::names_a_role(input[ip->Ok_0.1 + 2]) && error
                == StreamError::InvalidEnum
        },
{
    streamable::text_is_read_by_its_length(input, at);
    if streamable::parsed_text(input, at) is Ok {
        let (ip, after_ip) = streamable::parsed_text(input, at)->Ok_0;
        parsed_text_is_encoded_there(input, at);
        if parsed_registration(input, at) is Ok {
            let (registration, end) = parsed_registration(input, at)->Ok_0;
            node_type::a_role_is_read_from_one_byte(input, after_ip + 2);
            port_is_encoded_there(input, after_ip);
            assert(input.subrange(at, end) =~= input.subrange(at, after_ip) + input.subrange(after_ip, after_ip + 2)
                + seq![input[after_ip + 2]]);
        }
    }
}

proof fn parsed_text_is_encoded_there(input: Seq<u8>, at: int)
    requires
        0 <= at,
        streamable::parsed_text(input, at) is Ok,
    ensures
        ({
            let (text, end) = streamable::parsed_text(input, at)->Ok_0;
            &&& streamable::text_fits(text)
            &&& end <= input.len()
            &&& end == at + streamable::encoded_text(text).len()
            &&& input.subrange(at, end) == streamable::encoded_text(text)
        }),
{
    let (text, end) = streamable::parsed_text(input, at)->Ok_0;
    let len = streamable::u32_at(input, at);
    streamable::text_is_read_by_its_length(input, at);
    streamable::u32_is_spelled_by_its_bytes(input, at);
    assert(input.subrange(at, end) =~= input.subrange(at, at + 4) + input.subrange(at + 4, end));
}

proof fn port_is_encoded_there(input: Seq<u8>, at: int)
    requires
        0 <= at,
        at + 2 <= input.len(),
    ensures
        input.subrange(at, at + 2) == streamable::be_u16(streamable::u16_at(input, at)),
{
    let (a, b) = (input[at] as int, input[at + 1] as int);
    assert((a * 0x100 + b) / 0x100 == a && (a * 0x100 + b) % 0x100 == b);
    assert(input.subrange(at, at + 2) =~= streamable::be_u16(streamable::u16_at(input, at)));
}

proof fn timestamp_is_encoded_there(input: Seq<u8>, at: int)
    requires
        0 <= at,
        at + 8 <= input.len(),
    ensures
        input.subrange(at, at + 8) == streamable::be_u64(streamable::u64_at(input, at)),
{
    let (high, low) = (streamable::u32_at(input, at), streamable::u32_at(input, at + 4));
    let value = high * 0x1_0000_0000 + low;
    streamable::u32_is_spelled_by_its_bytes(input, at);
    streamable::u32_is_spelled_by_its_bytes(input, at + 4);
    assert(value / 0x1_0000_0000 == high && value % 0x1_0000_0000 == low);
    assert(input.subrange(at, at + 8) =~= input.subrange(at, at + 4) + input.subrange(at + 4, at + 8));
}

/// An answer is the byte 1 for acceptance and 0 for rejection: every buffer is decoded so or refused
/// for what is wrong with it.
pub proof fn an_answer_is_one_byte(input: Seq<u8>, at: int)
    requires
        0 <= at,
    ensures
        match parsed_ack(input, at) {
            Ok((ack, end)) => at < input.len() && end == at + 1 && input[at] == (if ack.success {
                1
            } else {
                0int
            }),
            Err(StreamError::EndOfBuffer) => at >= input.len(),
            Err(error) => at < input.len() && input[at] > 1 && error == StreamError::InvalidBool,
        },
        match decoded_ack(input) {
            Ok(ack) => input == seq![if ack.success { 1u8 } else { 0u8 }],
            Err(StreamError::EndOfBuffer) => input.len() == 0,
            Err(StreamError::InputTooLarge) => input.len() > 1 && input[0] <= 1,
            Err(error) => input.len() > 0 && input[0] > 1 && error == StreamError::InvalidBool,
        },
{
    if decoded_ack(input) is Ok {
        let ack = decoded_ack(input)->Ok_0;
        assert(input =~= seq![if ack.success { 1u8 } else { 0u8 }]);
    }
}

/// A request for peers has an empty body, and no other body is one.
pub proof fn a_peers_request_is_empty(input: Seq<u8>)
    ensures
        decoded_peers_request(input) is Ok <==> input.len() == 0,
        decoded_peers_request(input) matches Err(error) ==> error == StreamError::InputTooLarge,
{
}

/// One entry is the length-prefixed UTF-8 form of the host, then the port and the timestamp, both
/// most significant byte first.
pub proof fn the_layout_of_an_entry(peer: KnownPeer)
    ensures
        ({
            let host = vstd::utf8::encode_utf8(peer.host);
            let n = host.len() as int;
            let e = encoded_peer(peer);
            &&& e.len() == n + 14
            &&& n < 0x1_0000_0000 ==> e[0] * 0x100_0000 + e[1] * 0x1_0000 + e[2] * 0x100 + e[3] == n
            &&& e.subrange(4, 4 + n) == host
            &&& e[n + 4] * 0x100 + e[n + 5] == peer.port
            &&& e[n + 6] * 0x100_0000_0000_0000 + e[n + 7] * 0x1_0000_0000_0000 + e[n + 8] * 0x100_0000_0000 + e[n
                + 9] * 0x1_0000_0000 + e[n + 10] * 0x100_0000 + e[n + 11] * 0x1_0000 + e[n + 12] * 0x100 + e[n
                + 13] == peer.timestamp
        }),
{
    let host = vstd::utf8::encode_utf8(peer.host);
    let n = host.len() as int;
    let text = streamable::encoded_text(peer.host);
    let port = streamable::be_u16(peer.port);
    let timestamp = streamable::be_u64(peer.timestamp);
    let e = encoded_peer(peer);
    streamable::text_is_prefixed_by_its_length(peer.host);
    streamable::integers_are_spelled_most_significant_first(peer.port, 0, peer.timestamp);
    assert forall|i: int| 0 <= i < text.len() implies #[trigger] e[i] == text[i] by {
        assert((text + port)[i] == text[i]);
    }
    assert(e.subrange(4, 4 + n) =~= text.subrange(4, 4 + n));
    assert((text + port)[n + 4] == port[0] && (text + port)[n + 5] == port[1]);
    assert(e[n + 4] == port[0] && e[n + 5] == port[1]);
    assert(e[n + 6] == timestamp[0] && e[n + 7] == timestamp[1] && e[n + 8] == timestamp[2] && e[n + 9]
        == timestamp[3] && e[n + 10] == timestamp[4] && e[n + 11] == timestamp[5] && e[n + 12] == timestamp[6] && e[n
        + 13] == timestamp[7]);
}

/// A list is encoded as the number of its entries, most significant byte first, and then its
/// entries.
pub proof fn a_list_follows_its_length(peers: Seq<KnownPeer>)
    ensures
        ({
            let e = encoded_peer_list(peers);
            &&& e.len() == 4 + encoded_peers(peers).len()
            &&& peers.len() < 0x1_0000_0000 ==> e[0] * 0x100_0000 + e[1] * 0x1_0000 + e[2] * 0x100 + e[3]
                == peers.len()
            &&& e.subrange(4, e.len() as int) == encoded_peers(peers)
        }),
        peers_fit(peers) <==> peers.len() < 0x1_0000_0000 && forall|i: int|
            0 <= i < peers.len() ==> vstd::utf8::encode_utf8(#[trigger] peers[i].host).len() < 0x1_0000_0000,
{
    let e = encoded_peer_list(peers);
    let prefix = streamable::be_u32(peers.len() as u32);
    streamable::integers_are_spelled_most_significant_first(0, peers.len() as u32, 0);
    assert forall|i: int| 0 <= i < 4 implies #[trigger] e[i] == prefix[i] by {}
    assert(e.subrange(4, e.len() as int) =~= encoded_peers(peers));
    if peers_fit(peers) {
        assert forall|i: int| 0 <= i < peers.len() implies vstd::utf8::encode_utf8(#[trigger] peers[i].host).len()
            < 0x1_0000_0000 by {
            assert(streamable::text_fits(peers[i].host));
        }
    }
}

/// An entry is encoded the same wherever it stands: a list of one is its entry, and the entries of
/// two lists behind each other are those of the first, then those of the second.
pub proof fn entries_are_encoded_alike_everywhere(peer: KnownPeer, first: Seq<KnownPeer>, second: Seq<KnownPeer>)
    ensures
        encoded_peers(seq![]) == Seq::<u8>::empty(),
        encoded_peers(seq![peer]) == encoded_peer(peer),
        encoded_peers(first + second) == encoded_peers(first) + encoded_peers(second),
    decreases second.len(),
{
    reveal_with_fuel(encoded_peers, 2);
    assert(seq![peer].drop_last() =~= Seq::<KnownPeer>::empty());
    assert(encoded_peers(seq![peer]) =~= encoded_peer(peer));
    if second.len() == 0 {
        assert(first + second =~= first);
        assert(encoded_peers(first) + encoded_peers(second) =~= encoded_peers(first));
    } else {
        let earlier = second.drop_last();
        entries_are_encoded_alike_everywhere(peer, first, earlier);
        assert((first + second).drop_last() =~= first + earlier);
        assert((first + second).last() == second.last());
        assert(encoded_peers(first + second) =~= encoded_peers(first) + encoded_peers(second));
    }
}

/// An entry is read where it stands: it is decoded only if its encoding stands there, it ends with
/// that, and it is refused for the first of its fields that fails.
pub proof fn an_entry_is_read_where_it_stands(input: Seq<u8>, at: int)
    requires
        0 <= at,
    ensures
        match parsed_peer(input, at) {
            Ok((peer, end)) => {
                &&& streamable::text_fits(peer.host)
                &&& end == at + encoded_peer(peer).len()
                &&& end <= input.len()
                &&& input.subrange(at, end) == encoded_peer(peer)
            },
            Err(error) => {
                let host = streamable::parsed_text(input, at);
                ||| host is Err && host->Err_0 == error
                ||| host is Ok && host->Ok_0.1 + 10 > input.len() && error == StreamError::EndOfBuffer
            },
        },
{
    streamable::text_is_read_by_its_length(input, at);
    if streamable::parsed_text(input, at) is Ok {
        let (host, after_host) = streamable::parsed_text(input, at)->Ok_0;
        parsed_text_is_encoded_there(input, at);
        if parsed_peer(input, at) is Ok {
            let (peer, end) = parsed_peer(input, at)->Ok_0;
            port_is_encoded_there(input, after_host);
            timestamp_is_encoded_there(input, after_host + 2);
            assert(input.subrange(at, end) =~= input.subrange(at, after_host) + input.subrange(
                after_host,
                after_host + 2,
            ) + input.subrange(after_host + 2, after_host + 10));
        }
    }
}

/// Entries are read alike everywhere: one entry is what a single entry there reads as, and to read
/// some entries and then some more is to read the first ones and go on where they end. The first
/// entry that fails decides.
pub proof fn entries_are_read_alike_everywhere(input: Seq<u8>, at: int, first: nat, second: nat)
    ensures
        parsed_peers(input, at, 0) == Ok::<(Seq<KnownPeer>, int), StreamError>((Seq::empty(), at)),
        parsed_peers(input, at, 1) == (match parsed_peer(input, at) {
            Ok((peer, end)) => Ok::<(Seq<KnownPeer>, int), StreamError>((seq![peer], end)),
            Err(error) => Err::<(Seq<KnownPeer>, int), StreamError>(error),
        }),
        parsed_peers(input, at, first + second) == (match parsed_peers(input, at, first) {
            Err(error) => Err::<(Seq<KnownPeer>, int), StreamError>(error),
            Ok((peers, middle)) => match parsed_peers(input, middle, second) {
                Err(error) => Err::<(Seq<KnownPeer>, int), StreamError>(error),
                Ok((more, end)) => Ok::<(Seq<KnownPeer>, int), StreamError>((peers + more, end)),
            },
        }),
    decreases second,
{
    reveal_with_fuel(parsed_peers, 2);
    if parsed_peer(input, at) is Ok {
        let peer = parsed_peer(input, at)->Ok_0.0;
        assert(Seq::<KnownPeer>::empty().push(peer) =~= seq![peer]);
    }
    if second == 0 {
        if parsed_peers(input, at, first) is Ok {
            let peers = parsed_peers(input, at, first)->Ok_0.0;
            assert(peers + Seq::<KnownPeer>::empty() =~= peers);
        }
    } else {
        let fewer = (second - 1) as nat;
        entries_are_read_alike_everywhere(input, at, first, fewer);
        assert((first + second - 1) as nat == first + fewer);
        if parsed_peers(input, at, first) is Ok {
            let (peers, middle) = parsed_peers(input, at, first)->Ok_0;
            if parsed_peers(input, middle, fewer) is Ok {
                let (more, next) = parsed_peers(input, middle, fewer)->Ok_0;
                if parsed_peer(input, next) is Ok {
                    let peer = parsed_peer(input, next)->Ok_0.0;
                    assert((peers + more).push(peer) =~= peers + more.push(peer));
                }
            }
        }
    }
}

/// A list is read by the number that its first four bytes spell, and a buffer that holds more is
/// refused.
pub proof fn a_list_is_read_by_its_length(input: Seq<u8>, at: int)
    requires
        0 <= at,
    ensures
        at + 4 > input.len() ==> parsed_peer_list(input, at) == Err::<(Seq<KnownPeer>, int), StreamError>(
            StreamError::EndOfBuffer,
        ),
        at + 4 <= input.len() ==> {
            let count = input[at] * 0x100_0000 + input[at + 1] * 0x1_0000 + input[at + 2] * 0x100 + input[at + 3];
            parsed_peer_list(input, at) == parsed_peers(input, at + 4, count as nat)
        },
        match decoded_peer_list(input) {
            Ok(peers) => parsed_peer_list(input, 0) == Ok::<(Seq<KnownPeer>, int), StreamError>(
                (peers, input.len() as int),
            ),
            Err(error) => match parsed_peer_list(input, 0) {
                Ok((_, end)) => end != input.len() && error == StreamError::InputTooLarge,
                Err(cause) => error == cause,
            },
        },
{
}

/// Each entry of an encoded list stands behind the entries before it, in the form it has alone.
pub proof fn each_entry_stands_behind_those_before(peers: Seq<KnownPeer>, i: int)
    requires
        0 <= i < peers.len(),
    ensures
        ({
            let e = encoded_peers(peers);
            let at = encoded_peers(peers.take(i)).len() as int;
            let end = at + encoded_peer(peers[i]).len();
            &&& end <= e.len()
            &&& e.subrange(0, at) == encoded_peers(peers.take(i))
            &&& e.subrange(at, end) == encoded_peer(peers[i])
            &&& e.subrange(end, e.len() as int) == encoded_peers(peers.skip(i + 1))
        }),
{
    let (before, peer, after) = (peers.take(i), peers[i], peers.skip(i + 1));
    entries_are_encoded_alike_everywhere(peer, before, seq![peer]);
    entries_are_encoded_alike_everywhere(peer, before + seq![peer], after);
    assert(before + seq![peer] + after =~= peers);
    let e = encoded_peers(peers);
    let at = encoded_peers(before).len() as int;
    let end = at + encoded_peer(peer).len();
    assert(e == encoded_peers(before) + encoded_peer(peer) + encoded_peers(after));
    assert(e.subrange(0, at) =~= encoded_peers(before));
    assert(e.subrange(at, end) =~= encoded_peer(peer));
    assert(e.subrange(end, e.len() as int) =~= encoded_peers(after));
}

/// Each decoded entry is what decoding a single entry gives at the place where the entries before it
/// end.
pub proof fn each_decoded_entry_is_what_stands_there(input: Seq<u8>, at: int, count: nat, i: nat)
    requires
        i < count,
        parsed_peers(input, at, count) is Ok,
    ensures
        parsed_peers(input, at, count)->Ok_0.0.len() == count,
        parsed_peers(input, at, i) is Ok,
        ({
            let (earlier, place) = parsed_peers(input, at, i)->Ok_0;
            let peers = parsed_peers(input, at, count)->Ok_0.0;
            &&& earlier == peers.take(i as int)
            &&& parsed_peer(input, place) is Ok
            &&& parsed_peer(input, place)->Ok_0.0 == peers[i as int]
            &&& parsed_peers(input, at, i + 1) is Ok
            &&& parsed_peer(input, place)->Ok_0.1 == parsed_peers(input, at, i + 1)->Ok_0.1
        }),
    decreases count,
{
    let fewer = (count - 1) as nat;
    let peers = parsed_peers(input, at, count)->Ok_0.0;
    let (earlier, _) = parsed_peers(input, at, fewer)->Ok_0;
    entries_are_counted(input, at, fewer);
    if i < fewer {
        each_decoded_entry_is_what_stands_there(input, at, fewer, i);
        assert(peers.take(i as int) =~= earlier.take(i as int));
    } else {
        assert(peers.take(i as int) =~= earlier);
    }
}

proof fn entries_are_counted(input: Seq<u8>, at: int, count: nat)
    ensures
        parsed_peers(input, at, count) matches Ok((peers, _)) ==> peers.len() == count,
    decreases count,
{
    if count > 0 {
        entries_are_counted(input, at, (count - 1) as nat);
    }
}

/// A list is decoded only from its own encoding: a buffer that decodes is the encoding of what comes
/// out.
pub proof fn a_decoded_list_is_encoded_as_it_was(input: Seq<u8>)
    requires
        decoded_peer_list(input) is Ok,
    ensures
        peers_fit(decoded_peer_list(input)->Ok_0),
        encoded_peer_list(decoded_peer_list(input)->Ok_0) == input,
{
    let peers = decoded_peer_list(input)->Ok_0;
    let count = streamable::u32_at(input, 0) as nat;
    streamable::u32_is_spelled_by_its_bytes(input, 0);
    entries_are_counted(input, 4, count);
    parsed_peers_are_encoded_there(input, 4, count);
    assert(input =~= input.subrange(0, 4) + input.subrange(4, input.len() as int));
}

proof fn parsed_peers_are_encoded_there(input: Seq<u8>, at: int, count: nat)
    requires
        0 <= at <= input.len(),
        parsed_peers(input, at, count) is Ok,
    ensures
        ({
            let (peers, end) = parsed_peers(input, at, count)->Ok_0;
            &&& forall|i: int| 0 <= i < peers.len() ==> streamable::text_fits(#[trigger] peers[i].host)
            &&& at <= end <= input.len()
            &&& input.subrange(at, end) == encoded_peers(peers)
        }),
    decreases count,
{
    let (peers, end) = parsed_peers(input, at, count)->Ok_0;
    if count == 0 {
        assert(input.subrange(at, end) =~= Seq::<u8>::empty());
    } else {
        let (earlier, place) = parsed_peers(input, at, (count - 1) as nat)->Ok_0;
        parsed_peers_are_encoded_there(input, at, (count - 1) as nat);
        an_entry_is_read_where_it_stands(input, place);
        assert(peers.drop_last() =~= earlier);
        assert(input.subrange(at, end) =~= input.subrange(at, place) + input.subrange(place, end));
    }
}

} // verus!
