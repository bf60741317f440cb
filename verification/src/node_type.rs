//! [`NodeType`], the service role that a peer declares when it registers.
//!
//! A role is one byte on the wire. The values are frozen: renumbering one would re-label every
//! registered peer on the network. Roles that DIG itself never registers as are kept, so that a
//! peer with a fuller vocabulary round-trips and no number is used twice.

use crate::digest;
use crate::streamable;
use crate::streamable::StreamError;
use crate::text;
use chia_sha2::Sha256;
use vstd::prelude::*;

verus! {

/// The service role a peer declares. One byte on the wire, which [`NodeType::to_byte`] alone gives:
/// a cast of a variant counts from 0 and is no wire value.
#[derive(Hash, Debug, Copy, Clone, Eq, PartialEq, PartialOrd, Ord, Structural)]
pub enum NodeType {
    /// A full node. DIG gossip peers register as this.
    FullNode,
    /// A harvester.
    Harvester,
    /// A farmer.
    Farmer,
    /// A timelord.
    Timelord,
    /// An introducer, the peer-discovery role that DIG registers against.
    Introducer,
    /// A wallet.
    Wallet,
    /// A data-layer node.
    DataLayer,
}

/// The byte of a role.
pub open spec fn role_byte(role: NodeType) -> u8 {
    match role {
        NodeType::FullNode => 1,
        NodeType::Harvester => 2,
        NodeType::Farmer => 3,
        NodeType::Timelord => 4,
        NodeType::Introducer => 5,
        NodeType::Wallet => 6,
        NodeType::DataLayer => 7,
    }
}

/// Whether `byte` names a role.
pub open spec fn names_a_role(byte: u8) -> bool {
    exists|role: NodeType| #[trigger] role_byte(role) == byte
}

/// Decoding a role of `input` at `at`.
pub open spec fn parsed_role(input: Seq<u8>, at: int) -> streamable::Parsed<NodeType> {
    if at + 1 > input.len() {
        Err(StreamError::EndOfBuffer)
    } else if names_a_role(input[at]) {
        Ok((choose|role: NodeType| #[trigger] role_byte(role) == input[at], at + 1))
    } else {
        Err(StreamError::InvalidEnum)
    }
}

/// Decoding a buffer that holds one role and nothing behind it.
pub open spec fn decoded_role(input: Seq<u8>) -> Result<NodeType, StreamError> {
    match parsed_role(input, 0) {
        Err(error) => Err(error),
        Ok((role, next)) => if next == input.len() {
            Ok(role)
        } else {
            Err(StreamError::InputTooLarge)
        },
    }
}

impl NodeType {
    /// Every role, in the order of their bytes.
    pub const ALL: [NodeType; 7] = [
        NodeType::FullNode,
        NodeType::Harvester,
        NodeType::Farmer,
        NodeType::Timelord,
        NodeType::Introducer,
        NodeType::Wallet,
        NodeType::DataLayer,
    ];

    /// The single byte this role occupies on the wire.
    #[must_use]
    pub fn to_byte(self) -> (r: u8)
        ensures
            r == role_byte(self),
    {
        match self {
            NodeType::FullNode => 1,
            NodeType::Harvester => 2,
            NodeType::Farmer => 3,
            NodeType::Timelord => 4,
            NodeType::Introducer => 5,
            NodeType::Wallet => 6,
            NodeType::DataLayer => 7,
        }
    }

    /// The role a wire byte names, or `None` when the byte names no role.
    ///
    /// An unknown byte is refused rather than mapped to a default: a peer that declares a role
    /// this build cannot interpret never silently becomes a full node.
    #[must_use]
    pub fn from_byte(byte: u8) -> (r: Option<NodeType>)
        ensures
            match r {
                Some(role) => role_byte(role) == byte,
                None => !names_a_role(byte),
            },
    {
        let roles = NodeType::ALL;
        let mut i: usize = 0;
        while i < 7
            invariant
                i <= 7,
                roles == NodeType::ALL,
                forall|j: int| 0 <= j < i ==> role_byte(#[trigger] roles@[j]) != byte,
            decreases 7 - i,
        {
            let role = roles[i];
            if role.to_byte() == byte {
                return Some(role);
            }
            i = i + 1;
        }
        proof {
            every_role_is_listed();
            if names_a_role(byte) {
                let role = choose|role: NodeType| #[trigger] role_byte(role) == byte;
                assert(role_byte(roles@[role_byte(role) - 1]) != byte);
            }
        }
        None
    }

    /// Absorbs the byte of the role into a running digest.
    pub fn update_digest(&self, digest: &mut Sha256)
        ensures
            digest::absorbed(*final(digest)) == digest::absorbed(*old(digest)) + seq![role_byte(*self)],
    {
        let byte = [self.to_byte()];
        assert(byte@ =~= seq![role_byte(*self)]);
        digest::absorb(digest, byte.as_slice());
    }

    /// Appends the byte of the role to `out`.
    pub fn stream(&self, out: &mut Vec<u8>) -> (r: Result<(), StreamError>)
        ensures
            r is Ok,
            final(out)@ == old(out)@.push(role_byte(*self)),
    {
        out.push(self.to_byte());
        Ok(())
    }

    /// Decodes a role of `input` at `at`, and says where it ends.
    pub fn parse(input: &[u8], at: usize) -> (r: Result<(NodeType, usize), StreamError>)
        requires
            at <= input@.len(),
        ensures
            streamable::agrees(r, parsed_role(input@, at as int)),
    {
        let (byte, next) = streamable::parse_u8(input, at)?;
        match NodeType::from_byte(byte) {
            Some(role) => {
                proof {
                    bytes_tell_roles_apart();
                    assert(names_a_role(byte));
                }
                Ok((role, next))
            },
            None => Err(StreamError::InvalidEnum),
        }
    }

    /// The encoded role.
    pub fn to_bytes(&self) -> (r: Result<Vec<u8>, StreamError>)
        ensures
            r is Ok,
            r->Ok_0@ == seq![role_byte(*self)],
    {
        let mut out: Vec<u8> = Vec::new();
        self.stream(&mut out)?;
        assert(out@ =~= seq![role_byte(*self)]);
        Ok(out)
    }

    /// Decodes a buffer that holds one role and nothing behind it.
    pub fn from_bytes(input: &[u8]) -> (r: Result<NodeType, StreamError>)
        ensures
            r == decoded_role(input@),
    {
        let (role, next) = NodeType::parse(input, 0)?;
        if next == input.len() {
            Ok(role)
        } else {
            Err(StreamError::InputTooLarge)
        }
    }
}

/// A wire byte that names no [`NodeType`].
#[derive(Debug, Clone, Copy, PartialEq, Eq, Structural)]
pub struct UnknownNodeType(pub u8);

impl std::fmt::Display for UnknownNodeType {
    fn fmt(&self, f: &mut std::fmt::Formatter<'_>) -> (r: Result<(), std::fmt::Error>)
        ensures
            r is Ok ==> text::written(*final(f)) == text::written(*old(f)) + (text::decimal(self.0 as nat)
                + " is not a known node type"@),
    {
        let byte = text::render_decimal(self.0 as u64);
        text::write_text(f, byte.as_str())?;
        text::write_text(f, " is not a known node type")?;
        assert(text::written(*f) =~= text::written(*old(f)) + (text::decimal(self.0 as nat)
            + " is not a known node type"@));
        Ok(())
    }
}

impl std::error::Error for UnknownNodeType {}

impl TryFrom<u8> for NodeType {
    type Error = UnknownNodeType;

    fn try_from(byte: u8) -> (r: Result<NodeType, UnknownNodeType>)
        ensures
            match r {
                Ok(role) => role_byte(role) == byte,
                Err(unknown) => !names_a_role(byte) && unknown == UnknownNodeType(byte),
            },
    {
        match NodeType::from_byte(byte) {
            Some(role) => {
                proof {
                    bytes_tell_roles_apart();
                }
                Ok(role)
            },
            None => Err(UnknownNodeType(byte)),
        }
    }
}

impl vstd::std_specs::convert::TryFromSpecImpl<u8> for NodeType {
    open spec fn obeys_try_from_spec() -> bool {
        true
    }

    open spec fn try_from_spec(byte: u8) -> Result<NodeType, UnknownNodeType> {
        if names_a_role(byte) {
            Ok(choose|role: NodeType| #[trigger] role_byte(role) == byte)
        } else {
            Err(UnknownNodeType(byte))
        }
    }
}

/// No two roles share a byte, so a byte names at most one role.
pub proof fn bytes_tell_roles_apart()
    ensures
        forall|a: NodeType, b: NodeType| #[trigger] role_byte(a) == #[trigger] role_byte(b) ==> a == b,
{
}

/// The bytes that name a role are exactly 1 to 7.
pub proof fn roles_occupy_one_to_seven(byte: u8)
    ensures
        names_a_role(byte) <==> 1 <= byte <= 7,
{
    if 1 <= byte <= 7 {
        every_role_is_listed();
        assert(role_byte(NodeType::ALL@[byte - 1]) == byte);
    }
}

/// Every role is listed, at the place that its byte gives it, and nothing else is.
pub proof fn every_role_is_listed()
    ensures
        NodeType::ALL@.len() == 7,
        forall|role: NodeType| NodeType::ALL@[#[trigger] role_byte(role) - 1] == role,
        forall|i: int| 0 <= i < 7 ==> role_byte(#[trigger] NodeType::ALL@[i]) == i + 1,
{
}

/// Every role is decoded as it was encoded.
pub proof fn role_round_trips(role: NodeType)
    ensures
        decoded_role(seq![role_byte(role)]) == Ok::<NodeType, StreamError>(role),
{
    bytes_tell_roles_apart();
    assert(names_a_role(role_byte(role)));
}

/// The registry of roles. An assigned byte never moves.
pub proof fn the_bytes_of_the_roles_are_permanent()
    ensures
        role_byte(NodeType::FullNode) == 1,
        role_byte(NodeType::Harvester) == 2,
        role_byte(NodeType::Farmer) == 3,
        role_byte(NodeType::Timelord) == 4,
        role_byte(NodeType::Introducer) == 5,
        role_byte(NodeType::Wallet) == 6,
        role_byte(NodeType::DataLayer) == 7,
{
}

/// A role is read from one byte: the role with that byte, an error for a byte that names none, and
/// another where the buffer is at its end. A buffer that holds more than the byte is refused.
pub proof fn a_role_is_read_from_one_byte(input: Seq<u8>, at: int)
    requires
        0 <= at,
    ensures
        match parsed_role(input, at) {
            Ok((role, next)) => at < input.len() && next == at + 1 && role_byte(role) == input[at],
            Err(StreamError::EndOfBuffer) => at >= input.len(),
            Err(error) => at < input.len() && (input[at] == 0 || input[at] > 7) && error == StreamError::InvalidEnum,
        },
        match decoded_role(input) {
            Ok(role) => input == seq![role_byte(role)],
            Err(StreamError::EndOfBuffer) => input.len() == 0,
            Err(StreamError::InputTooLarge) => input.len() > 1 && 1 <= input[0] <= 7,
            Err(error) => input.len() > 0 && (input[0] == 0 || input[0] > 7) && error == StreamError::InvalidEnum,
        },
{
    if at < input.len() {
        roles_occupy_one_to_seven(input[at]);
    }
    if input.len() > 0 {
        roles_occupy_one_to_seven(input[0]);
        if names_a_role(input[0]) && input.len() == 1 {
            let role = choose|role: NodeType| #[trigger] role_byte(role) == input[0];
            assert(role_byte(role) == input[0]);
            assert(input =~= seq![role_byte(role)]);
        }
    }
}

} // verus!
