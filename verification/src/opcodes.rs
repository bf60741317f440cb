//! The complete DIG opcode namespace, in one place.
//!
//! Chia's own opcodes stop at 107. The DIG band starts at 200, which leaves room for upstream
//! additions, and has two halves:
//!
//! | Range | Half | Where it is defined |
//! |---|---|---|
//! | `200..=219` | consensus | [`DigMessageType`], one variant each |
//! | `220..` | free: directed and broadcast application protocols | the constants below |
//!
//! The free half is plain constants because the body of each opcode is owned by the application
//! protocol that defines it. The values are canonical: no assigned value ever moves.

use crate::dig_message_type;
use crate::dig_message_type::DigMessageType;
use chia_protocol::ProtocolMessageTypes;
use vstd::prelude::*;

verus! {

/// First opcode of the DIG band. Everything below this belongs to Chia.
pub const DIG_BAND_START: u8 = 200;

/// First opcode of the free half of the DIG band.
pub const FREE_BAND_START: u8 = 220;

/// A directed dig-message envelope. The payload is sealed end to end by its producer and opaque
/// to every transport.
pub const DIG_MESSAGE: u8 = 220;

/// Broadcast: the on-chain coin of a store was melted, so peers stop hosting its content.
pub const STORE_MELTED: u8 = 221;

/// Broadcast: a batch of signed holdings additions and removals.
pub const HOLDINGS_ANNOUNCE: u8 = 222;

/// Broadcast: the current profile root of a store, `store_id` and `root` of 32 bytes each.
/// Unsigned, because a receiver compares the root with the chain before trusting it.
pub const PROFILE_ROOT_ANNOUNCE: u8 = 223;

/// Directed request for the profile body behind a root, `store_id` and `root` of 32 bytes each.
pub const PROFILE_BODY_REQUEST: u8 = 224;

/// Directed response with a profile body: `store_id`, `root`, a four-byte length, the body.
pub const PROFILE_BODY: u8 = 225;

/// Broadcast: launcher ids of the reward distributors that the sender knows of for a store. A
/// hint only, which a receiver derives anew from the chain.
pub const DISTRIBUTOR_ANNOUNCE: u8 = 226;

/// Every opcode DIG has assigned, ascending: the 20 consensus opcodes, then the 7 of the free
/// half.
pub const ALL_DIG_OPCODES: [u8; 27] = [
    200,
    201,
    202,
    203,
    204,
    205,
    206,
    207,
    208,
    209,
    210,
    211,
    212,
    213,
    214,
    215,
    216,
    217,
    218,
    219,
    DIG_MESSAGE,
    STORE_MELTED,
    HOLDINGS_ANNOUNCE,
    PROFILE_ROOT_ANNOUNCE,
    PROFILE_BODY_REQUEST,
    PROFILE_BODY,
    DISTRIBUTOR_ANNOUNCE,
];

/// Whether `opcode` belongs to the DIG band rather than to Chia's namespace.
///
/// This is a test of the band, not of assignment: an unassigned value such as 250 is still DIG's
/// to allocate, and is routed to DIG handling rather than to a Chia decoder.
#[must_use]
pub fn is_dig_opcode(opcode: u8) -> (r: bool)
    ensures
        r == (opcode >= 200),
{
    opcode >= DIG_BAND_START
}

/// The message types of `chia_protocol`.
#[verifier::external_type_specification]
#[verifier::external_body]
pub struct ExProtocolMessageTypes(ProtocolMessageTypes);

/// The encoding of one of Chia's message types.
pub uninterp spec fn message_type_encoding(msg_type: ProtocolMessageTypes) -> Seq<u8>;

/// `ProtocolMessageTypes::to_bytes` of `chia_traits::Streamable`: the encoding of the message type.
/// It is the single byte of the variant, and encoding it never fails. Every variant has a byte of
/// its own, and all of these are below the DIG band.
#[verifier::external_body]
pub(crate) fn encode_message_type(msg_type: &ProtocolMessageTypes) -> (r: Result<Vec<u8>, chia_traits::Error>)
    ensures
        r is Ok,
        r->Ok_0@ == message_type_encoding(*msg_type),
        r->Ok_0@.len() == 1,
        r->Ok_0@[0] < DIG_BAND_START,
        forall|other: ProtocolMessageTypes|
            r->Ok_0@ == #[trigger] message_type_encoding(other) ==> other == *msg_type,
{
    chia_traits::Streamable::to_bytes(msg_type)
}

/// The assigned opcodes are the whole band from its start on, in ascending order and without a
/// gap or a repetition.
pub proof fn the_assigned_band_is_contiguous()
    ensures
        ALL_DIG_OPCODES@.len() == DISTRIBUTOR_ANNOUNCE - DIG_BAND_START + 1,
        forall|i: int| 0 <= i < ALL_DIG_OPCODES@.len() ==> #[trigger] ALL_DIG_OPCODES@[i] == DIG_BAND_START + i,
{
}

/// The assigned opcodes below the free half are exactly those of [`DigMessageType`], so the two
/// halves never collide.
pub proof fn the_halves_of_the_band_are_disjoint(opcode: u8)
    ensures
        ALL_DIG_OPCODES@.contains(opcode) && opcode < FREE_BAND_START
            <==> dig_message_type::names_an_opcode(opcode),
        opcode >= FREE_BAND_START ==> !dig_message_type::names_an_opcode(opcode),
{
    dig_message_type::opcodes_occupy_the_consensus_band(opcode);
    the_assigned_band_is_contiguous();
    if 200 <= opcode <= DigMessageType::MAX_ASSIGNED {
        assert(ALL_DIG_OPCODES@[opcode - 200] == opcode);
    }
}

/// The values of the band are permanent: each free opcode keeps its number, and the band and its
/// free half start where they always did.
pub proof fn the_band_is_permanent()
    ensures
        DIG_BAND_START == 200,
        FREE_BAND_START == 220,
        DIG_MESSAGE == 220,
        STORE_MELTED == 221,
        HOLDINGS_ANNOUNCE == 222,
        PROFILE_ROOT_ANNOUNCE == 223,
        PROFILE_BODY_REQUEST == 224,
        PROFILE_BODY == 225,
        DISTRIBUTOR_ANNOUNCE == 226,
        ALL_DIG_OPCODES@.len() == 27,
        forall|i: int| 0 <= i < 27 ==> #[trigger] ALL_DIG_OPCODES@[i] == 200 + i,
{
    the_assigned_band_is_contiguous();
}

} // verus!
