//! [`DigMessageType`], the consensus half of the DIG opcode band.
//!
//! Each variant is one wire byte, from 200 on without a gap. An assigned byte is never removed,
//! renumbered or given a second meaning.

use crate::text;
use vstd::prelude::*;

verus! {

/// The consensus opcodes of the DIG band. The wire value is what [`DigMessageType::to_byte`] alone
/// gives: a cast of a variant counts from 0 and is no opcode.
#[derive(Hash, Debug, Copy, Clone, Eq, PartialEq, PartialOrd, Ord, Structural)]
pub enum DigMessageType {
    /// Validator attestation, pushed eagerly.
    NewAttestation,
    /// Checkpoint proposal from the epoch proposer, pushed eagerly.
    NewCheckpointProposal,
    /// Signature fragment for checkpoint aggregation, pushed eagerly.
    NewCheckpointSignature,
    /// Request for checkpoint signatures.
    RequestCheckpointSignatures,
    /// Response with checkpoint signatures.
    RespondCheckpointSignatures,
    /// Request for the chain status of a peer.
    RequestStatus,
    /// Response with the chain status.
    RespondStatus,
    /// Aggregated checkpoint, pushed eagerly.
    NewCheckpointSubmission,
    /// Validator directory announcement, flooded.
    ValidatorAnnounce,
    /// Request for missing transactions by short id.
    RequestBlockTransactions,
    /// Response with full transactions.
    RespondBlockTransactions,
    /// Set-reconciliation sketch.
    ReconciliationSketch,
    /// Set-reconciliation response.
    ReconciliationResponse,
    /// Transaction in its privacy-preserving stem phase.
    StemTransaction,
    /// Hash-only announcement to peers outside the tree.
    PlumtreeLazyAnnounce,
    /// Demotes the sender to lazy.
    PlumtreePrune,
    /// Promotes the sender to eager.
    PlumtreeGraft,
    /// Request for a full payload by hash.
    PlumtreeRequestByHash,
    /// Self-registration with an introducer.
    RegisterPeer,
    /// Acknowledgement of a registration.
    RegisterAck,
}

/// The wire byte of an opcode.
pub open spec fn opcode_byte(opcode: DigMessageType) -> u8 {
    match opcode {
        DigMessageType::NewAttestation => 200,
        DigMessageType::NewCheckpointProposal => 201,
        DigMessageType::NewCheckpointSignature => 202,
        DigMessageType::RequestCheckpointSignatures => 203,
        DigMessageType::RespondCheckpointSignatures => 204,
        DigMessageType::RequestStatus => 205,
        DigMessageType::RespondStatus => 206,
        DigMessageType::NewCheckpointSubmission => 207,
        DigMessageType::ValidatorAnnounce => 208,
        DigMessageType::RequestBlockTransactions => 209,
        DigMessageType::RespondBlockTransactions => 210,
        DigMessageType::ReconciliationSketch => 211,
        DigMessageType::ReconciliationResponse => 212,
        DigMessageType::StemTransaction => 213,
        DigMessageType::PlumtreeLazyAnnounce => 214,
        DigMessageType::PlumtreePrune => 215,
        DigMessageType::PlumtreeGraft => 216,
        DigMessageType::PlumtreeRequestByHash => 217,
        DigMessageType::RegisterPeer => 218,
        DigMessageType::RegisterAck => 219,
    }
}

/// The name of an opcode.
pub open spec fn opcode_name(opcode: DigMessageType) -> Seq<char> {
    match opcode {
        DigMessageType::NewAttestation => "NewAttestation"@,
        DigMessageType::NewCheckpointProposal => "NewCheckpointProposal"@,
        DigMessageType::NewCheckpointSignature => "NewCheckpointSignature"@,
        DigMessageType::RequestCheckpointSignatures => "RequestCheckpointSignatures"@,
        DigMessageType::RespondCheckpointSignatures => "RespondCheckpointSignatures"@,
        DigMessageType::RequestStatus => "RequestStatus"@,
        DigMessageType::RespondStatus => "RespondStatus"@,
        DigMessageType::NewCheckpointSubmission => "NewCheckpointSubmission"@,
        DigMessageType::ValidatorAnnounce => "ValidatorAnnounce"@,
        DigMessageType::RequestBlockTransactions => "RequestBlockTransactions"@,
        DigMessageType::RespondBlockTransactions => "RespondBlockTransactions"@,
        DigMessageType::ReconciliationSketch => "ReconciliationSketch"@,
        DigMessageType::ReconciliationResponse => "ReconciliationResponse"@,
        DigMessageType::StemTransaction => "StemTransaction"@,
        DigMessageType::PlumtreeLazyAnnounce => "PlumtreeLazyAnnounce"@,
        DigMessageType::PlumtreePrune => "PlumtreePrune"@,
        DigMessageType::PlumtreeGraft => "PlumtreeGraft"@,
        DigMessageType::PlumtreeRequestByHash => "PlumtreeRequestByHash"@,
        DigMessageType::RegisterPeer => "RegisterPeer"@,
        DigMessageType::RegisterAck => "RegisterAck"@,
    }
}

/// Whether `byte` is the wire byte of an opcode.
pub open spec fn names_an_opcode(byte: u8) -> bool {
    exists|opcode: DigMessageType| #[trigger] opcode_byte(opcode) == byte
}

/// The opcode of the wire byte `byte`.
pub open spec fn opcode_of_byte(byte: u8) -> Result<DigMessageType, UnknownDigMessageType> {
    if names_an_opcode(byte) {
        Ok(choose|opcode: DigMessageType| #[trigger] opcode_byte(opcode) == byte)
    } else {
        Err(UnknownDigMessageType(byte))
    }
}

/// A wire byte that is no [`DigMessageType`].
#[derive(Debug, Clone, Copy, PartialEq, Eq, Structural)]
pub struct UnknownDigMessageType(pub u8);

/// Why an integer is no [`DigMessageType`].
#[derive(Debug, Clone, Copy, PartialEq, Eq, Structural)]
pub enum WireValueError {
    /// The integer is not a byte.
    OutOfRange,
    /// The integer is a byte, but no opcode has it.
    Unknown(UnknownDigMessageType),
}

/// The opcode that an integer of any width stands for.
pub open spec fn opcode_of_integer(value: int) -> Result<DigMessageType, WireValueError> {
    if !(0 <= value <= 255) {
        Err(WireValueError::OutOfRange)
    } else {
        match opcode_of_byte(value as u8) {
            Ok(opcode) => Ok(opcode),
            Err(unknown) => Err(WireValueError::Unknown(unknown)),
        }
    }
}

impl DigMessageType {
    /// The highest assigned byte.
    pub const MAX_ASSIGNED: u8 = 219;

    /// Every opcode, in the order of their bytes.
    pub const ALL: [DigMessageType; 20] = [
        DigMessageType::NewAttestation,
        DigMessageType::NewCheckpointProposal,
        DigMessageType::NewCheckpointSignature,
        DigMessageType::RequestCheckpointSignatures,
        DigMessageType::RespondCheckpointSignatures,
        DigMessageType::RequestStatus,
        DigMessageType::RespondStatus,
        DigMessageType::NewCheckpointSubmission,
        DigMessageType::ValidatorAnnounce,
        DigMessageType::RequestBlockTransactions,
        DigMessageType::RespondBlockTransactions,
        DigMessageType::ReconciliationSketch,
        DigMessageType::ReconciliationResponse,
        DigMessageType::StemTransaction,
        DigMessageType::PlumtreeLazyAnnounce,
        DigMessageType::PlumtreePrune,
        DigMessageType::PlumtreeGraft,
        DigMessageType::PlumtreeRequestByHash,
        DigMessageType::RegisterPeer,
        DigMessageType::RegisterAck,
    ];

    /// The wire byte of this opcode.
    #[must_use]
    pub fn to_byte(self) -> (r: u8)
        ensures
            r == opcode_byte(self),
    {
        match self {
            DigMessageType::NewAttestation => 200,
            DigMessageType::NewCheckpointProposal => 201,
            DigMessageType::NewCheckpointSignature => 202,
            DigMessageType::RequestCheckpointSignatures => 203,
            DigMessageType::RespondCheckpointSignatures => 204,
            DigMessageType::RequestStatus => 205,
            DigMessageType::RespondStatus => 206,
            DigMessageType::NewCheckpointSubmission => 207,
            DigMessageType::ValidatorAnnounce => 208,
            DigMessageType::RequestBlockTransactions => 209,
            DigMessageType::RespondBlockTransactions => 210,
            DigMessageType::ReconciliationSketch => 211,
            DigMessageType::ReconciliationResponse => 212,
            DigMessageType::StemTransaction => 213,
            DigMessageType::PlumtreeLazyAnnounce => 214,
            DigMessageType::PlumtreePrune => 215,
            DigMessageType::PlumtreeGraft => 216,
            DigMessageType::PlumtreeRequestByHash => 217,
            DigMessageType::RegisterPeer => 218,
            DigMessageType::RegisterAck => 219,
        }
    }

    /// The name of this opcode.
    #[must_use]
    pub fn name(self) -> (r: &'static str)
        ensures
            r@ == opcode_name(self),
    {
        match self {
            DigMessageType::NewAttestation => "NewAttestation",
            DigMessageType::NewCheckpointProposal => "NewCheckpointProposal",
            DigMessageType::NewCheckpointSignature => "NewCheckpointSignature",
            DigMessageType::RequestCheckpointSignatures => "RequestCheckpointSignatures",
            DigMessageType::RespondCheckpointSignatures => "RespondCheckpointSignatures",
            DigMessageType::RequestStatus => "RequestStatus",
            DigMessageType::RespondStatus => "RespondStatus",
            DigMessageType::NewCheckpointSubmission => "NewCheckpointSubmission",
            DigMessageType::ValidatorAnnounce => "ValidatorAnnounce",
            DigMessageType::RequestBlockTransactions => "RequestBlockTransactions",
            DigMessageType::RespondBlockTransactions => "RespondBlockTransactions",
            DigMessageType::ReconciliationSketch => "ReconciliationSketch",
            DigMessageType::ReconciliationResponse => "ReconciliationResponse",
            DigMessageType::StemTransaction => "StemTransaction",
            DigMessageType::PlumtreeLazyAnnounce => "PlumtreeLazyAnnounce",
            DigMessageType::PlumtreePrune => "PlumtreePrune",
            DigMessageType::PlumtreeGraft => "PlumtreeGraft",
            DigMessageType::PlumtreeRequestByHash => "PlumtreeRequestByHash",
            DigMessageType::RegisterPeer => "RegisterPeer",
            DigMessageType::RegisterAck => "RegisterAck",
        }
    }

    /// The opcode that an unsigned integer stands for: a byte is narrowed and looked up, a larger
    /// value is out of range.
    pub fn from_unsigned(value: u64) -> (r: Result<DigMessageType, WireValueError>)
        ensures
            r == opcode_of_integer(value as int),
    {
        if value > 255 {
            return Err(WireValueError::OutOfRange);
        }
        match DigMessageType::try_from(value as u8) {
            Ok(opcode) => Ok(opcode),
            Err(unknown) => Err(WireValueError::Unknown(unknown)),
        }
    }

    /// The opcode that a signed integer stands for: a byte is narrowed and looked up, any other
    /// value is out of range.
    pub fn from_signed(value: i64) -> (r: Result<DigMessageType, WireValueError>)
        ensures
            r == opcode_of_integer(value as int),
    {
        if value < 0 {
            return Err(WireValueError::OutOfRange);
        }
        DigMessageType::from_unsigned(value as u64)
    }
}

impl TryFrom<u8> for DigMessageType {
    type Error = UnknownDigMessageType;

    fn try_from(byte: u8) -> (r: Result<DigMessageType, UnknownDigMessageType>)
        ensures
            r == opcode_of_byte(byte),
    {
        proof {
            opcodes_occupy_the_consensus_band(byte);
        }
        if byte < 200 || byte > DigMessageType::MAX_ASSIGNED {
            return Err(UnknownDigMessageType(byte));
        }
        let opcodes = DigMessageType::ALL;
        proof {
            every_opcode_is_listed();
            bytes_tell_opcodes_apart();
            assert(opcode_byte(opcodes@[byte - 200]) == byte);
        }
        Ok(opcodes[(byte - 200) as usize])
    }
}

impl vstd::std_specs::convert::TryFromSpecImpl<u8> for DigMessageType {
    open spec fn obeys_try_from_spec() -> bool {
        true
    }

    open spec fn try_from_spec(byte: u8) -> Result<DigMessageType, UnknownDigMessageType> {
        opcode_of_byte(byte)
    }
}

/// The name, then the byte in parentheses.
impl std::fmt::Display for DigMessageType {
    fn fmt(&self, f: &mut std::fmt::Formatter<'_>) -> (r: Result<(), std::fmt::Error>)
        ensures
            r is Ok ==> text::written(*final(f)) == text::written(*old(f)) + (opcode_name(*self) + "("@
                + text::decimal(opcode_byte(*self) as nat) + ")"@),
    {
        let byte = text::render_decimal(self.to_byte() as u64);
        text::write_text(f, self.name())?;
        text::write_text(f, "(")?;
        text::write_text(f, byte.as_str())?;
        text::write_text(f, ")")?;
        assert(text::written(*f) =~= text::written(*old(f)) + (opcode_name(*self) + "("@ + text::decimal(
            opcode_byte(*self) as nat,
        ) + ")"@));
        Ok(())
    }
}

impl std::fmt::Display for UnknownDigMessageType {
    fn fmt(&self, f: &mut std::fmt::Formatter<'_>) -> (r: Result<(), std::fmt::Error>)
        ensures
            r is Ok ==> text::written(*final(f)) == text::written(*old(f)) + (
            "unknown DigMessageType discriminant: "@ + text::decimal(self.0 as nat)),
    {
        let byte = text::render_decimal(self.0 as u64);
        text::write_text(f, "unknown DigMessageType discriminant: ")?;
        text::write_text(f, byte.as_str())?;
        assert(text::written(*f) =~= text::written(*old(f)) + ("unknown DigMessageType discriminant: "@
            + text::decimal(self.0 as nat)));
        Ok(())
    }
}

impl std::error::Error for UnknownDigMessageType {}

impl std::fmt::Display for WireValueError {
    fn fmt(&self, f: &mut std::fmt::Formatter<'_>) -> (r: Result<(), std::fmt::Error>)
        ensures
            r is Ok ==> text::written(*final(f)) == text::written(*old(f)) + (match self {
                WireValueError::OutOfRange => "out of u8 range"@,
                WireValueError::Unknown(unknown) => "unknown DigMessageType discriminant: "@ + text::decimal(
                    unknown.0 as nat,
                ),
            }),
    {
        match self {
            WireValueError::OutOfRange => text::write_text(f, "out of u8 range"),
            WireValueError::Unknown(unknown) => {
                let byte = text::render_decimal(unknown.0 as u64);
                text::write_text(f, "unknown DigMessageType discriminant: ")?;
                text::write_text(f, byte.as_str())?;
                assert(text::written(*f) =~= text::written(*old(f)) + ("unknown DigMessageType discriminant: "@
                    + text::decimal(unknown.0 as nat)));
                Ok(())
            },
        }
    }
}

impl std::error::Error for WireValueError {}

/// No two opcodes share a byte.
pub proof fn bytes_tell_opcodes_apart()
    ensures
        forall|a: DigMessageType, b: DigMessageType| #[trigger]
            opcode_byte(a) == #[trigger] opcode_byte(b) ==> a == b,
{
}

/// Every opcode is listed, at the place that its byte gives it, and nothing else is.
pub proof fn every_opcode_is_listed()
    ensures
        DigMessageType::ALL@.len() == 20,
        forall|opcode: DigMessageType| DigMessageType::ALL@[#[trigger] opcode_byte(opcode) - 200] == opcode,
        forall|i: int| 0 <= i < 20 ==> opcode_byte(#[trigger] DigMessageType::ALL@[i]) == 200 + i,
{
}

/// The bytes that are opcodes of the consensus half are exactly 200 to 219.
pub proof fn opcodes_occupy_the_consensus_band(byte: u8)
    ensures
        names_an_opcode(byte) <==> 200 <= byte <= DigMessageType::MAX_ASSIGNED,
{
    if 200 <= byte <= 219 {
        every_opcode_is_listed();
        assert(opcode_byte(DigMessageType::ALL@[byte - 200]) == byte);
    }
}

/// Every opcode is looked up from its own byte.
pub proof fn opcode_round_trips(opcode: DigMessageType)
    ensures
        opcode_of_byte(opcode_byte(opcode)) == Ok::<DigMessageType, UnknownDigMessageType>(opcode),
{
    bytes_tell_opcodes_apart();
    assert(names_an_opcode(opcode_byte(opcode)));
}

/// The registry of the consensus half. An assigned byte never moves.
pub proof fn the_registry_is_permanent()
    ensures
        opcode_byte(DigMessageType::NewAttestation) == 200,
        opcode_byte(DigMessageType::NewCheckpointProposal) == 201,
        opcode_byte(DigMessageType::NewCheckpointSignature) == 202,
        opcode_byte(DigMessageType::RequestCheckpointSignatures) == 203,
        opcode_byte(DigMessageType::RespondCheckpointSignatures) == 204,
        opcode_byte(DigMessageType::RequestStatus) == 205,
        opcode_byte(DigMessageType::RespondStatus) == 206,
        opcode_byte(DigMessageType::NewCheckpointSubmission) == 207,
        opcode_byte(DigMessageType::ValidatorAnnounce) == 208,
        opcode_byte(DigMessageType::RequestBlockTransactions) == 209,
        opcode_byte(DigMessageType::RespondBlockTransactions) == 210,
        opcode_byte(DigMessageType::ReconciliationSketch) == 211,
        opcode_byte(DigMessageType::ReconciliationResponse) == 212,
        opcode_byte(DigMessageType::StemTransaction) == 213,
        opcode_byte(DigMessageType::PlumtreeLazyAnnounce) == 214,
        opcode_byte(DigMessageType::PlumtreePrune) == 215,
        opcode_byte(DigMessageType::PlumtreeGraft) == 216,
        opcode_byte(DigMessageType::PlumtreeRequestByHash) == 217,
        opcode_byte(DigMessageType::RegisterPeer) == 218,
        opcode_byte(DigMessageType::RegisterAck) == 219,
{
}

/// An opcode is named as it is written.
pub proof fn opcodes_are_named_as_they_are_written()
    ensures
        opcode_name(DigMessageType::NewAttestation) == "NewAttestation"@,
        opcode_name(DigMessageType::NewCheckpointProposal) == "NewCheckpointProposal"@,
        opcode_name(DigMessageType::NewCheckpointSignature) == "NewCheckpointSignature"@,
        opcode_name(DigMessageType::RequestCheckpointSignatures) == "RequestCheckpointSignatures"@,
        opcode_name(DigMessageType::RespondCheckpointSignatures) == "RespondCheckpointSignatures"@,
        opcode_name(DigMessageType::RequestStatus) == "RequestStatus"@,
        opcode_name(DigMessageType::RespondStatus) == "RespondStatus"@,
        opcode_name(DigMessageType::NewCheckpointSubmission) == "NewCheckpointSubmission"@,
        opcode_name(DigMessageType::ValidatorAnnounce) == "ValidatorAnnounce"@,
        opcode_name(DigMessageType::RequestBlockTransactions) == "RequestBlockTransactions"@,
        opcode_name(DigMessageType::RespondBlockTransactions) == "RespondBlockTransactions"@,
        opcode_name(DigMessageType::ReconciliationSketch) == "ReconciliationSketch"@,
        opcode_name(DigMessageType::ReconciliationResponse) == "ReconciliationResponse"@,
        opcode_name(DigMessageType::StemTransaction) == "StemTransaction"@,
        opcode_name(DigMessageType::PlumtreeLazyAnnounce) == "PlumtreeLazyAnnounce"@,
        opcode_name(DigMessageType::PlumtreePrune) == "PlumtreePrune"@,
        opcode_name(DigMessageType::PlumtreeGraft) == "PlumtreeGraft"@,
        opcode_name(DigMessageType::PlumtreeRequestByHash) == "PlumtreeRequestByHash"@,
        opcode_name(DigMessageType::RegisterPeer) == "RegisterPeer"@,
        opcode_name(DigMessageType::RegisterAck) == "RegisterAck"@,
{
}

/// A byte is looked up to the opcode that has it, and a byte that none has is handed back.
pub proof fn a_byte_is_looked_up_to_its_opcode(byte: u8)
    ensures
        match opcode_of_byte(byte) {
            Ok(opcode) => 200 <= byte <= 219 && opcode_byte(opcode) == byte,
            Err(unknown) => !(200 <= byte <= 219) && unknown.0 == byte,
        },
{
    opcodes_occupy_the_consensus_band(byte);
    if names_an_opcode(byte) {
        let opcode = choose|opcode: DigMessageType| #[trigger] opcode_byte(opcode) == byte;
        assert(opcode_byte(opcode) == byte);
    }
}

/// An integer stands for an opcode exactly when it is 200 to 219, and then for the one with that
/// byte. Another integer of a byte is reported with its value, one beyond a byte as out of range.
pub proof fn an_integer_stands_for_the_opcode_of_its_value(value: int)
    ensures
        match opcode_of_integer(value) {
            Ok(opcode) => 200 <= value <= 219 && opcode_byte(opcode) == value,
            Err(WireValueError::OutOfRange) => value < 0 || value > 255,
            Err(WireValueError::Unknown(unknown)) => 0 <= value <= 255 && !(200 <= value <= 219) && unknown.0 == value,
        },
{
    if 0 <= value <= 255 {
        a_byte_is_looked_up_to_its_opcode(value as u8);
    }
}

} // verus!
