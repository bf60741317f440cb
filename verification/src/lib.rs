//! The DIG Network peer wire: a native protocol, plus the narrow Chia surface that a DIG node
//! needs to also speak to Chia full nodes.
//!
//! [`DigMessage`] is the envelope of every message: a raw opcode, an optional correlation id and a
//! [`Bytes`] payload. It carries the DIG opcode band, which Chia's closed set of message types
//! cannot name, and is byte-identical to Chia's own framing.
//!
//! | Module | What it holds |
//! |---|---|
//! | [`bytes`], [`node_type`] | the values that bodies are made of, and their encodings |
//! | [`dig_message`] | the envelope and its framing |
//! | [`opcodes`], [`dig_message_type`] | the opcode namespace |
//! | [`introducer_wire`] | the messages of an introducer |
//! | [`rate_limit`] | directional rate limiting by opcode |
//! | [`request_map`] | correlation of requests and replies |
//! | [`link`], [`error`] | the decisions of a peer link, and its errors |
//! | [`streamable`], [`digest`], [`text`] | encodings of plain values, SHA-256, rendering |
//!
//! The contract of a function says what it returns or changes. The public proof functions of each
//! module state what holds across several of them, such as that a decoder undoes its encoder or
//! that a correlation id comes back last.

pub mod bytes;
pub mod dig_message;
pub mod dig_message_type;
pub mod digest;
pub mod error;
pub mod introducer_wire;
pub mod link;
pub mod node_type;
pub mod opcodes;
pub mod rate_limit;
pub mod request_map;
pub mod streamable;
pub mod text;

pub use bytes::Bytes;
pub use dig_message::DigMessage;
pub use dig_message_type::{DigMessageType, UnknownDigMessageType};
pub use error::LinkError;
pub use introducer_wire::{
    RegisterAck, RegisterPeer, RequestPeersIntroducer, RespondPeersIntroducer, TimestampedPeerInfo,
};
pub use link::LinkOptions;
pub use node_type::{NodeType, UnknownNodeType};
pub use opcodes::{
    is_dig_opcode, ALL_DIG_OPCODES, DIG_BAND_START, DIG_MESSAGE, FREE_BAND_START, HOLDINGS_ANNOUNCE, STORE_MELTED,
};
pub use rate_limit::{
    Admission, Direction, LimitFactor, OpcodeRateLimiter, OpcodeRateLimits, RateLimit, RateLimits,
};
