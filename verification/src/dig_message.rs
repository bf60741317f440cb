//! [`DigMessage`], the envelope of every message on a DIG peer connection.
//!
//! ```text
//! size        field       meaning
//! 1           msg_type    raw opcode
//! 1           has_id      0 = no id, any other value = id present
//! 2 (if id)   id          correlation id, big-endian
//! 4           data_len    payload length, big-endian
//! data_len    data        opaque payload
//! ```
//!
//! The opcode is a raw byte: decoding accepts every value, and what an opcode means is the
//! receiver's business. The layout is frozen.

use crate::bytes;
use crate::bytes::Bytes;
use crate::opcodes;
use crate::streamable;
use vstd::prelude::*;
use vstd::std_specs::cmp::PartialEqSpec;

verus! {

/// The contents of a message.
#[verifier::ext_equal]
pub struct Frame {
    /// The opcode.
    pub msg_type: u8,
    /// The correlation id.
    pub id: Option<u16>,
    /// The payload.
    pub data: Seq<u8>,
}

/// One message: an opcode, an optional correlation id and a payload.
#[derive(Debug)]
pub struct DigMessage {
    /// Raw wire opcode.
    pub msg_type: u8,
    /// Correlation id of a request and of the reply to it.
    pub id: Option<u16>,
    /// Serialized payload.
    pub data: Bytes,
}

impl View for DigMessage {
    type V = Frame;

    open spec fn view(&self) -> Frame {
        Frame { msg_type: self.msg_type, id: self.id, data: self.data@ }
    }
}

/// The bytes of an optional correlation id.
pub open spec fn encoded_id(id: Option<u16>) -> Seq<u8> {
    match id {
        None => seq![0u8],
        Some(id) => seq![1u8] + streamable::be_u16(id),
    }
}

/// The bytes of a message: the opcode, the optional id, the length-prefixed payload.
pub open spec fn encoded_frame(frame: Frame) -> Seq<u8> {
    seq![frame.msg_type] + encoded_id(frame.id) + bytes::encoded_payload(frame.data)
}

/// Where the length prefix stands in the frame that `input` begins with.
pub open spec fn length_position(input: Seq<u8>) -> int {
    if input[1] != 0 {
        4
    } else {
        2
    }
}

/// The message that `input` begins with, or `None` where it begins with none: it ends too early,
/// or its payload length is above [`DigMessage::MAX_MESSAGE_SIZE`].
pub open spec fn decoded_frame(input: Seq<u8>) -> Option<Frame> {
    let at = length_position(input);
    let len = streamable::u32_at(input, at);
    if input.len() < 2 || input.len() < at + 4 || len > DigMessage::MAX_MESSAGE_SIZE || input.len() < at + 4
        + len {
        None
    } else {
        Some(
            Frame {
                msg_type: input[0],
                id: if input[1] != 0 {
                    Some(streamable::u16_at(input, 2))
                } else {
                    None
                },
                data: input.subrange(at + 4, at + 4 + len),
            },
        )
    }
}

/// A four-byte big-endian integer at `at`.
fn read_u32(input: &[u8], at: usize) -> (r: u32)
    requires
        at + 4 <= input@.len(),
    ensures
        r == streamable::u32_at(input@, at as int),
{
    (input[at] as u32) * 0x100_0000 + (input[at + 1] as u32) * 0x1_0000 + (input[at + 2] as u32) * 0x100 + (
    input[at + 3] as u32)
}

/// The header of the frame that a buffer begins with.
struct Header {
    msg_type: u8,
    id: Option<u16>,
    start: usize,
    end: usize,
}

/// Reads the header of the frame that `input` begins with: every offset is computed with checked
/// addition, and the payload length is held to the ceiling before it is held to the buffer.
fn read_header(input: &[u8]) -> (r: Option<Header>)
    ensures
        match r {
            None => decoded_frame(input@) is None,
            Some(header) => {
                &&& header.start <= header.end <= input@.len()
                &&& decoded_frame(input@) == Some(
                    Frame {
                        msg_type: header.msg_type,
                        id: header.id,
                        data: input@.subrange(header.start as int, header.end as int),
                    },
                )
            },
        },
{
    let available: usize = input.len();
    if available < 2 {
        return None;
    }
    let msg_type: u8 = input[0];
    let mut offset: usize = 2;
    let mut id: Option<u16> = None;
    if input[1] != 0 {
        let after: usize = offset.checked_add(2)?;
        if available < after {
            return None;
        }
        id = Some((input[2] as u16) * 0x100 + (input[3] as u16));
        offset = after;
    }
    let start: usize = offset.checked_add(4)?;
    if available < start {
        return None;
    }
    let len: usize = read_u32(input, offset) as usize;
    if len > DigMessage::MAX_MESSAGE_SIZE {
        return None;
    }
    let end: usize = start.checked_add(len)?;
    if available < end {
        return None;
    }
    Some(Header { msg_type, id, start, end })
}

impl DigMessage {
    /// The largest payload a decoder accepts, 16 MiB. A length prefix that a peer made up cannot
    /// force an allocation above it.
    pub const MAX_MESSAGE_SIZE: usize = 16_777_216;

    /// A message of the given parts.
    #[must_use]
    pub fn new(msg_type: u8, id: Option<u16>, data: Bytes) -> (r: Self)
        ensures
            r.msg_type == msg_type,
            r.id == id,
            r.data@ == data@,
    {
        DigMessage { msg_type, id, data }
    }

    /// The frame of this message. The length prefix is the payload length, of which a payload
    /// longer than four bytes can count keeps the low bytes.
    #[must_use]
    pub fn to_bytes(&self) -> (r: Vec<u8>)
        ensures
            r@ == encoded_frame(self@),
    {
        let mut out: Vec<u8> = Vec::new();
        out.push(self.msg_type);
        match self.id {
            None => {
                out.push(0);
            },
            Some(id) => {
                out.push(1);
                out.push((id / 0x100) as u8);
                out.push((id % 0x100) as u8);
            },
        }
        assert(out@ =~= seq![self.msg_type] + encoded_id(self.id));
        let len: u32 = self.data.len() as u32;
        out.push((len / 0x100_0000) as u8);
        out.push((len / 0x1_0000 % 0x100) as u8);
        out.push((len / 0x100 % 0x100) as u8);
        out.push((len % 0x100) as u8);
        assert(out@ =~= seq![self.msg_type] + encoded_id(self.id) + streamable::be_u32(len));
        out.extend_from_slice(self.data.as_ref());
        assert(out@ =~= encoded_frame(self@));
        out
    }

    /// Decodes the message that `input` begins with; bytes behind it are ignored. Every opcode is
    /// accepted. A truncated frame and a payload length above the ceiling give `None`.
    #[must_use]
    pub fn from_bytes(input: &[u8]) -> (r: Option<Self>)
        ensures
            match r {
                Some(message) => decoded_frame(input@) == Some(message@),
                None => decoded_frame(input@) is None,
            },
    {
        let header = read_header(input)?;
        let data = Bytes::new(bytes::copy_range(input, header.start, header.end));
        Some(DigMessage { msg_type: header.msg_type, id: header.id, data })
    }

    /// Decodes as [`DigMessage::from_bytes`] does, but takes the buffer and moves the payload out
    /// of it.
    #[must_use]
    pub fn from_bytes_owned(input: Vec<u8>) -> (r: Option<Self>)
        ensures
            match r {
                Some(message) => decoded_frame(input@) == Some(message@),
                None => decoded_frame(input@) is None,
            },
    {
        let header = read_header(input.as_slice())?;
        let mut buffer = input;
        buffer.truncate(header.end);
        let data = buffer.split_off(header.start);
        assert(data@ =~= input@.subrange(header.start as int, header.end as int));
        Some(DigMessage { msg_type: header.msg_type, id: header.id, data: Bytes::new(data) })
    }

    /// Whether the opcode is one of the DIG band.
    #[must_use]
    pub fn is_dig_extension(&self) -> (r: bool)
        ensures
            r == (self.msg_type >= 200),
    {
        opcodes::is_dig_opcode(self.msg_type)
    }

    /// Whether the opcode is one of Chia's namespace.
    #[must_use]
    pub fn is_chia_standard(&self) -> (r: bool)
        ensures
            r == (self.msg_type < 200),
    {
        !opcodes::is_dig_opcode(self.msg_type)
    }
}

impl Clone for DigMessage {
    fn clone(&self) -> (r: Self)
        ensures
            r@ == self@,
    {
        DigMessage { msg_type: self.msg_type, id: self.id, data: self.data.clone() }
    }
}

impl PartialEq for DigMessage {
    fn eq(&self, other: &Self) -> (r: bool) {
        self.msg_type == other.msg_type && self.id == other.id && self.data == other.data
    }
}

impl vstd::std_specs::cmp::PartialEqSpecImpl for DigMessage {
    open spec fn obeys_eq_spec() -> bool {
        true
    }

    open spec fn eq_spec(&self, other: &Self) -> bool {
        self@ == other@
    }
}

impl Eq for DigMessage {}

/// A message with a payload up to the ceiling is decoded as it was, whatever its opcode and
/// whatever bytes follow it.
pub proof fn frame_round_trips(frame: Frame, rest: Seq<u8>)
    requires
        frame.data.len() <= DigMessage::MAX_MESSAGE_SIZE,
    ensures
        decoded_frame(encoded_frame(frame) + rest) == Some(frame),
{
    let input = encoded_frame(frame) + rest;
    let header = seq![frame.msg_type] + encoded_id(frame.id);
    let at = header.len() as int;
    let len = frame.data.len() as u32;
    let prefix = streamable::be_u32(len);
    assert(encoded_frame(frame) =~= header + prefix + frame.data);
    assert(input[0] == frame.msg_type);
    assert(input[1] == encoded_id(frame.id)[0]);
    assert(at == length_position(input));
    assert forall|i: int| 0 <= i < 4 implies #[trigger] input[at + i] == prefix[i] by {
        assert((header + prefix)[at + i] == prefix[i]);
    }
    streamable::u32_round_trips(len, input, at);
    if frame.id is Some {
        let id = frame.id->Some_0;
        assert forall|i: int| 0 <= i < 2 implies #[trigger] input[2 + i] == streamable::be_u16(id)[i] by {
            assert(encoded_id(frame.id)[1 + i] == streamable::be_u16(id)[i]);
            assert(header[2 + i] == encoded_id(frame.id)[1 + i]);
        }
        streamable::u16_round_trips(id, input, 2);
    }
    assert(input.subrange(at + 4, at + 4 + len) =~= frame.data);
    assert(decoded_frame(input)->Some_0 =~= frame);
}

/// A message with a payload above the ceiling, but still within its length prefix, is refused.
pub proof fn oversized_frame_is_refused(frame: Frame, rest: Seq<u8>)
    requires
        DigMessage::MAX_MESSAGE_SIZE < frame.data.len(),
        bytes::payload_fits(frame.data),
    ensures
        decoded_frame(encoded_frame(frame) + rest) is None,
{
    let input = encoded_frame(frame) + rest;
    let header = seq![frame.msg_type] + encoded_id(frame.id);
    let at = header.len() as int;
    let len = frame.data.len() as u32;
    let prefix = streamable::be_u32(len);
    assert(encoded_frame(frame) =~= header + prefix + frame.data);
    assert(input[1] == encoded_id(frame.id)[0]);
    assert(at == length_position(input));
    assert forall|i: int| 0 <= i < 4 implies #[trigger] input[at + i] == prefix[i] by {
        assert((header + prefix)[at + i] == prefix[i]);
    }
    streamable::u32_round_trips(len, input, at);
}

/// A frame cut off anywhere before its end is refused.
pub proof fn truncated_frame_is_refused(frame: Frame, kept: int)
    requires
        bytes::payload_fits(frame.data),
        0 <= kept < encoded_frame(frame).len(),
    ensures
        decoded_frame(encoded_frame(frame).take(kept)) is None,
{
    let whole = encoded_frame(frame);
    let input = whole.take(kept);
    let header = seq![frame.msg_type] + encoded_id(frame.id);
    let at = header.len() as int;
    let len = frame.data.len() as u32;
    let prefix = streamable::be_u32(len);
    assert(whole =~= header + prefix + frame.data);
    if kept >= 2 {
        assert(input[1] == encoded_id(frame.id)[0]);
        assert(at == length_position(input));
        if kept >= at + 4 {
            assert forall|i: int| 0 <= i < 4 implies #[trigger] input[at + i] == prefix[i] by {
                assert((header + prefix)[at + i] == prefix[i]);
            }
            streamable::u32_round_trips(len, input, at);
        }
    }
}

/// Decoding depends on nothing behind the frame: what is decoded keeps being decoded when bytes
/// are added behind it.
pub proof fn trailing_bytes_are_ignored(input: Seq<u8>, rest: Seq<u8>)
    requires
        decoded_frame(input) is Some,
    ensures
        decoded_frame(input + rest) == decoded_frame(input),
{
    let at = length_position(input);
    let len = streamable::u32_at(input, at);
    let longer = input + rest;
    assert(longer[0] == input[0] && longer[1] == input[1]);
    assert(streamable::u32_at(longer, at) == len);
    assert(streamable::u16_at(longer, 2) == streamable::u16_at(input, 2) || input[1] == 0);
    assert(longer.subrange(at + 4, at + 4 + len) =~= input.subrange(at + 4, at + 4 + len));
}

/// The layout of a frame, at absolute positions and under every opcode: the opcode, a byte that
/// says whether an id follows, the id most significant byte first, the payload length most
/// significant byte first, the payload.
pub proof fn the_layout_of_a_frame(frame: Frame)
    ensures
        encoded_frame(frame)[0] == frame.msg_type,
        match frame.id {
            None => {
                let e = encoded_frame(frame);
                &&& e.len() == 6 + frame.data.len()
                &&& e[1] == 0
                &&& frame.data.len() < 0x1_0000_0000 ==> e[2] * 0x100_0000 + e[3] * 0x1_0000 + e[4] * 0x100 + e[5]
                    == frame.data.len()
                &&& forall|i: int| 0 <= i < frame.data.len() ==> #[trigger] e[6 + i] == frame.data[i]
            },
            Some(id) => {
                let e = encoded_frame(frame);
                &&& e.len() == 8 + frame.data.len()
                &&& e[1] == 1
                &&& e[2] == id / 0x100
                &&& e[3] == id % 0x100
                &&& frame.data.len() < 0x1_0000_0000 ==> e[4] * 0x100_0000 + e[5] * 0x1_0000 + e[6] * 0x100 + e[7]
                    == frame.data.len()
                &&& forall|i: int| 0 <= i < frame.data.len() ==> #[trigger] e[8 + i] == frame.data[i]
            },
        },
{
    let e = encoded_frame(frame);
    let tag = encoded_id(frame.id);
    let payload = bytes::encoded_payload(frame.data);
    let at = (1 + tag.len()) as int;
    bytes::a_payload_follows_its_length(frame.data);
    assert forall|i: int| 0 <= i < tag.len() implies #[trigger] e[1 + i] == tag[i] by {
        assert((seq![frame.msg_type] + tag)[1 + i] == tag[i]);
    }
    assert(e[1int + 0] == tag[0]);
    if frame.id is Some {
        assert(e[1int + 1] == tag[1] && e[1int + 2] == tag[2]);
    }
    assert forall|i: int| 0 <= i < payload.len() implies #[trigger] e[at + i] == payload[i] by {}
    assert(e[at + 0] == payload[0] && e[at + 1] == payload[1] && e[at + 2] == payload[2] && e[at + 3] == payload[3]);
    assert forall|i: int| 0 <= i < frame.data.len() implies #[trigger] e[at + 4 + i] == frame.data[i] by {
        assert(e[at + (4 + i)] == payload[4 + i]);
    }
    if frame.id is None {
        assert forall|i: int| 0 <= i < frame.data.len() implies #[trigger] e[6 + i] == frame.data[i] by {
            assert(e[at + 4 + i] == frame.data[i]);
        }
    } else {
        assert forall|i: int| 0 <= i < frame.data.len() implies #[trigger] e[8 + i] == frame.data[i] by {
            assert(e[at + 4 + i] == frame.data[i]);
        }
    }
}

/// Framing does not look at the opcode: two messages that differ in it alone have frames that
/// differ in the first byte alone, and a frame whose first byte is replaced is decoded as before
/// under the other opcode.
pub proof fn the_opcode_changes_nothing_but_the_first_byte(frame: Frame, other: u8, input: Seq<u8>)
    ensures
        encoded_frame(Frame { msg_type: other, ..frame }) == encoded_frame(frame).update(0, other),
        input.len() > 0 ==> decoded_frame(input.update(0, other)) == (match decoded_frame(input) {
            Some(decoded) => Some(Frame { msg_type: other, ..decoded }),
            None => None,
        }),
{
    assert(encoded_frame(Frame { msg_type: other, ..frame }) =~= encoded_frame(frame).update(0, other));
    if input.len() >= 2 {
        let changed = input.update(0, other);
        let at = length_position(input);
        assert(changed[1] == input[1]);
        let len = streamable::u32_at(input, at);
        if input.len() >= at + 4 {
            assert(changed[at] == input[at] && changed[at + 1] == input[at + 1] && changed[at + 2] == input[at + 2]
                && changed[at + 3] == input[at + 3]);
            if input.len() >= at + 4 + len {
                assert(changed.subrange(at + 4, at + 4 + len) =~= input.subrange(at + 4, at + 4 + len));
            }
            if at == 4 {
                assert(changed[2] == input[2] && changed[3] == input[3]);
            }
        }
    }
}

/// A buffer is read at the positions of that layout, and refused exactly where it ends too early or
/// the payload length is above 16 MiB.
pub proof fn a_frame_is_read_at_its_positions(input: Seq<u8>)
    ensures
        input.len() < 2 ==> decoded_frame(input) is None,
        input.len() >= 2 ==> {
            let at: int = if input[1] == 0 {
                2
            } else {
                4
            };
            let len = input[at] * 0x100_0000 + input[at + 1] * 0x1_0000 + input[at + 2] * 0x100 + input[at + 3];
            match decoded_frame(input) {
                None => input.len() < at + 4 || len > 16_777_216 || input.len() < at + 4 + len,
                Some(frame) => {
                    &&& at + 4 + len <= input.len()
                    &&& len <= 16_777_216
                    &&& frame.msg_type == input[0]
                    &&& match frame.id {
                        None => input[1] == 0,
                        Some(id) => input[1] != 0 && id == input[2] * 0x100 + input[3],
                    }
                    &&& frame.data.len() == len
                    &&& forall|i: int| 0 <= i < len ==> #[trigger] frame.data[i] == input[at + 4 + i]
                },
            }
        },
{
}

/// What is framed are the fields of the message themselves.
pub proof fn what_is_framed_are_the_fields(message: DigMessage)
    ensures
        message@.msg_type == message.msg_type,
        message@.id == message.id,
        message@.data == message.data@,
        DigMessage::MAX_MESSAGE_SIZE == 16 * 1024 * 1024,
{
}

/// Two messages are equal where their opcodes, their ids and their payloads are.
pub proof fn messages_are_equal_by_their_fields(one: DigMessage, two: DigMessage)
    ensures
        one.eq_spec(&two) <==> one.msg_type == two.msg_type && one.id == two.id && one.data@ == two.data@,
{
}

} // verus!
