//! The body encoding of the peer wire: big-endian integers, one-byte booleans and
//! length-prefixed UTF-8 text.
//!
//! The encoders and decoders of the primitive values are those of `chia_traits`, which every peer
//! on the network already speaks. Each is called through one small function here, and what that
//! function promises is stated over the sequences of this module.

use chia_traits::Streamable;
use std::io::Cursor;
use vstd::prelude::*;

verus! {

/// Why a body could not be encoded or decoded.
#[derive(Debug, Clone, Copy, PartialEq, Eq, Structural)]
pub enum StreamError {
    /// The buffer ends before the value does.
    EndOfBuffer,
    /// A boolean byte is neither 0 nor 1.
    InvalidBool,
    /// Text is not UTF-8.
    InvalidString,
    /// A byte names no variant of the enumeration it stands for.
    InvalidEnum,
    /// Text or a list is too long for its length prefix, or bytes follow the value.
    InputTooLarge,
    /// A payload is too long for its length prefix.
    SequenceTooLarge,
}

/// The largest length that a four-byte prefix can hold.
pub const MAX_PREFIXED_LEN: usize = 0xffff_ffff;

// ---------------------------------------------------------------------------
// Integers
// ---------------------------------------------------------------------------

/// The two bytes of `value`, most significant first.
pub open spec fn be_u16(value: u16) -> Seq<u8> {
    seq![(value / 0x100) as u8, (value % 0x100) as u8]
}

/// The four bytes of `value`, most significant first.
pub open spec fn be_u32(value: u32) -> Seq<u8> {
    seq![
        (value / 0x100_0000) as u8,
        (value / 0x1_0000 % 0x100) as u8,
        (value / 0x100 % 0x100) as u8,
        (value % 0x100) as u8,
    ]
}

/// The eight bytes of `value`, most significant first.
pub open spec fn be_u64(value: u64) -> Seq<u8> {
    be_u32((value / 0x1_0000_0000) as u32) + be_u32((value % 0x1_0000_0000) as u32)
}

/// The number that the two bytes of `input` from `at` on spell, most significant first.
pub open spec fn u16_at(input: Seq<u8>, at: int) -> u16 {
    (input[at] * 0x100 + input[at + 1]) as u16
}

/// The number that the four bytes of `input` from `at` on spell, most significant first.
pub open spec fn u32_at(input: Seq<u8>, at: int) -> u32 {
    (input[at] * 0x100_0000 + input[at + 1] * 0x1_0000 + input[at + 2] * 0x100 + input[at + 3]) as u32
}

/// The number that the eight bytes of `input` from `at` on spell, most significant first.
pub open spec fn u64_at(input: Seq<u8>, at: int) -> u64 {
    (u32_at(input, at) * 0x1_0000_0000 + u32_at(input, at + 4)) as u64
}

/// What decoding gives: the value and the position behind it, or the error.
pub type Parsed<T> = Result<(T, int), StreamError>;

/// Decoding one byte of `input` at `at`.
pub open spec fn parsed_u8(input: Seq<u8>, at: int) -> Parsed<u8> {
    if at + 1 <= input.len() {
        Ok((input[at], at + 1))
    } else {
        Err(StreamError::EndOfBuffer)
    }
}

/// Decoding a two-byte integer of `input` at `at`.
pub open spec fn parsed_u16(input: Seq<u8>, at: int) -> Parsed<u16> {
    if at + 2 <= input.len() {
        Ok((u16_at(input, at), at + 2))
    } else {
        Err(StreamError::EndOfBuffer)
    }
}

/// Decoding a four-byte integer of `input` at `at`.
pub open spec fn parsed_u32(input: Seq<u8>, at: int) -> Parsed<u32> {
    if at + 4 <= input.len() {
        Ok((u32_at(input, at), at + 4))
    } else {
        Err(StreamError::EndOfBuffer)
    }
}

/// Decoding an eight-byte integer of `input` at `at`.
pub open spec fn parsed_u64(input: Seq<u8>, at: int) -> Parsed<u64> {
    if at + 8 <= input.len() {
        Ok((u64_at(input, at), at + 8))
    } else {
        Err(StreamError::EndOfBuffer)
    }
}

/// Whether the executable result `r` of a decoder is the result that `p` describes.
pub open spec fn agrees<T>(r: Result<(T, usize), StreamError>, p: Parsed<T>) -> bool {
    match r {
        Ok((value, next)) => p == Ok::<(T, int), StreamError>((value, next as int)),
        Err(error) => p == Err::<(T, int), StreamError>(error),
    }
}

/// `u16::stream` of `chia_traits::Streamable`: appends the two bytes of `value`, most significant
/// first, and never fails.
#[verifier::external_body]
pub(crate) fn stream_u16(value: u16, out: &mut Vec<u8>) -> (r: Result<(), StreamError>)
    ensures
        r is Ok,
        final(out)@ == old(out)@ + be_u16(value),
{
    value.stream(out).map_err(|_| StreamError::InputTooLarge)
}

/// `u32::stream` of `chia_traits::Streamable`: appends the four bytes of `value`, most significant
/// first, and never fails.
#[verifier::external_body]
pub(crate) fn stream_u32(value: u32, out: &mut Vec<u8>) -> (r: Result<(), StreamError>)
    ensures
        r is Ok,
        final(out)@ == old(out)@ + be_u32(value),
{
    value.stream(out).map_err(|_| StreamError::InputTooLarge)
}

/// `u64::stream` of `chia_traits::Streamable`: appends the eight bytes of `value`, most
/// significant first, and never fails.
#[verifier::external_body]
pub(crate) fn stream_u64(value: u64, out: &mut Vec<u8>) -> (r: Result<(), StreamError>)
    ensures
        r is Ok,
        final(out)@ == old(out)@ + be_u64(value),
{
    value.stream(out).map_err(|_| StreamError::InputTooLarge)
}

/// `u8::parse` of `chia_traits::Streamable` on a cursor at `at`: one byte, or an error exactly
/// when the buffer is at its end.
#[verifier::external_body]
pub(crate) fn parse_u8(input: &[u8], at: usize) -> (r: Result<(u8, usize), StreamError>)
    requires
        at <= input@.len(),
    ensures
        agrees(r, parsed_u8(input@, at as int)),
{
    let mut cursor = Cursor::new(input);
    cursor.set_position(at as u64);
    match u8::parse::<false>(&mut cursor) {
        Ok(value) => Ok((value, cursor.position() as usize)),
        Err(_) => Err(StreamError::EndOfBuffer),
    }
}

/// `u16::parse` of `chia_traits::Streamable` on a cursor at `at`: two bytes, most significant
/// first, or an error exactly when fewer are left.
#[verifier::external_body]
pub(crate) fn parse_u16(input: &[u8], at: usize) -> (r: Result<(u16, usize), StreamError>)
    requires
        at <= input@.len(),
    ensures
        agrees(r, parsed_u16(input@, at as int)),
{
    let mut cursor = Cursor::new(input);
    cursor.set_position(at as u64);
    match u16::parse::<false>(&mut cursor) {
        Ok(value) => Ok((value, cursor.position() as usize)),
        Err(_) => Err(StreamError::EndOfBuffer),
    }
}

/// `u32::parse` of `chia_traits::Streamable` on a cursor at `at`: four bytes, most significant
/// first, or an error exactly when fewer are left.
#[verifier::external_body]
pub(crate) fn parse_u32(input: &[u8], at: usize) -> (r: Result<(u32, usize), StreamError>)
    requires
        at <= input@.len(),
    ensures
        agrees(r, parsed_u32(input@, at as int)),
{
    let mut cursor = Cursor::new(input);
    cursor.set_position(at as u64);
    match u32::parse::<false>(&mut cursor) {
        Ok(value) => Ok((value, cursor.position() as usize)),
        Err(_) => Err(StreamError::EndOfBuffer),
    }
}

/// `u64::parse` of `chia_traits::Streamable` on a cursor at `at`: eight bytes, most significant
/// first, or an error exactly when fewer are left.
#[verifier::external_body]
pub(crate) fn parse_u64(input: &[u8], at: usize) -> (r: Result<(u64, usize), StreamError>)
    requires
        at <= input@.len(),
    ensures
        agrees(r, parsed_u64(input@, at as int)),
{
    let mut cursor = Cursor::new(input);
    cursor.set_position(at as u64);
    match u64::parse::<false>(&mut cursor) {
        Ok(value) => Ok((value, cursor.position() as usize)),
        Err(_) => Err(StreamError::EndOfBuffer),
    }
}

// ---------------------------------------------------------------------------
// Booleans
// ---------------------------------------------------------------------------

/// The byte of `value`.
pub open spec fn encoded_bool(value: bool) -> Seq<u8> {
    seq![if value { 1u8 } else { 0u8 }]
}

/// Decoding a boolean of `input` at `at`.
pub open spec fn parsed_bool(input: Seq<u8>, at: int) -> Parsed<bool> {
    if at + 1 > input.len() {
        Err(StreamError::EndOfBuffer)
    } else if input[at] == 0 {
        Ok((false, at + 1))
    } else if input[at] == 1 {
        Ok((true, at + 1))
    } else {
        Err(StreamError::InvalidBool)
    }
}

/// `bool::stream` of `chia_traits::Streamable`: appends the byte 1 or 0, and never fails.
#[verifier::external_body]
pub(crate) fn stream_bool(value: bool, out: &mut Vec<u8>) -> (r: Result<(), StreamError>)
    ensures
        r is Ok,
        final(out)@ == old(out)@ + encoded_bool(value),
{
    value.stream(out).map_err(|_| StreamError::InputTooLarge)
}

/// `bool::parse` of `chia_traits::Streamable` on a cursor at `at`: one byte, which must be 0 or 1.
#[verifier::external_body]
pub(crate) fn parse_bool(input: &[u8], at: usize) -> (r: Result<(bool, usize), StreamError>)
    requires
        at <= input@.len(),
    ensures
        agrees(r, parsed_bool(input@, at as int)),
{
    let mut cursor = Cursor::new(input);
    cursor.set_position(at as u64);
    match bool::parse::<false>(&mut cursor) {
        Ok(value) => Ok((value, cursor.position() as usize)),
        Err(chia_traits::Error::InvalidBool) => Err(StreamError::InvalidBool),
        Err(_) => Err(StreamError::EndOfBuffer),
    }
}

// ---------------------------------------------------------------------------
// Text
// ---------------------------------------------------------------------------

/// Whether the UTF-8 form of `text` is short enough for its length prefix.
pub open spec fn text_fits(text: Seq<char>) -> bool {
    vstd::utf8::encode_utf8(text).len() <= MAX_PREFIXED_LEN
}

/// The bytes of `text`: the length of its UTF-8 form, then that form.
pub open spec fn encoded_text(text: Seq<char>) -> Seq<u8> {
    be_u32(vstd::utf8::encode_utf8(text).len() as u32) + vstd::utf8::encode_utf8(text)
}

/// Decoding length-prefixed text of `input` at `at`.
pub open spec fn parsed_text(input: Seq<u8>, at: int) -> Parsed<Seq<char>> {
    match parsed_u32(input, at) {
        Err(error) => Err(error),
        Ok((len, start)) => if start + len > input.len() {
            Err(StreamError::EndOfBuffer)
        } else if !vstd::utf8::valid_utf8(input.subrange(start, start + len)) {
            Err(StreamError::InvalidString)
        } else {
            Ok((vstd::utf8::decode_utf8(input.subrange(start, start + len)), start + len))
        },
    }
}

/// The refusal of a value that is too long for its length prefix.
pub open spec fn refused_as_too_large() -> Result<(), StreamError> {
    Err(StreamError::InputTooLarge)
}

/// Whether the executable result `r` of decoding text is the result that `p` describes.
pub open spec fn agrees_on_text(r: Result<(String, usize), StreamError>, p: Parsed<Seq<char>>) -> bool {
    match r {
        Ok((text, next)) => p == Ok::<(Seq<char>, int), StreamError>((text@, next as int)),
        Err(error) => p == Err::<(Seq<char>, int), StreamError>(error),
    }
}

/// `String::stream` of `chia_traits::Streamable`: appends the length of the UTF-8 form and that
/// form; a form too long for its prefix is refused, with nothing appended.
#[verifier::external_body]
pub(crate) fn stream_text(text: &String, out: &mut Vec<u8>) -> (r: Result<(), StreamError>)
    ensures
        text_fits(text@) ==> r is Ok && final(out)@ == old(out)@ + encoded_text(text@),
        !text_fits(text@) ==> r == refused_as_too_large() && final(out)@ == old(out)@,
{
    text.stream(out).map_err(|_| StreamError::InputTooLarge)
}

/// `String::parse` of `chia_traits::Streamable` on a cursor at `at`: a four-byte length, then that
/// many bytes, which must be UTF-8.
#[verifier::external_body]
pub(crate) fn parse_text(input: &[u8], at: usize) -> (r: Result<(String, usize), StreamError>)
    requires
        at <= input@.len(),
    ensures
        agrees_on_text(r, parsed_text(input@, at as int)),
{
    let mut cursor = Cursor::new(input);
    cursor.set_position(at as u64);
    match String::parse::<false>(&mut cursor) {
        Ok(text) => Ok((text, cursor.position() as usize)),
        Err(chia_traits::Error::InvalidString) => Err(StreamError::InvalidString),
        Err(_) => Err(StreamError::EndOfBuffer),
    }
}

// ---------------------------------------------------------------------------
// Laws
// ---------------------------------------------------------------------------

/// Whether the bytes of `part` stand in `input` from `at` on.
pub open spec fn stands_at(input: Seq<u8>, at: int, part: Seq<u8>) -> bool {
    &&& 0 <= at
    &&& at + part.len() <= input.len()
    &&& forall|i: int| 0 <= i < part.len() ==> #[trigger] input[at + i] == part[i]
}

/// What is encoded as a two-byte integer is decoded as it was, wherever it stands.
pub proof fn u16_round_trips(value: u16, input: Seq<u8>, at: int)
    requires
        stands_at(input, at, be_u16(value)),
    ensures
        parsed_u16(input, at) == Ok::<(u16, int), StreamError>((value, at + 2)),
{
    assert(input[at + 0] == be_u16(value)[0]);
    assert(input[at + 1] == be_u16(value)[1]);
}

/// What is encoded as a four-byte integer is decoded as it was, wherever it stands.
pub proof fn u32_round_trips(value: u32, input: Seq<u8>, at: int)
    requires
        stands_at(input, at, be_u32(value)),
    ensures
        parsed_u32(input, at) == Ok::<(u32, int), StreamError>((value, at + 4)),
{
    assert(input[at + 0] == be_u32(value)[0]);
    assert(input[at + 1] == be_u32(value)[1]);
    assert(input[at + 2] == be_u32(value)[2]);
    assert(input[at + 3] == be_u32(value)[3]);
}

/// Four bytes are the encoding of the number that they spell.
pub proof fn u32_is_spelled_by_its_bytes(input: Seq<u8>, at: int)
    requires
        0 <= at,
        at + 4 <= input.len(),
    ensures
        be_u32(u32_at(input, at)) == input.subrange(at, at + 4),
{
    let (a, b, c, d) = (input[at] as int, input[at + 1] as int, input[at + 2] as int, input[at + 3] as int);
    let value = a * 0x100_0000 + b * 0x1_0000 + c * 0x100 + d;
    assert(value / 0x100_0000 == a);
    assert(value / 0x1_0000 == a * 0x100 + b);
    assert((a * 0x100 + b) % 0x100 == b);
    assert(value / 0x100 == (a * 0x100 + b) * 0x100 + c);
    assert(((a * 0x100 + b) * 0x100 + c) % 0x100 == c);
    assert(value % 0x100 == d);
    assert(u32_at(input, at) == value);
    assert(be_u32(u32_at(input, at)) =~= input.subrange(at, at + 4));
}

/// What is encoded as an eight-byte integer is decoded as it was, wherever it stands.
pub proof fn u64_round_trips(value: u64, input: Seq<u8>, at: int)
    requires
        stands_at(input, at, be_u64(value)),
    ensures
        parsed_u64(input, at) == Ok::<(u64, int), StreamError>((value, at + 8)),
{
    let high = (value / 0x1_0000_0000) as u32;
    let low = (value % 0x1_0000_0000) as u32;
    assert forall|i: int| 0 <= i < 4 implies #[trigger] input[at + i] == be_u32(high)[i] by {
        assert(be_u64(value)[i] == be_u32(high)[i]);
    }
    assert forall|i: int| 0 <= i < 4 implies #[trigger] input[at + 4 + i] == be_u32(low)[i] by {
        assert(be_u64(value)[4 + i] == be_u32(low)[i]);
        assert(input[at + (4 + i)] == be_u64(value)[4 + i]);
    }
    u32_round_trips(high, input, at);
    u32_round_trips(low, input, at + 4);
}

/// What is encoded as a boolean is decoded as it was, wherever it stands.
pub proof fn bool_round_trips(value: bool, input: Seq<u8>, at: int)
    requires
        stands_at(input, at, encoded_bool(value)),
    ensures
        parsed_bool(input, at) == Ok::<(bool, int), StreamError>((value, at + 1)),
{
    assert(input[at + 0] == encoded_bool(value)[0]);
}

/// Text that fits its length prefix is decoded as it was, wherever it stands.
pub proof fn text_round_trips(text: Seq<char>, input: Seq<u8>, at: int)
    requires
        text_fits(text),
        stands_at(input, at, encoded_text(text)),
    ensures
        parsed_text(input, at) == Ok::<(Seq<char>, int), StreamError>((text, at + encoded_text(text).len())),
{
    let body = vstd::utf8::encode_utf8(text);
    let len = body.len() as u32;
    assert forall|i: int| 0 <= i < 4 implies #[trigger] input[at + i] == be_u32(len)[i] by {
        assert(encoded_text(text)[i] == be_u32(len)[i]);
    }
    u32_round_trips(len, input, at);
    assert(input.subrange(at + 4, at + 4 + len) =~= body) by {
        assert forall|i: int| 0 <= i < body.len() implies #[trigger] input.subrange(at + 4, at + 4 + len)[i] == body[i] by {
            assert(encoded_text(text)[4 + i] == body[i]);
            assert(input[at + (4 + i)] == encoded_text(text)[4 + i]);
        }
    }
    vstd::utf8::encode_utf8_valid_utf8(text);
    vstd::utf8::encode_utf8_decode_utf8(text);
}

/// A buffer stands at its own beginning.
pub proof fn whole_stands(input: Seq<u8>)
    ensures
        stands_at(input, 0, input),
{
}

/// The bytes of a concatenation stand where its parts do.
pub proof fn concatenation_stands(input: Seq<u8>, at: int, first: Seq<u8>, second: Seq<u8>)
    requires
        stands_at(input, at, first + second),
    ensures
        stands_at(input, at, first),
        stands_at(input, at + first.len(), second),
{
    let whole = first + second;
    assert forall|i: int| 0 <= i < first.len() implies #[trigger] input[at + i] == first[i] by {
        assert(whole[i] == first[i]);
    }
    assert forall|i: int| 0 <= i < second.len() implies #[trigger] input[at + first.len() + i] == second[i] by {
        assert(whole[first.len() + i] == second[i]);
        assert(input[at + (first.len() + i)] == whole[first.len() + i]);
    }
}

/// An integer is spelled most significant byte first, in as many bytes as its type has.
pub proof fn integers_are_spelled_most_significant_first(a: u16, b: u32, c: u64)
    ensures
        be_u16(a).len() == 2,
        be_u16(a)[0] * 0x100 + be_u16(a)[1] == a,
        be_u32(b).len() == 4,
        be_u32(b)[0] * 0x100_0000 + be_u32(b)[1] * 0x1_0000 + be_u32(b)[2] * 0x100 + be_u32(b)[3] == b,
        be_u64(c).len() == 8,
        be_u64(c)[0] * 0x100_0000_0000_0000 + be_u64(c)[1] * 0x1_0000_0000_0000 + be_u64(c)[2] * 0x100_0000_0000
            + be_u64(c)[3] * 0x1_0000_0000 + be_u64(c)[4] * 0x100_0000 + be_u64(c)[5] * 0x1_0000 + be_u64(c)[6]
            * 0x100 + be_u64(c)[7] == c,
{
    u32_bytes_add_up(b);
    let (high, low) = ((c / 0x1_0000_0000) as u32, (c % 0x1_0000_0000) as u32);
    u32_bytes_add_up(high);
    u32_bytes_add_up(low);
    assert(be_u64(c)[0] == be_u32(high)[0] && be_u64(c)[1] == be_u32(high)[1] && be_u64(c)[2] == be_u32(high)[2]
        && be_u64(c)[3] == be_u32(high)[3]);
    assert(be_u64(c)[4] == be_u32(low)[0] && be_u64(c)[5] == be_u32(low)[1] && be_u64(c)[6] == be_u32(low)[2]
        && be_u64(c)[7] == be_u32(low)[3]);
    assert(high * 0x1_0000_0000 + low == c);
}

proof fn u32_bytes_add_up(value: u32)
    ensures
        be_u32(value)[0] * 0x100_0000 + be_u32(value)[1] * 0x1_0000 + be_u32(value)[2] * 0x100 + be_u32(value)[3]
            == value,
{
    assert(value / 0x1_0000 == value / 0x100_0000 * 0x100 + value / 0x1_0000 % 0x100);
    assert(value / 0x100 == value / 0x1_0000 * 0x100 + value / 0x100 % 0x100);
}

/// An integer is read most significant byte first, and ends right behind its bytes. It is refused
/// exactly where fewer bytes are left.
pub proof fn integers_are_read_most_significant_first(input: Seq<u8>, at: int)
    requires
        0 <= at,
    ensures
        match parsed_u8(input, at) {
            Ok((value, next)) => at + 1 <= input.len() && next == at + 1 && value == input[at],
            Err(error) => input.len() < at + 1 && error == StreamError::EndOfBuffer,
        },
        match parsed_u16(input, at) {
            Ok((value, next)) => at + 2 <= input.len() && next == at + 2 && value == input[at] * 0x100 + input[at
                + 1],
            Err(error) => input.len() < at + 2 && error == StreamError::EndOfBuffer,
        },
        match parsed_u32(input, at) {
            Ok((value, next)) => at + 4 <= input.len() && next == at + 4 && value == input[at] * 0x100_0000 + input[at
                + 1] * 0x1_0000 + input[at + 2] * 0x100 + input[at + 3],
            Err(error) => input.len() < at + 4 && error == StreamError::EndOfBuffer,
        },
        match parsed_u64(input, at) {
            Ok((value, next)) => at + 8 <= input.len() && next == at + 8 && value == input[at]
                * 0x100_0000_0000_0000 + input[at + 1] * 0x1_0000_0000_0000 + input[at + 2] * 0x100_0000_0000
                + input[at + 3] * 0x1_0000_0000 + input[at + 4] * 0x100_0000 + input[at + 5] * 0x1_0000 + input[at
                + 6] * 0x100 + input[at + 7],
            Err(error) => input.len() < at + 8 && error == StreamError::EndOfBuffer,
        },
{
}

/// A boolean is one byte, 1 for `true` and 0 for `false`, and no other byte is one.
pub proof fn booleans_are_the_bytes_zero_and_one(value: bool, input: Seq<u8>, at: int)
    requires
        0 <= at,
    ensures
        encoded_bool(true) == seq![1u8],
        encoded_bool(false) == seq![0u8],
        match parsed_bool(input, at) {
            Ok((value, next)) => at < input.len() && next == at + 1 && input[at] == (if value {
                1
            } else {
                0int
            }),
            Err(StreamError::EndOfBuffer) => at >= input.len(),
            Err(error) => at < input.len() && input[at] > 1 && error == StreamError::InvalidBool,
        },
{
}

/// Text is four bytes that spell the length of its UTF-8 form, then that form.
pub proof fn text_is_prefixed_by_its_length(text: Seq<char>)
    ensures
        text_fits(text) <==> vstd::utf8::encode_utf8(text).len() < 0x1_0000_0000,
        encoded_text(text).len() == 4 + vstd::utf8::encode_utf8(text).len(),
        text_fits(text) ==> encoded_text(text)[0] * 0x100_0000 + encoded_text(text)[1] * 0x1_0000 + encoded_text(
            text,
        )[2] * 0x100 + encoded_text(text)[3] == vstd::utf8::encode_utf8(text).len(),
        encoded_text(text).subrange(4, encoded_text(text).len() as int) == vstd::utf8::encode_utf8(text),
{
    let body = vstd::utf8::encode_utf8(text);
    u32_bytes_add_up(body.len() as u32);
    let prefix = be_u32(body.len() as u32);
    assert forall|i: int| 0 <= i < 4 implies #[trigger] encoded_text(text)[i] == prefix[i] by {}
    assert(encoded_text(text).subrange(4, encoded_text(text).len() as int) =~= body);
}

/// Text is read by the length that its first four bytes spell: what is read is the text whose
/// UTF-8 form stands behind them, and it ends with that form.
pub proof fn text_is_read_by_its_length(input: Seq<u8>, at: int)
    requires
        0 <= at,
    ensures
        at + 4 > input.len() ==> parsed_text(input, at) == Err::<(Seq<char>, int), StreamError>(
            StreamError::EndOfBuffer,
        ),
        at + 4 <= input.len() ==> {
            let len = input[at] * 0x100_0000 + input[at + 1] * 0x1_0000 + input[at + 2] * 0x100 + input[at + 3];
            match parsed_text(input, at) {
                Ok((text, end)) => {
                    &&& end == at + 4 + len
                    &&& end <= input.len()
                    &&& vstd::utf8::encode_utf8(text) == input.subrange(at + 4, end)
                },
                Err(StreamError::EndOfBuffer) => input.len() < at + 4 + len,
                Err(error) => error == StreamError::InvalidString && at + 4 + len <= input.len()
                    && !vstd::utf8::valid_utf8(input.subrange(at + 4, at + 4 + len)),
            }
        },
{
    if at + 4 <= input.len() {
        let len = u32_at(input, at);
        if at + 4 + len <= input.len() && vstd::utf8::valid_utf8(input.subrange(at + 4, at + 4 + len)) {
            vstd::utf8::decode_utf8_encode_utf8(input.subrange(at + 4, at + 4 + len));
        }
    }
}

/// A decoder agrees with what it is to give in the value, in the position behind it and in the
/// error.
pub proof fn agreement_leaves_nothing_open<T>(value: T, next: usize, error: StreamError, p: Parsed<T>)
    ensures
        agrees(Ok((value, next)), p) <==> p == Ok::<(T, int), StreamError>((value, next as int)),
        agrees(Err(error), p) <==> p == Err::<(T, int), StreamError>(error),
        refused_as_too_large() == Err::<(), StreamError>(StreamError::InputTooLarge),
{
}

} // verus!
