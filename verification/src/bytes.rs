//! [`Bytes`], the payload container of a [`DigMessage`](crate::DigMessage).
//!
//! On the wire a payload is a four-byte big-endian length followed by the raw bytes. The length
//! prefix of an inbound payload is chosen by the peer, so decoding never trusts it beyond the
//! buffer that it came in.

use crate::digest;
use crate::streamable;
use crate::streamable::StreamError;
use crate::text;
use chia_sha2::Sha256;
use vstd::prelude::*;
use vstd::std_specs::cmp::PartialEqSpec;

verus! {

/// A length-prefixed byte payload.
#[derive(PartialOrd, Ord, Hash)]
pub struct Bytes(Vec<u8>);

impl View for Bytes {
    type V = Seq<u8>;

    closed spec fn view(&self) -> Seq<u8> {
        self.0@
    }
}

/// Whether a payload is short enough for its length prefix.
pub open spec fn payload_fits(payload: Seq<u8>) -> bool {
    payload.len() <= streamable::MAX_PREFIXED_LEN
}

/// The bytes of a payload: its length, then the payload itself.
pub open spec fn encoded_payload(payload: Seq<u8>) -> Seq<u8> {
    streamable::be_u32(payload.len() as u32) + payload
}

/// Decoding a payload of `input` at `at`.
pub open spec fn parsed_payload(input: Seq<u8>, at: int) -> streamable::Parsed<Seq<u8>> {
    match streamable::parsed_u32(input, at) {
        Err(error) => Err(error),
        Ok((len, start)) => if start + len > input.len() {
            Err(StreamError::EndOfBuffer)
        } else {
            Ok((input.subrange(start, start + len), start + len))
        },
    }
}

/// Decoding a buffer that holds one payload and nothing behind it.
pub open spec fn decoded_payload(input: Seq<u8>) -> Result<Seq<u8>, StreamError> {
    match parsed_payload(input, 0) {
        Err(error) => Err(error),
        Ok((payload, next)) => if next == input.len() {
            Ok(payload)
        } else {
            Err(StreamError::InputTooLarge)
        },
    }
}

/// A copy of the bytes of `input` from `start` up to `end`.
pub(crate) fn copy_range(input: &[u8], start: usize, end: usize) -> (r: Vec<u8>)
    requires
        start <= end <= input@.len(),
    ensures
        r@ == input@.subrange(start as int, end as int),
{
    let mut copy: Vec<u8> = Vec::new();
    let mut i: usize = start;
    while i < end
        invariant
            start <= i <= end <= input@.len(),
            copy@ == input@.subrange(start as int, i as int),
        decreases end - i,
    {
        copy.push(input[i]);
        i = i + 1;
        assert(copy@ =~= input@.subrange(start as int, i as int));
    }
    copy
}

impl Bytes {
    /// Wraps an owned byte vector, without copying.
    #[must_use]
    pub fn new(bytes: Vec<u8>) -> (r: Self)
        ensures
            r@ == bytes@,
    {
        Bytes(bytes)
    }

    /// Number of payload bytes.
    #[must_use]
    pub fn len(&self) -> (r: usize)
        ensures
            r == self@.len(),
    {
        self.0.len()
    }

    /// Whether the payload is empty. A zero-length payload is a valid message.
    #[must_use]
    pub fn is_empty(&self) -> (r: bool)
        ensures
            r == (self@.len() == 0),
    {
        self.0.len() == 0
    }

    /// Consumes into the underlying vector, without copying.
    #[must_use]
    pub fn into_inner(self) -> (r: Vec<u8>)
        ensures
            r@ == self@,
    {
        self.0
    }

    /// The payload as a slice.
    #[must_use]
    pub fn as_ref(&self) -> (r: &[u8])
        ensures
            r@ == self@,
    {
        self.0.as_slice()
    }

    /// Absorbs the encoded payload into a running digest. The length is absorbed as a four-byte
    /// integer, of which a longer length keeps the low bytes.
    pub fn update_digest(&self, digest: &mut Sha256)
        ensures
            digest::absorbed(*final(digest)) == digest::absorbed(*old(digest)) + streamable::be_u32(
                self@.len() as u32,
            ) + self@,
    {
        digest::absorb_u32(digest, self.0.len() as u32);
        digest::absorb(digest, self.0.as_slice());
    }

    /// The SHA-256 digest of the encoded payload.
    #[must_use]
    pub fn hash(&self) -> (r: [u8; 32])
        ensures
            r@ == digest::sha256(encoded_payload(self@)),
    {
        let mut running = digest::new_digest();
        self.update_digest(&mut running);
        assert(digest::absorbed(running) =~= encoded_payload(self@));
        digest::finish(running)
    }

    /// Appends the encoded payload to `out`. A payload that its length prefix cannot describe is
    /// refused, never truncated, and then nothing is appended.
    pub fn stream(&self, out: &mut Vec<u8>) -> (r: Result<(), StreamError>)
        ensures
            payload_fits(self@) ==> r is Ok && final(out)@ == old(out)@ + encoded_payload(self@),
            !payload_fits(self@) ==> r == Err::<(), StreamError>(StreamError::SequenceTooLarge)
                && final(out)@ == old(out)@,
    {
        if self.0.len() > streamable::MAX_PREFIXED_LEN {
            return Err(StreamError::SequenceTooLarge);
        }
        streamable::stream_u32(self.0.len() as u32, out)?;
        out.extend_from_slice(self.0.as_slice());
        assert(out@ =~= old(out)@ + encoded_payload(self@));
        Ok(())
    }

    /// Decodes a payload of `input` at `at`, and says where it ends.
    pub fn parse(input: &[u8], at: usize) -> (r: Result<(Self, usize), StreamError>)
        requires
            at <= input@.len(),
        ensures
            match r {
                Ok((payload, next)) => parsed_payload(input@, at as int) == Ok::<(Seq<u8>, int), StreamError>(
                    (payload@, next as int),
                ),
                Err(error) => parsed_payload(input@, at as int) == Err::<(Seq<u8>, int), StreamError>(error),
            },
    {
        let available: usize = input.len();
        let (len, start) = streamable::parse_u32(input, at)?;
        let len: usize = len as usize;
        let end: usize = match start.checked_add(len) {
            Some(end) => end,
            None => {
                return Err(StreamError::EndOfBuffer);
            },
        };
        if available < end {
            return Err(StreamError::EndOfBuffer);
        }
        Ok((Bytes(copy_range(input, start, end)), end))
    }

    /// The encoded payload.
    pub fn to_bytes(&self) -> (r: Result<Vec<u8>, StreamError>)
        ensures
            match r {
                Ok(encoded) => payload_fits(self@) && encoded@ == encoded_payload(self@),
                Err(error) => !payload_fits(self@) && error == StreamError::SequenceTooLarge,
            },
    {
        let mut out: Vec<u8> = Vec::new();
        self.stream(&mut out)?;
        assert(out@ =~= encoded_payload(self@));
        Ok(out)
    }

    /// Decodes a buffer that holds one payload and nothing behind it.
    pub fn from_bytes(input: &[u8]) -> (r: Result<Self, StreamError>)
        ensures
            match r {
                Ok(payload) => decoded_payload(input@) == Ok::<Seq<u8>, StreamError>(payload@),
                Err(error) => decoded_payload(input@) == Err::<Seq<u8>, StreamError>(error),
            },
    {
        let (payload, next) = Bytes::parse(input, 0)?;
        if next == input.len() {
            Ok(payload)
        } else {
            Err(StreamError::InputTooLarge)
        }
    }
}

impl Bytes {
    /// Writes the payload in hexadecimal, byte by byte: an empty one needs no write.
    fn write_hex(&self, f: &mut std::fmt::Formatter<'_>) -> (r: Result<(), std::fmt::Error>)
        ensures
            r is Ok ==> text::written(*final(f)) == text::written(*old(f)) + text::hex(self@),
            self@.len() == 0 ==> r is Ok && *final(f) == *old(f),
    {
        let mut i: usize = 0;
        assert(text::hex(self@.take(0)) =~= Seq::<char>::empty());
        assert(text::written(*f) =~= text::written(*old(f)) + text::hex(self@.take(0)));
        while i < self.0.len()
            invariant
                i <= self@.len(),
                text::written(*f) == text::written(*old(f)) + text::hex(self@.take(i as int)),
                i == 0 ==> *f == *old(f),
            decreases self@.len() - i,
        {
            let digits = text::render_byte(self.0[i]);
            text::write_text(f, digits.as_str())?;
            i = i + 1;
            proof {
                let done = self@.take(i as int);
                assert(done.drop_last() =~= self@.take(i - 1));
                assert(text::written(*f) =~= text::written(*old(f)) + text::hex(done));
            }
        }
        assert(self@.take(i as int) =~= self@);
        Ok(())
    }
}

/// Lower-case hexadecimal, as a payload reads in a wire dump.
impl std::fmt::Display for Bytes {
    fn fmt(&self, f: &mut std::fmt::Formatter<'_>) -> (r: Result<(), std::fmt::Error>)
        ensures
            r is Ok ==> text::written(*final(f)) == text::written(*old(f)) + text::hex(self@),
            self@.len() == 0 ==> r is Ok && *final(f) == *old(f),
    {
        self.write_hex(f)
    }
}

/// The hexadecimal payload between `Bytes(` and `)`.
impl std::fmt::Debug for Bytes {
    fn fmt(&self, f: &mut std::fmt::Formatter<'_>) -> (r: Result<(), std::fmt::Error>)
        ensures
            r is Ok ==> text::written(*final(f)) == text::written(*old(f)) + ("Bytes("@ + text::hex(self@)
                + ")"@),
    {
        text::write_text(f, "Bytes(")?;
        self.write_hex(f)?;
        text::write_text(f, ")")?;
        assert(text::written(*f) =~= text::written(*old(f)) + ("Bytes("@ + text::hex(self@) + ")"@));
        Ok(())
    }
}

impl Default for Bytes {
    fn default() -> (r: Self)
        ensures
            r@ == Seq::<u8>::empty(),
    {
        Bytes(Vec::new())
    }
}

impl Clone for Bytes {
    fn clone(&self) -> (r: Self)
        ensures
            r@ == self@,
    {
        Bytes(copy_range(self.0.as_slice(), 0, self.0.len()))
    }
}

impl From<Vec<u8>> for Bytes {
    fn from(value: Vec<u8>) -> (r: Self)
        ensures
            r@ == value@,
    {
        Bytes(value)
    }
}

impl vstd::std_specs::convert::FromSpecImpl<Vec<u8>> for Bytes {
    open spec fn obeys_from_spec() -> bool {
        true
    }

    closed spec fn from_spec(value: Vec<u8>) -> Self {
        Bytes(value)
    }
}

impl From<&[u8]> for Bytes {
    fn from(value: &[u8]) -> (r: Self)
        ensures
            r@ == value@,
    {
        Bytes(copy_range(value, 0, value.len()))
    }
}

impl vstd::std_specs::convert::FromSpecImpl<&[u8]> for Bytes {
    open spec fn obeys_from_spec() -> bool {
        false
    }

    open spec fn from_spec(value: &[u8]) -> Self {
        arbitrary()
    }
}

impl From<Bytes> for Vec<u8> {
    fn from(value: Bytes) -> (r: Self)
        ensures
            r@ == value@,
    {
        value.0
    }
}

impl vstd::std_specs::convert::FromSpecImpl<Bytes> for Vec<u8> {
    open spec fn obeys_from_spec() -> bool {
        true
    }

    closed spec fn from_spec(value: Bytes) -> Self {
        value.0
    }
}

impl std::ops::Deref for Bytes {
    type Target = [u8];

    fn deref(&self) -> (r: &[u8])
        ensures
            r@ == self@,
    {
        self.0.as_slice()
    }
}

impl AsRef<[u8]> for Bytes {
    fn as_ref(&self) -> (r: &[u8])
        ensures
            r@ == self@,
    {
        self.0.as_slice()
    }
}

impl PartialEq for Bytes {
    fn eq(&self, other: &Self) -> (r: bool) {
        if self.0.len() != other.0.len() {
            return false;
        }
        let mut i: usize = 0;
        while i < self.0.len()
            invariant
                i <= self.0@.len(),
                self.0@.len() == other.0@.len(),
                forall|j: int| 0 <= j < i ==> self.0@[j] == other.0@[j],
            decreases self.0@.len() - i,
        {
            if self.0[i] != other.0[i] {
                return false;
            }
            i = i + 1;
        }
        assert(self.0@ =~= other.0@);
        true
    }
}

impl vstd::std_specs::cmp::PartialEqSpecImpl for Bytes {
    open spec fn obeys_eq_spec() -> bool {
        true
    }

    open spec fn eq_spec(&self, other: &Self) -> bool {
        self@ == other@
    }
}

impl Eq for Bytes {}

/// A payload that its length prefix can describe is decoded as it was.
pub proof fn payload_round_trips(payload: Seq<u8>)
    requires
        payload_fits(payload),
    ensures
        decoded_payload(encoded_payload(payload)) == Ok::<Seq<u8>, StreamError>(payload),
{
    let input = encoded_payload(payload);
    let len = payload.len() as u32;
    assert forall|i: int| 0 <= i < 4 implies #[trigger] input[0 + i] == streamable::be_u32(len)[i] by {}
    streamable::u32_round_trips(len, input, 0);
    assert(input.subrange(4, 4 + len) =~= payload);
}

/// A buffer decodes to a payload only if it is the encoding of that payload.
pub proof fn decoding_is_the_inverse_of_encoding(input: Seq<u8>)
    requires
        decoded_payload(input) is Ok,
    ensures
        input == encoded_payload(decoded_payload(input)->Ok_0),
{
    let payload = decoded_payload(input)->Ok_0;
    let len = streamable::u32_at(input, 0);
    streamable::u32_is_spelled_by_its_bytes(input, 0);
    assert(payload.len() == len);
    assert(input =~= input.subrange(0, 4) + payload);
}

/// A payload is encoded as four bytes that spell its length, most significant first, and then the
/// payload, byte for byte. A length that four bytes cannot spell keeps its low bytes.
pub proof fn a_payload_follows_its_length(payload: Seq<u8>)
    ensures
        payload_fits(payload) <==> payload.len() < 0x1_0000_0000,
        encoded_payload(payload).len() == 4 + payload.len(),
        payload.len() < 0x1_0000_0000 ==> encoded_payload(payload)[0] * 0x100_0000 + encoded_payload(payload)[1]
            * 0x1_0000 + encoded_payload(payload)[2] * 0x100 + encoded_payload(payload)[3] == payload.len(),
        forall|i: int| 0 <= i < payload.len() ==> #[trigger] encoded_payload(payload)[4 + i] == payload[i],
{
    let prefix = streamable::be_u32(payload.len() as u32);
    streamable::integers_are_spelled_most_significant_first(0, payload.len() as u32, 0);
    assert forall|i: int| 0 <= i < 4 implies #[trigger] encoded_payload(payload)[i] == prefix[i] by {}
}

/// A payload is read by the length that its first four bytes spell, and never beyond the buffer.
pub proof fn a_payload_is_read_by_its_length(input: Seq<u8>, at: int)
    requires
        0 <= at,
    ensures
        at + 4 > input.len() ==> parsed_payload(input, at) == Err::<(Seq<u8>, int), StreamError>(
            StreamError::EndOfBuffer,
        ),
        at + 4 <= input.len() ==> {
            let len = input[at] * 0x100_0000 + input[at + 1] * 0x1_0000 + input[at + 2] * 0x100 + input[at + 3];
            match parsed_payload(input, at) {
                Ok((payload, end)) => {
                    &&& end == at + 4 + len
                    &&& end <= input.len()
                    &&& payload.len() == len
                    &&& forall|i: int| 0 <= i < len ==> #[trigger] payload[i] == input[at + 4 + i]
                },
                Err(error) => error == StreamError::EndOfBuffer && input.len() < at + 4 + len,
            }
        },
        match decoded_payload(input) {
            Ok(payload) => parsed_payload(input, 0) == Ok::<(Seq<u8>, int), StreamError>(
                (payload, input.len() as int),
            ),
            Err(StreamError::InputTooLarge) => parsed_payload(input, 0) is Ok && parsed_payload(input, 0)->Ok_0.1
                < input.len(),
            Err(error) => parsed_payload(input, 0) == Err::<(Seq<u8>, int), StreamError>(error),
        },
{
}

/// Two payloads are equal where they hold the same bytes in the same order.
pub proof fn payloads_are_equal_by_their_bytes(one: Bytes, two: Bytes)
    ensures
        one.eq_spec(&two) <==> one@.len() == two@.len() && forall|i: int| 0 <= i < one@.len() ==> one@[i] == two@[i],
{
    if one@.len() == two@.len() && forall|i: int| 0 <= i < one@.len() ==> one@[i] == two@[i] {
        assert(one@ =~= two@);
    }
}

} // verus!
