//! Errors of a peer link.

use crate::text;
use tokio::sync::oneshot::error::RecvError;
use vstd::prelude::*;
use vstd::string::StringExecFns;

verus! {

/// The error of `chia_traits`.
#[verifier::external_type_specification]
#[verifier::external_body]
pub struct ExStreamableError(chia_traits::Error);

/// The error of `tungstenite`.
#[verifier::external_type_specification]
#[verifier::external_body]
pub struct ExWebSocketError(tungstenite::Error);

/// The error of std's input and output.
#[verifier::external_type_specification]
#[verifier::external_body]
pub struct ExIoError(std::io::Error);

/// The error of a `tokio` channel for one value whose sender is gone.
#[verifier::external_type_specification]
#[verifier::external_body]
pub struct ExRecvError(RecvError);

/// Everything that can go wrong on a peer link.
///
/// Opcodes appear as raw bytes on purpose: Chia's message types cannot name a DIG opcode.
///
/// [`LinkError::source`] gives the error that one stems from by its type. The `source` of
/// `std::error::Error` hands out a trait object, so that trait is for a type around this one.
#[derive(Debug)]
pub enum LinkError {
    /// A body failed to encode or decode.
    Streamable(chia_traits::Error),
    /// The websocket itself failed. Boxed, because this error is by far the largest.
    WebSocket(Box<tungstenite::Error>),
    /// The underlying socket failed, typically while reading the peer address.
    Io(std::io::Error),
    /// The peer replied with an opcode that none of the expected ones matched.
    InvalidResponse(Vec<u8>, u8),
    /// The link closed before the awaited reply arrived.
    Recv(RecvError),
    /// The websocket is carried over a TLS backend that this build does not support.
    UnsupportedTls,
    /// The message exceeds a rate-limit bound that no window ever admits. Retrying is futile; the
    /// body must be split.
    Unsendable(u8, usize),
    /// Rate-limit budget did not free up within the send timeout.
    SendTimeout(u8),
    /// No correlated reply arrived within the request timeout.
    RequestTimeout(u8),
    /// A Chia message type did not encode to an opcode.
    MalformedOpcode,
}

impl From<chia_traits::Error> for LinkError {
    fn from(error: chia_traits::Error) -> (r: Self)
        ensures
            r == LinkError::Streamable(error),
    {
        LinkError::Streamable(error)
    }
}

impl vstd::std_specs::convert::FromSpecImpl<chia_traits::Error> for LinkError {
    open spec fn obeys_from_spec() -> bool {
        true
    }

    open spec fn from_spec(error: chia_traits::Error) -> Self {
        LinkError::Streamable(error)
    }
}

impl From<tungstenite::Error> for LinkError {
    fn from(error: tungstenite::Error) -> (r: Self)
        ensures
            r == LinkError::WebSocket(Box::new(error)),
    {
        LinkError::WebSocket(Box::new(error))
    }
}

impl vstd::std_specs::convert::FromSpecImpl<tungstenite::Error> for LinkError {
    open spec fn obeys_from_spec() -> bool {
        true
    }

    open spec fn from_spec(error: tungstenite::Error) -> Self {
        LinkError::WebSocket(Box::new(error))
    }
}

impl From<std::io::Error> for LinkError {
    fn from(error: std::io::Error) -> (r: Self)
        ensures
            r == LinkError::Io(error),
    {
        LinkError::Io(error)
    }
}

impl vstd::std_specs::convert::FromSpecImpl<std::io::Error> for LinkError {
    open spec fn obeys_from_spec() -> bool {
        true
    }

    open spec fn from_spec(error: std::io::Error) -> Self {
        LinkError::Io(error)
    }
}

impl From<RecvError> for LinkError {
    fn from(error: RecvError) -> (r: Self)
        ensures
            r == LinkError::Recv(error),
    {
        LinkError::Recv(error)
    }
}

impl vstd::std_specs::convert::FromSpecImpl<RecvError> for LinkError {
    open spec fn obeys_from_spec() -> bool {
        true
    }

    open spec fn from_spec(error: RecvError) -> Self {
        LinkError::Recv(error)
    }
}

/// The text of an error of `chia_traits`.
pub uninterp spec fn streamable_error_text(error: chia_traits::Error) -> Seq<char>;

/// `Display` of the error of `chia_traits`: the text of the error, which depends on nothing else.
#[verifier::external_body]
fn streamable_detail(error: &chia_traits::Error) -> (r: String)
    ensures
        r@ == streamable_error_text(*error),
{
    error.to_string()
}

/// `Display` of the error of `tungstenite`. Nothing is promised of the text, part of which comes
/// from the operating system.
#[verifier::external_body]
fn websocket_detail(error: &tungstenite::Error) -> (r: String) {
    error.to_string()
}

/// `Display` of the error of std's input and output. Nothing is promised of the text, which comes
/// from the operating system.
#[verifier::external_body]
fn io_detail(error: &std::io::Error) -> (r: String) {
    error.to_string()
}

/// The decimal numbers of `bytes` in brackets, separated by a comma and a space.
pub open spec fn byte_list(bytes: Seq<u8>) -> Seq<char> {
    "["@ + listed(bytes) + "]"@
}

/// The decimal numbers of `bytes`, separated by a comma and a space.
pub open spec fn listed(bytes: Seq<u8>) -> Seq<char>
    decreases bytes.len(),
{
    if bytes.len() == 0 {
        Seq::empty()
    } else if bytes.len() == 1 {
        text::decimal(bytes[0] as nat)
    } else {
        listed(bytes.drop_last()) + ", "@ + text::decimal(bytes.last() as nat)
    }
}

fn render_byte_list(bytes: &Vec<u8>) -> (r: String)
    ensures
        r@ == byte_list(bytes@),
{
    let mut r = String::new();
    r.append("[");
    let mut i: usize = 0;
    while i < bytes.len()
        invariant
            i <= bytes@.len(),
            r@ == "["@ + listed(bytes@.take(i as int)),
        decreases bytes@.len() - i,
    {
        if i > 0 {
            r.append(", ");
        }
        let number = text::render_decimal(bytes[i] as u64);
        r.append(number.as_str());
        i = i + 1;
        proof {
            let done = bytes@.take(i as int);
            assert(done.drop_last() =~= bytes@.take(i - 1));
            assert(done.last() == bytes@[i - 1]);
            assert(r@ =~= "["@ + listed(done));
        }
    }
    r.append("]");
    assert(bytes@.take(i as int) =~= bytes@);
    r
}

/// The text of an error, where `detail` is that of the websocket or of the input and output, if
/// the error comes from there.
pub open spec fn message(error: LinkError, detail: Seq<char>) -> Seq<char> {
    match error {
        LinkError::Streamable(error) => "streamable error: "@ + streamable_error_text(error),
        LinkError::WebSocket(_) => "websocket error: "@ + detail,
        LinkError::Io(_) => "io error: "@ + detail,
        LinkError::InvalidResponse(expected, found) => "expected a response with opcode in "@ + byte_list(
            expected@,
        ) + ", found "@ + text::decimal(found as nat),
        LinkError::Recv(_) => "the link closed before a response arrived"@,
        LinkError::UnsupportedTls => "the websocket's TLS backend is not supported by this build"@,
        LinkError::Unsendable(opcode, len) => "a message with opcode "@ + text::decimal(opcode as nat) + " and a "@
            + text::decimal(len as nat) + "-byte body exceeds the per-message limit"@,
        LinkError::SendTimeout(opcode) => "timed out waiting for rate-limit budget to send opcode "@
            + text::decimal(opcode as nat),
        LinkError::RequestTimeout(opcode) => "timed out waiting for a response to opcode "@ + text::decimal(
            opcode as nat,
        ),
        LinkError::MalformedOpcode => "message type did not encode to a single-byte opcode"@,
    }
}

/// Renders `before`, then `opcode` in decimal.
fn with_opcode(before: &str, opcode: u8) -> (r: String)
    ensures
        r@ == before@ + text::decimal(opcode as nat),
{
    let mut r = String::new();
    r.append(before);
    let number = text::render_decimal(opcode as u64);
    r.append(number.as_str());
    assert(r@ =~= before@ + text::decimal(opcode as nat));
    r
}

/// Renders `before`, then `after`.
fn joined(before: &str, after: &str) -> (r: String)
    ensures
        r@ == before@ + after@,
{
    let mut r = String::new();
    r.append(before);
    r.append(after);
    assert(r@ =~= before@ + after@);
    r
}

impl LinkError {
    /// The text of the error.
    fn render(&self) -> (r: String)
        ensures
            exists|detail: Seq<char>| r@ == #[trigger] message(*self, detail),
    {
        match self {
            LinkError::Streamable(error) => {
                let detail = streamable_detail(error);
                let r = joined("streamable error: ", detail.as_str());
                assert(r@ == message(*self, detail@));
                r
            },
            LinkError::WebSocket(error) => {
                let detail = websocket_detail(error);
                let r = joined("websocket error: ", detail.as_str());
                assert(r@ == message(*self, detail@));
                r
            },
            LinkError::Io(error) => {
                let detail = io_detail(error);
                let r = joined("io error: ", detail.as_str());
                assert(r@ == message(*self, detail@));
                r
            },
            LinkError::InvalidResponse(expected, found) => {
                let list = render_byte_list(expected);
                let before = joined("expected a response with opcode in ", list.as_str());
                let between = joined(before.as_str(), ", found ");
                let r = with_opcode(between.as_str(), *found);
                assert(r@ == message(*self, Seq::empty()));
                r
            },
            LinkError::Recv(_) => {
                let r = joined("the link closed before a response arrived", "");
                proof {
                    reveal_strlit("");
                }
                assert(r@ =~= message(*self, Seq::empty()));
                r
            },
            LinkError::UnsupportedTls => {
                let r = joined("the websocket's TLS backend is not supported by this build", "");
                proof {
                    reveal_strlit("");
                }
                assert(r@ =~= message(*self, Seq::empty()));
                r
            },
            LinkError::Unsendable(opcode, len) => {
                let before = with_opcode("a message with opcode ", *opcode);
                let between = joined(before.as_str(), " and a ");
                let number = text::render_decimal(*len as u64);
                let sized = joined(between.as_str(), number.as_str());
                let r = joined(sized.as_str(), "-byte body exceeds the per-message limit");
                assert(r@ == message(*self, Seq::empty()));
                r
            },
            LinkError::SendTimeout(opcode) => {
                let r = with_opcode("timed out waiting for rate-limit budget to send opcode ", *opcode);
                assert(r@ == message(*self, Seq::empty()));
                r
            },
            LinkError::RequestTimeout(opcode) => {
                let r = with_opcode("timed out waiting for a response to opcode ", *opcode);
                assert(r@ == message(*self, Seq::empty()));
                r
            },
            LinkError::MalformedOpcode => {
                let r = joined("message type did not encode to a single-byte opcode", "");
                proof {
                    reveal_strlit("");
                }
                assert(r@ =~= message(*self, Seq::empty()));
                r
            },
        }
    }
}

impl std::fmt::Display for LinkError {
    fn fmt(&self, f: &mut std::fmt::Formatter<'_>) -> (r: Result<(), std::fmt::Error>)
        ensures
            r is Ok ==> exists|detail: Seq<char>|
                text::written(*final(f)) == text::written(*old(f)) + #[trigger] message(*self, detail),
    {
        let rendered = self.render();
        text::write_text(f, rendered.as_str())
    }
}

/// The outside error that an error stems from.
#[derive(Debug)]
pub enum ErrorSource<'a> {
    /// A body failed to encode or decode.
    Streamable(&'a chia_traits::Error),
    /// The underlying socket failed.
    Io(&'a std::io::Error),
    /// The sender of the awaited reply is gone.
    Recv(&'a RecvError),
}

impl LinkError {
    /// The outside error that this one stems from, if any. The text of a websocket error already
    /// holds the whole of what went wrong there, so it names no source.
    pub fn source(&self) -> (r: Option<ErrorSource<'_>>)
        ensures
            r == (match self {
                LinkError::Streamable(error) => Some(ErrorSource::Streamable(error)),
                LinkError::Io(error) => Some(ErrorSource::Io(error)),
                LinkError::Recv(error) => Some(ErrorSource::Recv(error)),
                _ => None,
            }),
    {
        match self {
            LinkError::Streamable(error) => Some(ErrorSource::Streamable(error)),
            LinkError::Io(error) => Some(ErrorSource::Io(error)),
            LinkError::Recv(error) => Some(ErrorSource::Recv(error)),
            _ => None,
        }
    }
}

/// A list of bytes is rendered one number behind the other, with a comma and a space in between.
pub proof fn bytes_are_listed_in_order(bytes: Seq<u8>, last: u8)
    ensures
        listed(seq![]) == Seq::<char>::empty(),
        listed(seq![last]) == text::decimal(last as nat),
        bytes.len() > 0 ==> listed(bytes.push(last)) == listed(bytes) + ", "@ + text::decimal(last as nat),
        byte_list(bytes) == "["@ + listed(bytes) + "]"@,
{
    assert(bytes.push(last).drop_last() =~= bytes);
}

/// The text of each error names what went wrong: the outside error it carries, the opcodes, the
/// length.
pub proof fn the_text_names_what_went_wrong(
    body: chia_traits::Error,
    expected: Vec<u8>,
    opcode: u8,
    len: usize,
    detail: Seq<char>,
)
    ensures
        message(LinkError::Streamable(body), detail) == "streamable error: "@ + streamable_error_text(body),
        message(LinkError::InvalidResponse(expected, opcode), detail) == "expected a response with opcode in "@
            + byte_list(expected@) + ", found "@ + text::decimal(opcode as nat),
        message(LinkError::Unsendable(opcode, len), detail) == "a message with opcode "@ + text::decimal(
            opcode as nat,
        ) + " and a "@ + text::decimal(len as nat) + "-byte body exceeds the per-message limit"@,
        message(LinkError::SendTimeout(opcode), detail)
            == "timed out waiting for rate-limit budget to send opcode "@ + text::decimal(opcode as nat),
        message(LinkError::RequestTimeout(opcode), detail) == "timed out waiting for a response to opcode "@
            + text::decimal(opcode as nat),
        message(LinkError::UnsupportedTls, detail) == "the websocket's TLS backend is not supported by this build"@,
        message(LinkError::MalformedOpcode, detail) == "message type did not encode to a single-byte opcode"@,
{
}

/// An error that comes from outside is rendered behind a word for where it comes from.
pub proof fn the_text_says_where_an_outside_error_comes_from(error: LinkError, detail: Seq<char>)
    ensures
        error is WebSocket ==> message(error, detail) == "websocket error: "@ + detail,
        error is Io ==> message(error, detail) == "io error: "@ + detail,
        error is Recv ==> message(error, detail) == "the link closed before a response arrived"@,
{
}

} // verus!
