//! Rendering of bytes and numbers as text.

use vstd::prelude::*;
use vstd::string::StringExecFns;

verus! {

/// The sink that a value is formatted into.
#[verifier::external_type_specification]
#[verifier::external_body]
pub struct ExFormatter<'a>(std::fmt::Formatter<'a>);

/// The failure of such a sink.
#[verifier::external_type_specification]
#[verifier::external_body]
pub struct ExFmtError(std::fmt::Error);

/// The text that a formatter has been handed so far.
pub uninterp spec fn written(f: std::fmt::Formatter<'_>) -> Seq<char>;

/// `Formatter::write_str` of std: hands `text` to the formatter, behind what it was handed before.
/// Whether the sink takes it is up to the sink.
#[verifier::external_body]
pub(crate) fn write_text(f: &mut std::fmt::Formatter<'_>, text: &str) -> (r: Result<(), std::fmt::Error>)
    ensures
        r is Ok ==> written(*final(f)) == written(*old(f)) + text@,
{
    f.write_str(text)
}

/// The lower-case hexadecimal digit of a value below 16.
pub open spec fn hex_digit(value: int) -> char {
    if value < 10 {
        (0x30 + value) as char
    } else {
        (0x57 + value) as char
    }
}

/// Two hexadecimal digits for each byte, most significant first.
pub open spec fn hex(bytes: Seq<u8>) -> Seq<char>
    decreases bytes.len(),
{
    if bytes.len() == 0 {
        Seq::empty()
    } else {
        hex(bytes.drop_last()) + seq![hex_digit(bytes.last() as int / 16), hex_digit(bytes.last() as int % 16)]
    }
}

/// The decimal digits of `value`, without leading zeros.
pub open spec fn decimal(value: nat) -> Seq<char>
    decreases value,
{
    if value < 10 {
        seq![hex_digit(value as int)]
    } else {
        decimal(value / 10) + seq![hex_digit((value % 10) as int)]
    }
}

/// The text of the digit `value`.
fn digit(value: u8) -> (r: &'static str)
    requires
        value < 16,
    ensures
        r@ == seq![hex_digit(value as int)],
{
    proof {
        reveal_strlit("0");
        reveal_strlit("1");
        reveal_strlit("2");
        reveal_strlit("3");
        reveal_strlit("4");
        reveal_strlit("5");
        reveal_strlit("6");
        reveal_strlit("7");
        reveal_strlit("8");
        reveal_strlit("9");
        reveal_strlit("a");
        reveal_strlit("b");
        reveal_strlit("c");
        reveal_strlit("d");
        reveal_strlit("e");
        reveal_strlit("f");
    }
    let r = if value == 0 {
        "0"
    } else if value == 1 {
        "1"
    } else if value == 2 {
        "2"
    } else if value == 3 {
        "3"
    } else if value == 4 {
        "4"
    } else if value == 5 {
        "5"
    } else if value == 6 {
        "6"
    } else if value == 7 {
        "7"
    } else if value == 8 {
        "8"
    } else if value == 9 {
        "9"
    } else if value == 10 {
        "a"
    } else if value == 11 {
        "b"
    } else if value == 12 {
        "c"
    } else if value == 13 {
        "d"
    } else if value == 14 {
        "e"
    } else {
        "f"
    };
    assert(r@ =~= seq![hex_digit(value as int)]);
    r
}

/// Renders one byte as two lower-case hexadecimal digits.
pub(crate) fn render_byte(byte: u8) -> (r: String)
    ensures
        r@ == seq![hex_digit(byte as int / 16), hex_digit(byte as int % 16)],
{
    let mut r = String::new();
    r.append(digit(byte / 16));
    r.append(digit(byte % 16));
    assert(r@ =~= seq![hex_digit(byte as int / 16), hex_digit(byte as int % 16)]);
    r
}

/// Renders `value` in decimal.
pub(crate) fn render_decimal(value: u64) -> (r: String)
    ensures
        r@ == decimal(value as nat),
    decreases value,
{
    let mut r = if value < 10 {
        String::new()
    } else {
        render_decimal(value / 10)
    };
    r.append(digit((value % 10) as u8));
    assert(r@ =~= decimal(value as nat));
    r
}

/// The digits of a byte in hexadecimal stand at twice its place: the first is the digit of its
/// upper half, the second that of its lower half, both in lower case.
pub proof fn every_byte_is_two_hexadecimal_digits(bytes: Seq<u8>)
    ensures
        hex(bytes).len() == 2 * bytes.len(),
        forall|i: int|
            0 <= i < bytes.len() ==> {
                let (upper, lower) = (#[trigger] bytes[i] as int / 16, bytes[i] as int % 16);
                &&& hex(bytes)[2 * i] as int == (if upper < 10 {
                    48 + upper
                } else {
                    87 + upper
                })
                &&& hex(bytes)[2 * i + 1] as int == (if lower < 10 {
                    48 + lower
                } else {
                    87 + lower
                })
            },
    decreases bytes.len(),
{
    if bytes.len() > 0 {
        let earlier = bytes.drop_last();
        every_byte_is_two_hexadecimal_digits(earlier);
        assert forall|i: int| 0 <= i < bytes.len() - 1 implies #[trigger] bytes[i] == earlier[i] && hex(bytes)[2 * i]
            == hex(earlier)[2 * i] && hex(bytes)[2 * i + 1] == hex(earlier)[2 * i + 1] by {}
    }
}

/// A number in decimal is its last digit behind the digits of the number without it, and a number
/// below ten is its digit alone.
pub proof fn decimal_digits_stand_in_order(front: nat, last: nat)
    requires
        last < 10,
    ensures
        decimal(last) == seq![(48 + last) as char],
        front > 0 ==> decimal(front * 10 + last) == decimal(front).push((48 + last) as char),
{
    if front > 0 {
        assert((front * 10 + last) / 10 == front && (front * 10 + last) % 10 == last);
        assert(decimal(front * 10 + last) =~= decimal(front).push((48 + last) as char));
    }
}

} // verus!
