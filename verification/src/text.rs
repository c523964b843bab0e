//! Numbers as text: the digits that addresses, origins and messages are
//! written in, and the reading of hexadecimal back.

use vstd::prelude::*;

verus! {

/// [`String::push`]: `ch` is appended to the end of the text, and nothing
/// else of it changes.
pub assume_specification[ String::push ](text: &mut String, ch: char)
    ensures
        final(text)@ == old(text)@.push(ch),
;

/// The lower-case hexadecimal digit that stands for `value`.
pub open spec fn hex_digit(value: nat) -> char {
    if value < 10 {
        ('0' as nat + value) as char
    } else {
        ('a' as nat + value - 10) as char
    }
}

/// What a hexadecimal digit of either case stands for.
pub open spec fn hex_value(digit: char) -> Option<nat> {
    if '0' <= digit <= '9' {
        Some((digit as nat - '0' as nat) as nat)
    } else if 'a' <= digit <= 'f' {
        Some((digit as nat - 'a' as nat + 10) as nat)
    } else if 'A' <= digit <= 'F' {
        Some((digit as nat - 'A' as nat + 10) as nat)
    } else {
        None
    }
}

/// The two hexadecimal digits of a byte, most significant first.
pub open spec fn hex_pair(byte: u8) -> Seq<char> {
    seq![hex_digit((byte / 16) as nat), hex_digit((byte % 16) as nat)]
}

/// The four hexadecimal digits of a 16-bit value, most significant first.
pub open spec fn hex_quad(value: u16) -> Seq<char> {
    hex_pair((value / 256) as u8) + hex_pair((value % 256) as u8)
}

/// The decimal digits of `value`, with no leading zero.
pub open spec fn decimal(value: nat) -> Seq<char>
    decreases value,
{
    if value < 10 {
        seq![hex_digit(value)]
    } else {
        decimal(value / 10).push(hex_digit(value % 10))
    }
}

/// Every character of `digits` is a hexadecimal digit.
pub open spec fn all_hex(digits: Seq<char>) -> bool {
    forall|i: int| 0 <= i < digits.len() ==> hex_value(#[trigger] digits[i]) is Some
}

/// The number that hexadecimal `digits` write, most significant first.
pub open spec fn hex_number(digits: Seq<char>) -> nat
    decreases digits.len(),
{
    if digits.len() == 0 {
        0
    } else {
        16 * hex_number(digits.drop_last()) + hex_value(digits.last()).unwrap_or(0)
    }
}

/// The digits of a number as it is read: what follows one optional `+`.
pub open spec fn unsigned(field: Seq<char>) -> Seq<char> {
    if field.len() > 0 && field[0] == '+' {
        field.skip(1)
    } else {
        field
    }
}

/// The byte that `field` writes in hexadecimal: an optional `+`, then at
/// least one digit of either case, with a value that a byte holds.
pub open spec fn hex_byte(field: Seq<char>) -> Option<u8> {
    let digits = unsigned(field);
    if digits.len() > 0 && all_hex(digits) && hex_number(digits) <= u8::MAX {
        Some(hex_number(digits) as u8)
    } else {
        None
    }
}

/// The lower-case hexadecimal digit for `value`.
fn digit_char(value: u8) -> (digit: char)
    requires
        value < 16,
    ensures
        digit == hex_digit(value as nat),
{
    if value < 10 {
        ('0' as u8 + value) as char
    } else {
        ('a' as u8 + (value - 10)) as char
    }
}

/// What `digit` stands for in hexadecimal, if it is a digit.
fn digit_value(digit: char) -> (value: Option<u8>)
    ensures
        match value {
            Some(v) => hex_value(digit) == Some(v as nat) && v < 16,
            None => hex_value(digit) is None,
        },
{
    if '0' <= digit && digit <= '9' {
        Some((digit as u32 - '0' as u32) as u8)
    } else if 'a' <= digit && digit <= 'f' {
        Some((digit as u32 - 'a' as u32 + 10) as u8)
    } else if 'A' <= digit && digit <= 'F' {
        Some((digit as u32 - 'A' as u32 + 10) as u8)
    } else {
        None
    }
}

/// Append the two hexadecimal digits of `byte`.
pub(crate) fn push_hex_pair(text: &mut String, byte: u8)
    ensures
        final(text)@ == old(text)@ + hex_pair(byte),
{
    text.push(digit_char(byte / 16));
    text.push(digit_char(byte % 16));
}

/// Append the four hexadecimal digits of `value`.
pub(crate) fn push_hex_quad(text: &mut String, value: u16)
    ensures
        final(text)@ == old(text)@ + hex_quad(value),
{
    push_hex_pair(text, (value / 256) as u8);
    push_hex_pair(text, (value % 256) as u8);
}

/// Append `value` in decimal.
pub(crate) fn push_decimal(text: &mut String, value: usize)
    ensures
        final(text)@ == old(text)@ + decimal(value as nat),
    decreases value,
{
    if value >= 10 {
        push_decimal(text, value / 10);
    }
    text.push(digit_char((value % 10) as u8));
}

/// The characters of `text`.
pub(crate) fn chars_of(text: &str) -> (chars: Vec<char>)
    ensures
        chars@ == text@,
{
    let mut chars: Vec<char> = Vec::new();
    for c in it: text.chars()
        invariant
            it.seq() == text@,
            chars@ == text@.take(it.index()),
    {
        chars.push(c);
    }
    chars
}

/// The digits read so far never write more than all of them.
proof fn lemma_prefix_writes_no_more(digits: Seq<char>, n: int)
    requires
        0 <= n <= digits.len(),
    ensures
        hex_number(digits.take(n)) <= hex_number(digits),
    decreases digits.len() - n,
{
    if n < digits.len() {
        lemma_prefix_writes_no_more(digits, n + 1);
        assert(digits.take(n + 1).drop_last() == digits.take(n));
    } else {
        assert(digits.take(n) == digits);
    }
}

/// The byte that `field` writes in hexadecimal, if it writes one.
pub(crate) fn read_hex_byte(field: &Vec<char>) -> (byte: Option<u8>)
    ensures
        byte == hex_byte(field@),
{
    let start: usize = if field.len() > 0 && field[0] == '+' {
        1
    } else {
        0
    };
    let ghost digits = unsigned(field@);
    assert(digits == field@.skip(start as int));
    if field.len() == start {
        return None;
    }
    let mut value: u32 = 0;
    let mut at: usize = start;
    while at < field.len()
        invariant
            start <= at <= field.len(),
            digits == unsigned(field@),
            digits == field@.skip(start as int),
            all_hex(digits.take(at - start)),
            value == hex_number(digits.take(at - start)),
            value <= u8::MAX,
        decreases field.len() - at,
    {
        let ghost n = at - start;
        assert(digits[n] == field@[at as int]);
        assert(digits.take(n + 1).drop_last() == digits.take(n));
        match digit_value(field[at]) {
            None => {
                return None;
            },
            Some(digit) => {
                value = value * 16 + digit as u32;
                assert(value == hex_number(digits.take(n + 1)));
                if value > 255 {
                    proof {
                        lemma_prefix_writes_no_more(digits, n + 1);
                    }
                    return None;
                }
                assert forall|i: int| 0 <= i < n + 1 implies hex_value(
                    #[trigger] digits.take(n + 1)[i],
                ) is Some by {
                    if i < n {
                        assert(digits.take(n)[i] == digits.take(n + 1)[i]);
                    }
                }
            },
        }
        at = at + 1;
    }
    assert(digits.take(at - start) == digits);
    Some(value as u8)
}

} // verus!
