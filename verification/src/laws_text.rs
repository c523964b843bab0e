//! What the texts of the library are, character by character: digits,
//! addresses, origins and messages.

use vstd::prelude::*;

use crate::error::{Fault, TransportError};
use crate::frame::Frame;
use crate::mac::Mac;

verus! {

/// The sixteen digits are written in lower case and read in either.
pub proof fn law_the_sixteen_digits(value: nat)
    requires
        value < 16,
    ensures
        crate::text::hex_digit(value) == "0123456789abcdef"@[value as int],
        crate::text::hex_value("0123456789abcdef"@[value as int]) == Some(value),
        crate::text::hex_value("0123456789ABCDEF"@[value as int]) == Some(value),
{
    reveal_strlit("0123456789abcdef");
    reveal_strlit("0123456789ABCDEF");
}

/// No other character is a digit.
pub proof fn law_no_other_digit(c: char)
    ensures
        crate::text::hex_value(c) matches Some(value) ==> value < 16 && (c
            == "0123456789abcdef"@[value as int] || c == "0123456789ABCDEF"@[value as int]),
{
    reveal_strlit("0123456789abcdef");
    reveal_strlit("0123456789ABCDEF");
}

/// A field of one digit is read as the digit, with a `+` before it or not;
/// an empty field and a `+` alone are no byte.
pub proof fn law_a_field_starts_with_a_digit(c: char)
    ensures
        crate::text::hex_byte(Seq::empty()) is None,
        crate::text::hex_byte(seq!['+']) is None,
        crate::text::hex_value(c) is None ==> crate::text::hex_byte(seq![c]) is None,
        crate::text::hex_value(c) matches Some(value) ==> crate::text::hex_byte(seq![c]) == Some(
            value as u8,
        ),
        crate::text::hex_byte(seq!['+', c]) == crate::text::hex_byte(seq![c]),
{
    let one = seq![c];
    assert(crate::text::hex_number(one.drop_last()) == 0);
    assert(seq!['+', c].skip(1) =~= one);
    assert(seq!['+'].skip(1) =~= Seq::<char>::empty());
    if c == '+' {
        assert(one =~= seq!['+']);
        assert(!crate::text::all_hex(one)) by {
            assert(crate::text::hex_value(one[0]) is None);
        }
    }
    if crate::text::hex_value(c) is None {
        assert(crate::text::hex_value(one[0]) is None);
    }
}

/// A digit behind a field moves what it reads up by one place, within a
/// byte; anything else behind it, or behind what is no byte, is no byte.
pub proof fn law_a_digit_more_is_a_place_more(field: Seq<char>, c: char)
    requires
        field.len() > 0,
        field != seq!['+'],
    ensures
        crate::text::hex_byte(field.push(c)) == match (
            crate::text::hex_byte(field),
            crate::text::hex_value(c),
        ) {
            (Some(byte), Some(digit)) => if 16 * byte + digit <= 255 {
                Some((16 * byte + digit) as u8)
            } else {
                None
            },
            _ => None,
        },
{
    let digits = crate::text::unsigned(field);
    let more = crate::text::unsigned(field.push(c));
    if field[0] == '+' && field.len() == 1 {
        assert(field =~= seq!['+']);
    }
    assert(more =~= digits.push(c));
    assert(more.drop_last() =~= digits);
    if crate::text::all_hex(more) {
        assert forall|i: int| 0 <= i < digits.len() implies crate::text::hex_value(
            #[trigger] digits[i],
        ) is Some by {
            assert(crate::text::hex_value(more[i]) is Some);
        }
        assert(crate::text::hex_value(more[digits.len() as int]) is Some);
    }
    if crate::text::all_hex(digits) && crate::text::hex_value(c) is Some {
        assert forall|i: int| 0 <= i < more.len() implies crate::text::hex_value(
            #[trigger] more[i],
        ) is Some by {
            if i < digits.len() {
                assert(crate::text::hex_value(digits[i]) is Some);
            }
        }
    }
}

/// Two digits, of either case, are read as the byte they write.
pub proof fn law_two_digits_write_a_byte(high: char, low: char, byte: u8)
    requires
        high == "0123456789abcdef"@[(byte / 16) as int] || high == "0123456789ABCDEF"@[(byte
            / 16) as int],
        low == "0123456789abcdef"@[(byte % 16) as int] || low == "0123456789ABCDEF"@[(byte
            % 16) as int],
    ensures
        crate::text::hex_byte(seq![high, low]) == Some(byte),
{
    law_the_sixteen_digits((byte / 16) as nat);
    law_the_sixteen_digits((byte % 16) as nat);
    law_a_field_starts_with_a_digit(high);
    let one = seq![high];
    assert(one != seq!['+']) by {
        assert(one[0] == high);
    }
    law_a_digit_more_is_a_place_more(one, low);
    assert(one.push(low) =~= seq![high, low]);
}

/// No character of `text` is a colon or a dash.
pub open spec fn unbroken(text: Seq<char>) -> bool {
    forall|i: int| 0 <= i < text.len() ==> #[trigger] text[i] != ':' && text[i] != '-'
}

/// `parts` in turn with `separators` between them, each a colon or a dash:
/// five of them, so that there are six parts, none of which holds one.
pub open spec fn six_parts(parts: Seq<Seq<char>>, separators: Seq<char>) -> bool {
    &&& parts.len() == 6
    &&& separators.len() == 5
    &&& forall|i: int| 0 <= i < 6 ==> unbroken(#[trigger] parts[i])
    &&& forall|i: int|
        0 <= i < 5 ==> #[trigger] separators[i] == ':' || separators[i] == '-'
}

/// The text of six parts with five separators between them.
pub open spec fn six_joined(parts: Seq<Seq<char>>, separators: Seq<char>) -> Seq<char> {
    parts[0] + seq![separators[0]] + parts[1] + seq![separators[1]] + parts[2]
        + seq![separators[2]] + parts[3] + seq![separators[3]] + parts[4] + seq![separators[4]]
        + parts[5]
}

proof fn lemma_unbroken_is_one_field(text: Seq<char>)
    requires
        unbroken(text),
    ensures
        crate::mac::fields(text) == seq![text],
    decreases text.len(),
{
    if text.len() > 0 {
        assert(unbroken(text.drop_last()));
        lemma_unbroken_is_one_field(text.drop_last());
        assert(text.drop_last().push(text.last()) =~= text);
        assert(crate::mac::fields(text) =~= seq![text]);
    } else {
        assert(text =~= Seq::<char>::empty());
    }
}

proof fn lemma_separator_adds_a_field(text: Seq<char>, separator: char, field: Seq<char>)
    requires
        separator == ':' || separator == '-',
        unbroken(field),
    ensures
        crate::mac::fields(text + seq![separator] + field) == crate::mac::fields(text).push(field),
    decreases field.len(),
{
    let whole = text + seq![separator] + field;
    if field.len() == 0 {
        assert(whole.drop_last() =~= text);
        assert(field =~= Seq::<char>::empty());
    } else {
        assert(unbroken(field.drop_last()));
        lemma_separator_adds_a_field(text, separator, field.drop_last());
        assert(whole.drop_last() =~= text + seq![separator] + field.drop_last());
        assert(field.drop_last().push(field.last()) =~= field);
        assert(crate::mac::fields(whole) =~= crate::mac::fields(text).push(field));
    }
}

proof fn lemma_fields_of_six(parts: Seq<Seq<char>>, separators: Seq<char>)
    requires
        six_parts(parts, separators),
    ensures
        crate::mac::fields(six_joined(parts, separators)) == parts,
{
    assert(unbroken(parts[0]) && unbroken(parts[1]) && unbroken(parts[2]) && unbroken(parts[3])
        && unbroken(parts[4]) && unbroken(parts[5]));
    let t0 = parts[0];
    let t1 = t0 + seq![separators[0]] + parts[1];
    let t2 = t1 + seq![separators[1]] + parts[2];
    let t3 = t2 + seq![separators[2]] + parts[3];
    let t4 = t3 + seq![separators[3]] + parts[4];
    lemma_unbroken_is_one_field(t0);
    lemma_separator_adds_a_field(t0, separators[0], parts[1]);
    lemma_separator_adds_a_field(t1, separators[1], parts[2]);
    lemma_separator_adds_a_field(t2, separators[2], parts[3]);
    lemma_separator_adds_a_field(t3, separators[3], parts[4]);
    lemma_separator_adds_a_field(t4, separators[4], parts[5]);
    assert(crate::mac::fields(six_joined(parts, separators)) =~= parts);
}

/// Six parts between separators are an address exactly where each part is
/// read as the byte of the address in its place; otherwise they are none,
/// and the refusal holds the text.
pub proof fn law_each_part_is_a_byte_of_the_address(
    parts: Seq<Seq<char>>,
    separators: Seq<char>,
    mac: Mac,
)
    requires
        six_parts(parts, separators),
    ensures
        crate::mac::read_mac(six_joined(parts, separators)) == Ok::<Mac, Fault>(mac) <==> (forall|
            i: int,
        |
            0 <= i < 6 ==> crate::text::hex_byte(#[trigger] parts[i]) == Some(mac.0@[i])),
        (exists|i: int| 0 <= i < 6 && crate::text::hex_byte(#[trigger] parts[i]) is None)
            ==> crate::mac::read_mac(six_joined(parts, separators)) == Err::<Mac, Fault>(
            Fault::NotAMac { text: six_joined(parts, separators) },
        ),
{
    let text = six_joined(parts, separators);
    lemma_fields_of_six(parts, separators);
    if forall|i: int| 0 <= i < 6 ==> crate::text::hex_byte(#[trigger] parts[i]) == Some(mac.0@[i]) {
        let Mac(read) = crate::mac::mac_of(text)->0;
        assert(crate::text::hex_byte(parts[0]) == Some(mac.0@[0]));
        assert(crate::text::hex_byte(parts[1]) == Some(mac.0@[1]));
        assert(crate::text::hex_byte(parts[2]) == Some(mac.0@[2]));
        assert(crate::text::hex_byte(parts[3]) == Some(mac.0@[3]));
        assert(crate::text::hex_byte(parts[4]) == Some(mac.0@[4]));
        assert(crate::text::hex_byte(parts[5]) == Some(mac.0@[5]));
        assert(read =~= mac.0);
    }
}

/// `parts` with `separators` between them.
spec fn joined(parts: Seq<Seq<char>>, separators: Seq<char>) -> Seq<char>
    decreases parts.len(),
{
    if parts.len() <= 1 {
        parts[0]
    } else {
        joined(parts.drop_last(), separators.drop_last()) + seq![separators.last()] + parts.last()
    }
}

/// A text is its fields with its separators between them, which are
/// returned.
proof fn lemma_a_text_is_its_fields(text: Seq<char>) -> (separators: Seq<char>)
    ensures
        crate::mac::fields(text).len() == separators.len() + 1,
        joined(crate::mac::fields(text), separators) == text,
        forall|i: int|
            0 <= i < separators.len() ==> #[trigger] separators[i] == ':' || separators[i] == '-',
        forall|i: int|
            0 <= i < crate::mac::fields(text).len() ==> unbroken(
                #[trigger] crate::mac::fields(text)[i],
            ),
    decreases text.len(),
{
    let parts = crate::mac::fields(text);
    if text.len() == 0 {
        assert(parts[0] =~= text);
        Seq::empty()
    } else {
        let init = text.drop_last();
        let c = text.last();
        let before = crate::mac::fields(init);
        let separators = lemma_a_text_is_its_fields(init);
        if c == ':' || c == '-' {
            let more = separators.push(c);
            assert(parts.drop_last() =~= before);
            assert(more.drop_last() =~= separators);
            assert(joined(parts, more) =~= text);
            more
        } else {
            assert(unbroken(before.last()));
            if before.len() > 1 {
                let head = joined(before.drop_last(), separators.drop_last()) + seq![
                    separators.last(),
                ];
                assert(parts.drop_last() =~= before.drop_last());
                assert(init == head + before.last());
                assert(joined(parts, separators) == head + before.last().push(c));
                assert(head + before.last().push(c) =~= (head + before.last()).push(c));
                assert(text =~= init.push(c));
            } else {
                assert(parts[0] =~= text);
            }
            assert forall|i: int| 0 <= i < parts.len() implies unbroken(#[trigger] parts[i]) by {
                if i < before.len() - 1 {
                    assert(parts[i] == before[i]);
                }
            }
            separators
        }
    }
}

/// Every text that is read as an address is six parts between separators,
/// each the byte of the address in its place.
pub proof fn law_an_address_is_six_parts(text: Seq<char>, mac: Mac)
    requires
        crate::mac::read_mac(text) == Ok::<Mac, Fault>(mac),
    ensures
        exists|parts: Seq<Seq<char>>, separators: Seq<char>| #[trigger]
            six_parts(parts, separators) && text == six_joined(parts, separators) && forall|i: int|
                0 <= i < 6 ==> crate::text::hex_byte(#[trigger] parts[i]) == Some(mac.0@[i]),
{
    let parts = crate::mac::fields(text);
    let separators = lemma_a_text_is_its_fields(text);
    assert(six_parts(parts, separators));
    reveal_with_fuel(joined, 7);
    assert(text =~= six_joined(parts, separators));
    law_each_part_is_a_byte_of_the_address(parts, separators, mac);
}

/// A text that is not read as an address is refused with that text.
pub proof fn law_what_is_no_address_is_refused_with_its_text(text: Seq<char>)
    ensures
        crate::mac::read_mac(text) is Ok || crate::mac::read_mac(text) == Err::<Mac, Fault>(
            Fault::NotAMac { text },
        ),
        crate::mac::read_mac(text) is Ok <==> crate::mac::mac_of(text) is Some,
{
}

/// An address written in the usual seventeen characters, two digits of
/// either case for each byte in turn and a colon or a dash between, is read
/// as that address.
pub proof fn law_the_usual_text_is_read(text: Seq<char>, mac: Mac)
    requires
        text.len() == 17,
        forall|i: int|
            0 <= i < 6 ==> (text[3 * i] == "0123456789abcdef"@[(#[trigger] mac.0@[i] / 16) as int]
                || text[3 * i] == "0123456789ABCDEF"@[(mac.0@[i] / 16) as int]),
        forall|i: int|
            0 <= i < 6 ==> (text[3 * i + 1] == "0123456789abcdef"@[(#[trigger] mac.0@[i]
                % 16) as int] || text[3 * i + 1] == "0123456789ABCDEF"@[(mac.0@[i] % 16) as int]),
        text[2] == ':' || text[2] == '-',
        text[5] == ':' || text[5] == '-',
        text[8] == ':' || text[8] == '-',
        text[11] == ':' || text[11] == '-',
        text[14] == ':' || text[14] == '-',
    ensures
        crate::mac::read_mac(text) == Ok::<Mac, Fault>(mac),
{
    let parts = pairs_of(text);
    let separators = seq![text[2], text[5], text[8], text[11], text[14]];
    assert forall|i: int| 0 <= i < 6 implies crate::text::hex_byte(#[trigger] parts[i]) == Some(
        mac.0@[i],
    ) && unbroken(parts[i]) by {
        lemma_a_pair_of_digits(text[3 * i], text[3 * i + 1], mac.0@[i]);
    }
    assert(six_parts(parts, separators));
    lemma_seventeen_characters(text);
    law_each_part_is_a_byte_of_the_address(parts, separators, mac);
}

/// The pairs of characters of a text of six pairs with one character between
/// each two.
spec fn pairs_of(text: Seq<char>) -> Seq<Seq<char>> {
    Seq::new(6, |i: int| seq![text[3 * i], text[3 * i + 1]])
}

proof fn lemma_a_pair_of_digits(high: char, low: char, byte: u8)
    requires
        high == "0123456789abcdef"@[(byte / 16) as int] || high == "0123456789ABCDEF"@[(byte
            / 16) as int],
        low == "0123456789abcdef"@[(byte % 16) as int] || low == "0123456789ABCDEF"@[(byte
            % 16) as int],
    ensures
        crate::text::hex_byte(seq![high, low]) == Some(byte),
        unbroken(seq![high, low]),
{
    law_two_digits_write_a_byte(high, low, byte);
    law_the_sixteen_digits((byte / 16) as nat);
    law_the_sixteen_digits((byte % 16) as nat);
    assert(crate::text::hex_value(':') is None && crate::text::hex_value('-') is None);
}

#[verifier::spinoff_prover]
proof fn lemma_seventeen_characters(text: Seq<char>)
    requires
        text.len() == 17,
    ensures
        text == six_joined(pairs_of(text), seq![text[2], text[5], text[8], text[11], text[14]]),
{
    let parts = pairs_of(text);
    let head = parts[0] + seq![text[2]] + parts[1] + seq![text[5]] + parts[2];
    assert(head =~= text.subrange(0, 8));
    let more = head + seq![text[8]] + parts[3] + seq![text[11]] + parts[4];
    assert(more =~= text.subrange(0, 14));
    assert(more + seq![text[14]] + parts[5] =~= text);
}

/// An address is written as two lower-case digits for each byte in turn, the
/// high one first, with a colon between two bytes.
pub proof fn law_the_text_of_an_address(mac: Mac)
    ensures
        mac.text().len() == 17,
        forall|i: int|
            0 <= i < 6 ==> mac.text()[3 * i] == "0123456789abcdef"@[(#[trigger] mac.0@[i]
                / 16) as int],
        forall|i: int|
            0 <= i < 6 ==> mac.text()[3 * i + 1] == "0123456789abcdef"@[(#[trigger] mac.0@[i]
                % 16) as int],
        mac.text()[2] == ':',
        mac.text()[5] == ':',
        mac.text()[8] == ':',
        mac.text()[11] == ':',
        mac.text()[14] == ':',
{
    let bytes = mac.0@;
    lemma_colon_hex_characters(bytes);
    assert(bytes[0] == mac.0@[0]);
    assert forall|i: int| 0 <= i < 6 implies mac.text()[3 * i] == "0123456789abcdef"@[(
    #[trigger] mac.0@[i] / 16) as int] && mac.text()[3 * i + 1] == "0123456789abcdef"@[(mac.0@[i]
        % 16) as int] by {
        law_the_sixteen_digits((mac.0@[i] / 16) as nat);
        law_the_sixteen_digits((mac.0@[i] % 16) as nat);
        assert(bytes[i] == mac.0@[i]);
    }
    assert(bytes[1] == mac.0@[1] && bytes[2] == mac.0@[2] && bytes[3] == mac.0@[3] && bytes[4]
        == mac.0@[4] && bytes[5] == mac.0@[5]);
}

proof fn lemma_colon_hex_characters(bytes: Seq<u8>)
    requires
        bytes.len() > 0,
    ensures
        crate::mac::colon_hex(bytes).len() == 3 * bytes.len() - 1,
        forall|i: int|
            #![trigger bytes[i]]
            0 <= i < bytes.len() ==> {
                &&& crate::mac::colon_hex(bytes)[3 * i] == crate::text::hex_digit(
                    (bytes[i] / 16) as nat,
                )
                &&& crate::mac::colon_hex(bytes)[3 * i + 1] == crate::text::hex_digit(
                    (bytes[i] % 16) as nat,
                )
                &&& i > 0 ==> crate::mac::colon_hex(bytes)[3 * i - 1] == ':'
            },
    decreases bytes.len(),
{
    if bytes.len() > 1 {
        let init = bytes.drop_last();
        lemma_colon_hex_characters(init);
        assert forall|i: int| #![trigger bytes[i]] 0 <= i < bytes.len() implies {
            &&& crate::mac::colon_hex(bytes)[3 * i] == crate::text::hex_digit(
                (bytes[i] / 16) as nat,
            )
            &&& crate::mac::colon_hex(bytes)[3 * i + 1] == crate::text::hex_digit(
                (bytes[i] % 16) as nat,
            )
            &&& i > 0 ==> crate::mac::colon_hex(bytes)[3 * i - 1] == ':'
        } by {
            if i < init.len() {
                assert(init[i] == bytes[i]);
            }
        }
    }
}

/// A group address has the lowest bit of its first byte set.
pub proof fn law_a_group_has_the_lowest_bit(mac: Mac)
    ensures
        mac.group() <==> mac.0@[0] & 0x01 != 0,
{
    let first = mac.0@[0];
    assert((first & 0x01 != 0) == (first % 2 == 1)) by (bit_vector);
}

/// The last decimal digit is the remainder by ten, and what stands before it
/// is the quotient.
pub proof fn law_decimal_counts_by_tens(value: nat)
    ensures
        value < 10 ==> crate::text::decimal(value) == seq!["0123456789"@[value as int]],
        value >= 10 ==> crate::text::decimal(value) == crate::text::decimal(value / 10).push(
            "0123456789"@[(value % 10) as int],
        ),
{
    reveal_strlit("0123456789");
}

/// Where a frame came from: the link, the source, and the four hexadecimal
/// digits of the `EtherType`.
pub proof fn law_an_origin_names_link_source_and_type(frame: Frame, link: Seq<char>)
    ensures
        frame@.origin(link) == "ethernet://"@ + link + "/"@ + frame.source.text() + "?type=0x"@
            + seq![
            "0123456789abcdef"@[(frame.ethertype / 4096) as int],
            "0123456789abcdef"@[(frame.ethertype / 256 % 16) as int],
            "0123456789abcdef"@[(frame.ethertype / 16 % 16) as int],
            "0123456789abcdef"@[(frame.ethertype % 16) as int],
        ],
{
    lemma_four_digits(frame.ethertype);
}

proof fn lemma_four_digits(value: u16)
    ensures
        crate::text::hex_quad(value) == seq![
            "0123456789abcdef"@[(value / 4096) as int],
            "0123456789abcdef"@[(value / 256 % 16) as int],
            "0123456789abcdef"@[(value / 16 % 16) as int],
            "0123456789abcdef"@[(value % 16) as int],
        ],
{
    assert(value / 256 / 16 == value / 4096) by (bit_vector);
    assert(value % 256 / 16 == value / 16 % 16) by (bit_vector);
    assert(value % 256 % 16 == value % 16) by (bit_vector);
    let (high, low) = ((value / 256) as u8, (value % 256) as u8);
    lemma_pair_digits(high);
    lemma_pair_digits(low);
}

proof fn lemma_pair_digits(byte: u8)
    ensures
        crate::text::hex_pair(byte) == seq![
            "0123456789abcdef"@[(byte / 16) as int],
            "0123456789abcdef"@[(byte % 16) as int],
        ],
{
    law_the_sixteen_digits((byte / 16) as nat);
    law_the_sixteen_digits((byte % 16) as nat);
}

/// Each error says in its words what was refused, with the numbers or the
/// text that it holds.
pub proof fn law_an_error_says_what_it_is(error: TransportError)
    ensures
        match error {
            TransportError::OverJumbo { bytes } => error@.message() == crate::text::decimal(
                bytes as nat,
            ) + " bytes is over the "@ + "9000"@ + " a jumbo frame carries"@,
            TransportError::OverMtu { bytes, mtu } => error@.message() == crate::text::decimal(
                bytes as nat,
            ) + " bytes is over the "@ + crate::text::decimal(mtu as nat)
                + " one frame carries on this link"@,
            TransportError::LengthForType => error@.message()
                == "an 802.3 length where an EtherType belongs"@,
            TransportError::ShortHeader => error@.message() == "shorter than an Ethernet header"@,
            TransportError::BareTag => error@.message() == "a tag with nothing after it"@,
            TransportError::NotAMac { text } => error@.message() == crate::error::debug_text(text@)
                + " is not a MAC address"@,
            TransportError::Quiet => error@.message() == "nothing came over the link"@,
            TransportError::Link { message } => error@.message() == message@,
        },
{
    reveal_strlit("9000");
    reveal_strlit("0123456789");
    law_decimal_counts_by_tens(9000);
    law_decimal_counts_by_tens(900);
    law_decimal_counts_by_tens(90);
    law_decimal_counts_by_tens(9);
    assert(crate::text::decimal(9000) =~= "9000"@);
}

} // verus!
