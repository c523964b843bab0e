//! The 48-bit media access control address, and how it is written.

use vstd::prelude::*;

use crate::error::{Fault, TransportError};
use crate::text::{chars_of, push_hex_pair, read_hex_byte};

verus! {

/// A 48-bit media access control address.
#[derive(Clone, Copy, Debug, PartialEq, Eq, Hash)]
pub struct Mac(pub [u8; 6]);

impl View for Mac {
    type V = Mac;

    open spec fn view(&self) -> Mac {
        *self
    }
}

/// Bytes in hexadecimal, two digits each, with a colon between two bytes.
pub open spec fn colon_hex(bytes: Seq<u8>) -> Seq<char>
    decreases bytes.len(),
{
    if bytes.len() == 0 {
        Seq::empty()
    } else if bytes.len() == 1 {
        crate::text::hex_pair(bytes[0])
    } else {
        colon_hex(bytes.drop_last()).push(':') + crate::text::hex_pair(bytes.last())
    }
}

/// What may stand between two bytes of an address that is read.
pub open spec fn is_separator(c: char) -> bool {
    c == ':' || c == '-'
}

/// The stretches of `text` between its separators: one more than it has
/// separators, any of them perhaps empty.
pub open spec fn fields(text: Seq<char>) -> Seq<Seq<char>>
    decreases text.len(),
{
    if text.len() == 0 {
        seq![Seq::empty()]
    } else {
        let before = fields(text.drop_last());
        if is_separator(text.last()) {
            before.push(Seq::empty())
        } else {
            before.drop_last().push(before.last().push(text.last()))
        }
    }
}

/// The address that `text` writes: six hexadecimal bytes with a separator
/// between each two.
pub open spec fn mac_of(text: Seq<char>) -> Option<Mac> {
    let parts = fields(text);
    if parts.len() == 6 && forall|i: int|
        0 <= i < 6 ==> crate::text::hex_byte(#[trigger] parts[i]) is Some {
        Some(
            Mac(
                [
                    crate::text::hex_byte(parts[0])->0,
                    crate::text::hex_byte(parts[1])->0,
                    crate::text::hex_byte(parts[2])->0,
                    crate::text::hex_byte(parts[3])->0,
                    crate::text::hex_byte(parts[4])->0,
                    crate::text::hex_byte(parts[5])->0,
                ],
            ),
        )
    } else {
        None
    }
}

/// What reading `text` as an address gives: the address, or that it is none.
pub open spec fn read_mac(text: Seq<char>) -> Result<Mac, Fault> {
    match mac_of(text) {
        Some(mac) => Ok(mac),
        None => Err(Fault::NotAMac { text }),
    }
}

/// The stretches of `text` between its separators.
fn split(text: &Vec<char>) -> (parts: Vec<Vec<char>>)
    ensures
        parts.len() == fields(text@).len(),
        forall|i: int| 0 <= i < parts.len() ==> (#[trigger] parts[i])@ == fields(text@)[i],
{
    let mut parts: Vec<Vec<char>> = Vec::new();
    let mut part: Vec<char> = Vec::new();
    let mut at: usize = 0;
    assert(text@.take(0) == Seq::<char>::empty());
    while at < text.len()
        invariant
            at <= text.len(),
            fields(text@.take(at as int)).len() == parts.len() + 1,
            forall|i: int|
                0 <= i < parts.len() ==> (#[trigger] parts[i])@ == fields(
                    text@.take(at as int),
                )[i],
            part@ == fields(text@.take(at as int)).last(),
        decreases text.len() - at,
    {
        let c = text[at];
        assert(text@.take(at + 1).drop_last() == text@.take(at as int));
        if c == ':' || c == '-' {
            parts.push(part);
            part = Vec::new();
        } else {
            part.push(c);
        }
        at = at + 1;
    }
    assert(text@.take(at as int) == text@);
    parts.push(part);
    parts
}

impl Mac {
    /// How the address is written: `aa:bb:cc:dd:ee:ff`.
    pub open spec fn text(self) -> Seq<char> {
        colon_hex(self.0@)
    }

    /// True for a group address: the lowest bit of the first byte is set.
    pub open spec fn group(self) -> bool {
        self.0@[0] % 2 == 1
    }

    /// The broadcast address, every bit set.
    #[must_use]
    pub fn broadcast() -> (mac: Mac)
        ensures
            mac.0@ == Seq::new(6, |i: int| 0xffu8),
            mac.group(),
    {
        Mac([0xff, 0xff, 0xff, 0xff, 0xff, 0xff])
    }

    /// True for a group address: multicast, or broadcast.
    #[must_use]
    pub fn is_group(self) -> (group: bool)
        ensures
            group == self.group(),
    {
        let first = self.0[0];
        assert((first & 0x01 != 0) == (first % 2 == 1)) by (bit_vector);
        first & 0x01 != 0
    }

    /// The address as `aa:bb:cc:dd:ee:ff`.
    #[must_use]
    pub fn to_string(&self) -> (text: String)
        ensures
            text@ == self.text(),
    {
        let mut text = String::new();
        let mut at: usize = 0;
        while at < 6
            invariant
                at <= 6,
                text@ == colon_hex(self.0@.take(at as int)),
            decreases 6 - at,
        {
            if at > 0 {
                text.push(':');
            }
            push_hex_pair(&mut text, self.0[at]);
            assert(self.0@.take(at + 1).drop_last() == self.0@.take(at as int));
            at = at + 1;
        }
        assert(self.0@.take(6) == self.0@);
        text
    }

    /// The address that `text` writes: `aa:bb:cc:dd:ee:ff`, or with dashes.
    ///
    /// # Errors
    /// A text that is not six hexadecimal bytes between separators.
    pub fn from_str(text: &str) -> (mac: Result<Mac, TransportError>)
        ensures
            crate::error::outcome(mac) == read_mac(text@),
    {
        let parts = split(&chars_of(text));
        let mut bytes: [u8; 6] = [0, 0, 0, 0, 0, 0];
        let mut at: usize = 0;
        if parts.len() != 6 {
            return Err(TransportError::NotAMac { text: text.to_owned() });
        }
        while at < 6
            invariant
                at <= 6,
                parts.len() == 6,
                fields(text@).len() == 6,
                forall|i: int| 0 <= i < 6 ==> (#[trigger] parts[i])@ == fields(text@)[i],
                forall|i: int|
                    0 <= i < at ==> crate::text::hex_byte(#[trigger] fields(text@)[i]) == Some(
                        bytes@[i],
                    ),
            decreases 6 - at,
        {
            match read_hex_byte(&parts[at]) {
                None => {
                    assert(crate::text::hex_byte(fields(text@)[at as int]) is None);
                    return Err(TransportError::NotAMac { text: text.to_owned() });
                },
                Some(byte) => {
                    bytes[at] = byte;
                },
            }
            at = at + 1;
        }
        proof {
            let Mac(read) = mac_of(text@)->0;
            assert(read =~= bytes);
        }
        Ok(Mac(bytes))
    }
}

impl std::str::FromStr for Mac {
    type Err = TransportError;

    /// The address that `text` writes, as [`Mac::from_str`] reads it.
    fn from_str(text: &str) -> (mac: Result<Mac, TransportError>)
        ensures
            crate::error::outcome(mac) == read_mac(text@),
    {
        Mac::from_str(text)
    }
}

} // verus!
