//! What goes wrong with a frame, an address or a link, and how it is said.

use vstd::prelude::*;
use vstd::string::StringExecFns;

use crate::frame::JUMBO_MTU;
use crate::text::push_decimal;

verus! {

/// Why a frame, an address or a link was refused.
#[derive(Debug, PartialEq, Eq)]
pub enum TransportError {
    /// A payload of `bytes` bytes, more than a jumbo frame carries.
    OverJumbo { bytes: usize },
    /// A payload of `bytes` bytes, more than the `mtu` of the link.
    OverMtu { bytes: usize, mtu: usize },
    /// An 802.3 length where an `EtherType` belongs.
    LengthForType,
    /// Fewer bytes than an Ethernet header.
    ShortHeader,
    /// An 802.1Q tag with nothing after it.
    BareTag,
    /// A text that is not a MAC address.
    NotAMac { text: String },
    /// A link that had no frame where one was due.
    Quiet,
    /// A link that could not be read or that refused a frame, in its own
    /// words.
    Link { message: String },
}

/// A [`TransportError`] with its texts as sequences of characters.
pub enum Fault {
    OverJumbo { bytes: usize },
    OverMtu { bytes: usize, mtu: usize },
    LengthForType,
    ShortHeader,
    BareTag,
    NotAMac { text: Seq<char> },
    Quiet,
    Link { message: Seq<char> },
}

impl View for TransportError {
    type V = Fault;

    open spec fn view(&self) -> Fault {
        match *self {
            TransportError::OverJumbo { bytes } => Fault::OverJumbo { bytes },
            TransportError::OverMtu { bytes, mtu } => Fault::OverMtu { bytes, mtu },
            TransportError::LengthForType => Fault::LengthForType,
            TransportError::ShortHeader => Fault::ShortHeader,
            TransportError::BareTag => Fault::BareTag,
            TransportError::NotAMac { text } => Fault::NotAMac { text: text@ },
            TransportError::Quiet => Fault::Quiet,
            TransportError::Link { message } => Fault::Link { message: message@ },
        }
    }
}

/// What a fallible function returned, its value and its error by their
/// views.
pub open spec fn outcome<T: View>(result: Result<T, TransportError>) -> Result<T::V, Fault> {
    match result {
        Ok(value) => Ok(value@),
        Err(error) => Err(error@),
    }
}

/// What `format!("{:?}")` writes for a text of these characters: the text
/// between double quotes, escaped.
pub uninterp spec fn debug_text(text: Seq<char>) -> Seq<char>;

/// `text` as [`std::fmt::Debug`] writes it, through `format!("{:?}")`. The
/// escapes rest on the Unicode tables of the standard library and are named
/// by [`debug_text`], not spelled out.
#[verifier::external_body]
fn quoted(text: &str) -> (quote: String)
    ensures
        quote@ == debug_text(text@),
{
    format!("{text:?}")
}

impl Fault {
    /// The words for this fault.
    pub open spec fn message(self) -> Seq<char> {
        match self {
            Fault::OverJumbo { bytes } => crate::text::decimal(bytes as nat)
                + " bytes is over the "@ + crate::text::decimal(JUMBO_MTU as nat)
                + " a jumbo frame carries"@,
            Fault::OverMtu { bytes, mtu } => crate::text::decimal(bytes as nat)
                + " bytes is over the "@ + crate::text::decimal(mtu as nat)
                + " one frame carries on this link"@,
            Fault::LengthForType => "an 802.3 length where an EtherType belongs"@,
            Fault::ShortHeader => "shorter than an Ethernet header"@,
            Fault::BareTag => "a tag with nothing after it"@,
            Fault::NotAMac { text } => debug_text(text) + " is not a MAC address"@,
            Fault::Quiet => "nothing came over the link"@,
            Fault::Link { message } => message,
        }
    }
}

/// `<bytes> bytes is over the <limit><what>`.
fn over(bytes: usize, limit: usize, what: &str) -> (message: String)
    ensures
        message@ == crate::text::decimal(bytes as nat) + " bytes is over the "@
            + crate::text::decimal(limit as nat) + what@,
{
    let mut message = String::new();
    push_decimal(&mut message, bytes);
    message.append(" bytes is over the ");
    push_decimal(&mut message, limit);
    message.append(what);
    message
}

/// The words for a text that is not a MAC address, given the text as
/// [`std::fmt::Debug`] quotes it.
pub fn not_a_mac(quote: String) -> (message: String)
    ensures
        message@ == quote@ + " is not a MAC address"@,
{
    quote.concat(" is not a MAC address")
}

impl TransportError {
    /// The words for this error.
    pub fn message(&self) -> (message: String)
        ensures
            message@ == self@.message(),
    {
        match self {
            TransportError::OverJumbo { bytes } => over(
                *bytes,
                JUMBO_MTU,
                " a jumbo frame carries",
            ),
            TransportError::OverMtu { bytes, mtu } => over(
                *bytes,
                *mtu,
                " one frame carries on this link",
            ),
            TransportError::LengthForType => "an 802.3 length where an EtherType belongs".to_owned(),
            TransportError::ShortHeader => "shorter than an Ethernet header".to_owned(),
            TransportError::BareTag => "a tag with nothing after it".to_owned(),
            TransportError::NotAMac { text } => not_a_mac(quoted(text.as_str())),
            TransportError::Quiet => "nothing came over the link".to_owned(),
            TransportError::Link { message } => message.clone(),
        }
    }
}

} // verus!
