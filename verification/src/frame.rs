//! One Ethernet II frame: destination, source, an 802.1Q tag where the
//! switch put one, an `EtherType`, and the payload. No preamble and no frame
//! check sequence — the adapter adds and strips those, and a raw socket
//! never sees them.
//!
//! The `EtherType` is what tells a frame from IP: `0x0800` is IPv4, `0x88a4`
//! is `EtherCAT`, `0x8892` is PROFINET, and Xmip's own is [`XMIP_ETHERTYPE`],
//! the first of the two IEEE 802 reserves for local experiments.

use vstd::prelude::*;
use vstd::slice::{slice_subrange, slice_to_vec};
use vstd::string::StringExecFns;

use crate::error::{Fault, TransportError};
pub use crate::mac::Mac;
use crate::text::push_hex_quad;

verus! {

/// The payload one standard frame carries: the IEEE 802.3 maximum
/// transmission unit.
pub const MTU: usize = 1500;

/// The payload a jumbo frame carries where the link allows it — no standard
/// says 9000, but every switch that does jumbo does at least this.
pub const JUMBO_MTU: usize = 9000;

/// The smallest payload a wire carries: a shorter one is padded to it by the
/// adapter, and a protocol above must know its own length. The in-process
/// link does not pad, so a Stream shorter than this comes back whole.
pub const MIN_PAYLOAD: usize = 46;

/// Xmip's own `EtherType`: IEEE 802 local experimental `EtherType` 1.
pub const XMIP_ETHERTYPE: u16 = 0x88b5;

/// The tag protocol identifier that says an 802.1Q tag follows.
pub const TAG_PROTOCOL: u16 = 0x8100;

/// The first value that is an `EtherType` rather than an 802.3 length.
pub const FIRST_ETHERTYPE: u16 = 0x0600;

/// The untagged header: two addresses and an `EtherType`.
pub const HEADER: usize = 14;

/// A 16-bit value as the wire carries it, most significant byte first.
pub open spec fn be_bytes(value: u16) -> Seq<u8> {
    seq![(value / 256) as u8, (value % 256) as u8]
}

/// The 16-bit value at `at` on the wire.
pub open spec fn be_at(bytes: Seq<u8>, at: int) -> u16 {
    (bytes[at] * 256 + bytes[at + 1]) as u16
}

/// The address at `at` on the wire.
pub open spec fn mac_at(bytes: Seq<u8>, at: int) -> Mac {
    Mac(
        [
            bytes[at],
            bytes[at + 1],
            bytes[at + 2],
            bytes[at + 3],
            bytes[at + 4],
            bytes[at + 5],
        ],
    )
}

/// One frame as the link carries it.
#[derive(Debug, PartialEq, Eq)]
pub struct Frame {
    pub destination: Mac,
    pub source: Mac,
    /// The 802.1Q tag control information — priority, drop eligible, VLAN
    /// — where the frame carries a tag.
    pub tag: Option<u16>,
    pub ethertype: u16,
    pub payload: Vec<u8>,
}

/// A [`Frame`] with its payload as a sequence of bytes.
pub struct FrameModel {
    pub destination: Mac,
    pub source: Mac,
    pub tag: Option<u16>,
    pub ethertype: u16,
    pub payload: Seq<u8>,
}

impl View for Frame {
    type V = FrameModel;

    open spec fn view(&self) -> FrameModel {
        FrameModel {
            destination: self.destination,
            source: self.source,
            tag: self.tag,
            ethertype: self.ethertype,
            payload: self.payload@,
        }
    }
}

impl FrameModel {
    /// The untagged frame of these parts, or what no link carries of it: a
    /// payload over [`JUMBO_MTU`], or a length in place of an `EtherType`.
    pub open spec fn made(
        destination: Mac,
        source: Mac,
        ethertype: u16,
        payload: Seq<u8>,
    ) -> Result<FrameModel, Fault> {
        if payload.len() > JUMBO_MTU {
            Err(Fault::OverJumbo { bytes: payload.len() as usize })
        } else if ethertype < FIRST_ETHERTYPE {
            Err(Fault::LengthForType)
        } else {
            Ok(FrameModel { destination, source, tag: None, ethertype, payload })
        }
    }

    /// The low twelve bits of the tag, where there is one.
    pub open spec fn vlan(self) -> Option<u16> {
        match self.tag {
            Some(tag) => Some((tag % 4096) as u16),
            None => None,
        }
    }

    /// The 802.1Q tag on the wire: its protocol identifier and its control
    /// information, or nothing.
    pub open spec fn tag_bytes(self) -> Seq<u8> {
        match self.tag {
            Some(tag) => be_bytes(TAG_PROTOCOL) + be_bytes(tag),
            None => Seq::empty(),
        }
    }

    /// The frame as bytes on the wire.
    pub open spec fn encoded(self) -> Seq<u8> {
        self.destination.0@ + self.source.0@ + self.tag_bytes() + be_bytes(self.ethertype)
            + self.payload
    }

    /// The frame that `bytes` carry, or why they carry none.
    pub open spec fn decoded(bytes: Seq<u8>) -> Result<FrameModel, Fault> {
        if bytes.len() < HEADER {
            Err(Fault::ShortHeader)
        } else if be_at(bytes, 12) != TAG_PROTOCOL {
            if be_at(bytes, 12) < FIRST_ETHERTYPE {
                Err(Fault::LengthForType)
            } else {
                Ok(
                    FrameModel {
                        destination: mac_at(bytes, 0),
                        source: mac_at(bytes, 6),
                        tag: None,
                        ethertype: be_at(bytes, 12),
                        payload: bytes.skip(14),
                    },
                )
            }
        } else if bytes.len() < HEADER + 4 {
            Err(Fault::BareTag)
        } else if be_at(bytes, 16) < FIRST_ETHERTYPE {
            Err(Fault::LengthForType)
        } else {
            Ok(
                FrameModel {
                    destination: mac_at(bytes, 0),
                    source: mac_at(bytes, 6),
                    tag: Some(be_at(bytes, 14)),
                    ethertype: be_at(bytes, 16),
                    payload: bytes.skip(18),
                },
            )
        }
    }

    /// Where the frame came from on the link named `link`.
    pub open spec fn origin(self, link: Seq<char>) -> Seq<char> {
        "ethernet://"@ + link + "/"@ + self.source.text() + "?type=0x"@
            + crate::text::hex_quad(self.ethertype)
    }
}

/// Append `bytes`.
fn push_all(out: &mut Vec<u8>, bytes: &[u8])
    ensures
        final(out)@ == old(out)@ + bytes@,
{
    out.extend_from_slice(bytes);
    assert(out@ =~= old(out)@ + bytes@);
}

/// Append `value`, most significant byte first.
fn push_be(out: &mut Vec<u8>, value: u16)
    ensures
        final(out)@ == old(out)@ + be_bytes(value),
{
    out.push((value / 256) as u8);
    out.push((value % 256) as u8);
}

/// The 16-bit value at `at`.
fn read_be(bytes: &[u8], at: usize) -> (value: u16)
    requires
        at + 2 <= bytes@.len(),
    ensures
        value == be_at(bytes@, at as int),
{
    bytes[at] as u16 * 256 + bytes[at + 1] as u16
}

/// The address at `at`.
fn read_address(bytes: &[u8], at: usize) -> (mac: Mac)
    requires
        at + 6 <= bytes@.len(),
    ensures
        mac == mac_at(bytes@, at as int),
{
    Mac(
        [
            bytes[at],
            bytes[at + 1],
            bytes[at + 2],
            bytes[at + 3],
            bytes[at + 4],
            bytes[at + 5],
        ],
    )
}

impl Frame {
    /// A frame, refusing what no link carries: a payload over
    /// [`JUMBO_MTU`], or a length in place of an `EtherType`.
    ///
    /// # Errors
    /// Outside those bounds.
    pub fn new(destination: Mac, source: Mac, ethertype: u16, payload: &[u8]) -> (frame: Result<
        Frame,
        TransportError,
    >)
        ensures
            crate::error::outcome(frame) == FrameModel::made(
                destination,
                source,
                ethertype,
                payload@,
            ),
    {
        if payload.len() > JUMBO_MTU {
            return Err(TransportError::OverJumbo { bytes: payload.len() });
        }
        if ethertype < FIRST_ETHERTYPE {
            return Err(TransportError::LengthForType);
        }
        Ok(Frame { destination, source, tag: None, ethertype, payload: slice_to_vec(payload) })
    }

    /// The same frame under an 802.1Q tag.
    #[must_use]
    pub fn tagged(self, tag: u16) -> (frame: Frame)
        ensures
            frame@ == (FrameModel { tag: Some(tag), ..self@ }),
    {
        Frame { tag: Some(tag), ..self }
    }

    /// The VLAN the tag names, where there is one.
    #[must_use]
    pub fn vlan(&self) -> (vlan: Option<u16>)
        ensures
            vlan == self@.vlan(),
    {
        match self.tag {
            Some(tag) => {
                assert(tag & 0x0fff == tag % 4096) by (bit_vector);
                Some(tag & 0x0fff)
            },
            None => None,
        }
    }

    /// The frame as bytes on the wire.
    #[must_use]
    pub fn encode(&self) -> (bytes: Vec<u8>)
        ensures
            bytes@ == self@.encoded(),
    {
        let mut out: Vec<u8> = Vec::with_capacity(HEADER + 4);
        push_all(&mut out, self.destination.0.as_slice());
        push_all(&mut out, self.source.0.as_slice());
        if let Some(tag) = self.tag {
            push_be(&mut out, TAG_PROTOCOL);
            push_be(&mut out, tag);
        }
        push_be(&mut out, self.ethertype);
        push_all(&mut out, self.payload.as_slice());
        out
    }

    /// The frame `bytes` carry.
    ///
    /// # Errors
    /// Shorter than a header, a tag with nothing after it, or an 802.3
    /// length where an `EtherType` belongs.
    pub fn decode(bytes: &[u8]) -> (frame: Result<Frame, TransportError>)
        ensures
            crate::error::outcome(frame) == FrameModel::decoded(bytes@),
    {
        if bytes.len() < HEADER {
            return Err(TransportError::ShortHeader);
        }
        let destination = read_address(bytes, 0);
        let source = read_address(bytes, 6);
        let mut at: usize = 12;
        let mut tag: Option<u16> = None;
        let mut ethertype: u16 = read_be(bytes, 12);
        if ethertype == TAG_PROTOCOL {
            if bytes.len() < HEADER + 4 {
                return Err(TransportError::BareTag);
            }
            tag = Some(read_be(bytes, 14));
            ethertype = read_be(bytes, 16);
            at = 16;
        }
        if ethertype < FIRST_ETHERTYPE {
            return Err(TransportError::LengthForType);
        }
        let payload = slice_to_vec(slice_subrange(bytes, at + 2, bytes.len()));
        Ok(Frame { destination, source, tag, ethertype, payload })
    }

    /// `ethernet://<link>/<source>?type=0x<ethertype>`: where a frame came
    /// from.
    #[must_use]
    pub fn origin(&self, link: &str) -> (uri: String)
        ensures
            uri@ == self@.origin(link@),
    {
        let mut uri = String::new();
        uri.append("ethernet://");
        uri.append(link);
        uri.append("/");
        uri.append(self.source.to_string().as_str());
        uri.append("?type=0x");
        push_hex_quad(&mut uri, self.ethertype);
        uri
    }
}

impl Clone for Frame {
    /// The same frame, its payload copied.
    fn clone(&self) -> (frame: Frame)
        ensures
            frame@ == self@,
    {
        Frame {
            destination: self.destination,
            source: self.source,
            tag: self.tag,
            ethertype: self.ethertype,
            payload: slice_to_vec(self.payload.as_slice()),
        }
    }
}

} // verus!
