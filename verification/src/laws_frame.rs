//! What a frame is on the wire, byte by byte, and what is refused.

use vstd::prelude::*;

use crate::error::{Fault, TransportError};
use crate::frame::{Frame, FrameModel};
use crate::mac::Mac;

verus! {

/// The numbers that Ethernet and this transport go by.
pub proof fn law_the_numbers()
    ensures
        crate::frame::MTU == 1500,
        crate::frame::JUMBO_MTU == 9000,
        crate::frame::MIN_PAYLOAD == 46,
        crate::frame::XMIP_ETHERTYPE == 0x88b5,
        crate::frame::TAG_PROTOCOL == 0x8100,
        crate::frame::FIRST_ETHERTYPE == 0x0600,
        crate::frame::HEADER == 14,
{
}

/// A frame is its five fields.
pub proof fn law_a_frame_is_its_fields(frame: Frame)
    ensures
        frame@.destination == frame.destination,
        frame@.source == frame.source,
        frame@.tag == frame.tag,
        frame@.ethertype == frame.ethertype,
        frame@.payload == frame.payload@,
{
}

/// The sixteen bits at `at` on the wire, the first byte the more
/// significant.
pub open spec fn word(bytes: Seq<u8>, at: int) -> int {
    bytes[at] * 256 + bytes[at + 1]
}

/// On the wire the destination comes first and then the source, each first
/// byte first; then the tag, where there is one, behind the tag protocol
/// identifier; then the `EtherType`; and then the payload, to the end.
pub proof fn law_each_byte_on_the_wire(frame: Frame)
    ensures
        forall|i: int|
            0 <= i < 6 ==> #[trigger] frame@.encoded()[i] == frame.destination.0@[i],
        forall|i: int|
            0 <= i < 6 ==> frame@.encoded()[6 + i] == #[trigger] frame.source.0@[i],
        frame.tag is None ==> {
            &&& frame@.encoded().len() == 14 + frame.payload@.len()
            &&& word(frame@.encoded(), 12) == frame.ethertype
            &&& forall|i: int|
                0 <= i < frame.payload@.len() ==> frame@.encoded()[14 + i]
                    == #[trigger] frame.payload@[i]
        },
        frame.tag matches Some(tag) ==> {
            &&& frame@.encoded().len() == 18 + frame.payload@.len()
            &&& frame@.encoded()[12] == 0x81
            &&& frame@.encoded()[13] == 0x00
            &&& word(frame@.encoded(), 14) == tag
            &&& word(frame@.encoded(), 16) == frame.ethertype
            &&& forall|i: int|
                0 <= i < frame.payload@.len() ==> frame@.encoded()[18 + i]
                    == #[trigger] frame.payload@[i]
        },
{
}

/// Of bytes that carry a frame, the first six are its destination and the
/// next six its source, first byte first; the tag, the `EtherType` and the
/// payload follow.
pub proof fn law_each_field_off_the_wire(bytes: Seq<u8>, frame: FrameModel)
    requires
        FrameModel::decoded(bytes) == Ok::<FrameModel, Fault>(frame),
    ensures
        bytes.len() >= 14,
        forall|i: int| 0 <= i < 6 ==> #[trigger] frame.destination.0@[i] == bytes[i],
        forall|i: int| 0 <= i < 6 ==> #[trigger] frame.source.0@[i] == bytes[6 + i],
        word(bytes, 12) != 0x8100 ==> {
            &&& frame.tag is None
            &&& frame.ethertype == word(bytes, 12)
            &&& frame.payload == bytes.subrange(14, bytes.len() as int)
        },
        word(bytes, 12) == 0x8100 ==> {
            &&& bytes.len() >= 18
            &&& frame.tag is Some
            &&& frame.tag->0 == word(bytes, 14)
            &&& frame.ethertype == word(bytes, 16)
            &&& frame.payload == bytes.subrange(18, bytes.len() as int)
        },
{
}

/// Bytes shorter than a header, a tag with nothing after it and a length in
/// place of an `EtherType` are refused, each as what it is, and no others.
pub proof fn law_what_carries_no_frame(bytes: Seq<u8>)
    ensures
        FrameModel::decoded(bytes) == Err::<FrameModel, Fault>(Fault::ShortHeader) <==> bytes.len()
            < 14,
        FrameModel::decoded(bytes) == Err::<FrameModel, Fault>(Fault::BareTag) <==> 14
            <= bytes.len() < 18 && word(bytes, 12) == 0x8100,
        FrameModel::decoded(bytes) == Err::<FrameModel, Fault>(Fault::LengthForType) <==> (14
            <= bytes.len() && word(bytes, 12) < 0x0600 || 18 <= bytes.len() && word(bytes, 12)
            == 0x8100 && word(bytes, 16) < 0x0600),
        FrameModel::decoded(bytes) is Ok <==> (14 <= bytes.len() && word(bytes, 12) >= 0x0600
            && word(bytes, 12) != 0x8100 || 18 <= bytes.len() && word(bytes, 12) == 0x8100
            && word(bytes, 16) >= 0x0600),
{
}

/// A new frame holds what it was made of and no tag; a payload over a jumbo
/// frame's and a length in place of an `EtherType` are refused, and nothing
/// else is.
pub proof fn law_a_new_frame_is_its_parts(
    destination: Mac,
    source: Mac,
    ethertype: u16,
    payload: Seq<u8>,
)
    ensures
        payload.len() > 9000 ==> FrameModel::made(destination, source, ethertype, payload) == Err::<
            FrameModel,
            Fault,
        >(Fault::OverJumbo { bytes: payload.len() as usize }),
        payload.len() <= 9000 && ethertype < 0x0600 ==> FrameModel::made(
            destination,
            source,
            ethertype,
            payload,
        ) == Err::<FrameModel, Fault>(Fault::LengthForType),
        payload.len() <= 9000 && ethertype >= 0x0600 ==> {
            &&& FrameModel::made(destination, source, ethertype, payload) matches Ok(frame)
            &&& frame.destination == destination
            &&& frame.source == source
            &&& frame.tag is None
            &&& frame.ethertype == ethertype
            &&& frame.payload == payload
        },
{
}

/// The VLAN is the tag under a mask of twelve bits.
pub proof fn law_the_vlan_is_under_the_mask(frame: Frame)
    ensures
        frame.tag is None ==> frame@.vlan() is None,
        frame.tag matches Some(tag) ==> frame@.vlan() == Some(tag & 0x0fff),
{
    if let Some(tag) = frame.tag {
        assert(tag & 0x0fff == tag % 4096) by (bit_vector);
    }
}

/// An error is seen as the kind it is, with the numbers and the text that it
/// holds.
pub proof fn law_an_error_is_seen_as_it_is(error: TransportError)
    ensures
        match error {
            TransportError::OverJumbo { bytes } => error@ == (Fault::OverJumbo { bytes }),
            TransportError::OverMtu { bytes, mtu } => error@ == (Fault::OverMtu { bytes, mtu }),
            TransportError::LengthForType => error@ == Fault::LengthForType,
            TransportError::ShortHeader => error@ == Fault::ShortHeader,
            TransportError::BareTag => error@ == Fault::BareTag,
            TransportError::NotAMac { text } => error@ == (Fault::NotAMac { text: text@ }),
            TransportError::Quiet => error@ == Fault::Quiet,
            TransportError::Link { message } => error@ == (Fault::Link { message: message@ }),
        },
{
}

/// A result is seen as the value it holds or as its error.
pub proof fn law_a_result_is_seen_as_it_is<T: View>(value: T, error: TransportError)
    ensures
        crate::error::outcome::<T>(Ok(value)) == Ok::<T::V, Fault>(value@),
        crate::error::outcome::<T>(Err(error)) == Err::<T::V, Fault>(error@),
{
}

/// An address is seen as itself.
pub proof fn law_an_address_is_seen_as_it_is(mac: Mac)
    ensures
        mac@ == mac,
{
}

} // verus!
