//! What holds of the library as a whole, over the models that the contracts
//! of its functions speak of.

use std::time::Duration;

use vstd::prelude::*;

use crate::error::Fault;
use crate::frame::{FrameModel, FIRST_ETHERTYPE, TAG_PROTOCOL};
use crate::laws_text::{law_the_text_of_an_address, law_the_usual_text_is_read};
use crate::laws_transport::lemma_a_target_names_a_text;
use crate::link::{Link, Loopback};
use crate::mac::Mac;
use crate::transport::{ArrivedModel, TransportModel};

verus! {

/// A frame that the wire tells apart: an `EtherType` and no length, and, in
/// a frame without a tag, none that says that a tag follows.
pub open spec fn told_apart(frame: FrameModel) -> bool {
    &&& frame.ethertype >= FIRST_ETHERTYPE
    &&& frame.tag is None ==> frame.ethertype != TAG_PROTOCOL
}

/// A frame read off the bytes it was written as is the frame.
pub proof fn law_decode_reads_what_encode_wrote(frame: FrameModel)
    requires
        told_apart(frame),
    ensures
        FrameModel::decoded(frame.encoded()) == Ok::<FrameModel, Fault>(frame),
{
    let bytes = frame.encoded();
    let Mac(destination) = crate::frame::mac_at(bytes, 0);
    let Mac(source) = crate::frame::mac_at(bytes, 6);
    assert(destination =~= frame.destination.0);
    assert(source =~= frame.source.0);
    match frame.tag {
        Some(tag) => {
            assert(crate::frame::be_at(bytes, 12) == TAG_PROTOCOL);
            assert(crate::frame::be_at(bytes, 14) == tag);
            assert(crate::frame::be_at(bytes, 16) == frame.ethertype);
            assert(bytes.skip(18) =~= frame.payload);
        },
        None => {
            assert(crate::frame::be_at(bytes, 12) == frame.ethertype);
            assert(bytes.skip(14) =~= frame.payload);
        },
    }
}

/// Bytes that carry a frame are the bytes the frame is written as, and the
/// wire tells the frame apart.
pub proof fn law_encode_writes_what_decode_read(bytes: Seq<u8>, frame: FrameModel)
    requires
        FrameModel::decoded(bytes) == Ok::<FrameModel, Fault>(frame),
    ensures
        frame.encoded() == bytes,
        told_apart(frame),
{
    assert(frame.encoded() =~= bytes);
}

/// Bytes carry a frame exactly where they are what some frame, told apart by
/// the wire, is written as.
pub proof fn law_decode_accepts_what_encode_writes(bytes: Seq<u8>)
    ensures
        FrameModel::decoded(bytes) is Ok <==> exists|frame: FrameModel|
            told_apart(frame) && #[trigger] frame.encoded() == bytes,
{
    if let Ok(frame) = FrameModel::decoded(bytes) {
        law_encode_writes_what_decode_read(bytes, frame);
    }
    if exists|frame: FrameModel| told_apart(frame) && #[trigger] frame.encoded() == bytes {
        let frame = choose|frame: FrameModel|
            told_apart(frame) && #[trigger] frame.encoded() == bytes;
        law_decode_reads_what_encode_wrote(frame);
    }
}

/// No two frames that the wire tells apart are written alike.
pub proof fn law_encoding_is_its_own(frame: FrameModel, other: FrameModel)
    requires
        told_apart(frame),
        told_apart(other),
        frame.encoded() == other.encoded(),
    ensures
        frame == other,
{
    law_decode_reads_what_encode_wrote(frame);
    law_decode_reads_what_encode_wrote(other);
}

/// The wire carries a header of fourteen bytes, four more for a tag, and the
/// payload.
pub proof fn law_encoded_length(frame: FrameModel)
    ensures
        frame.encoded().len() == 14 + (if frame.tag is Some {
            4int
        } else {
            0
        }) + frame.payload.len(),
{
}

/// The VLAN of a frame under a tag is the low twelve bits of the tag.
pub proof fn law_vlan_fits_twelve_bits(frame: FrameModel)
    ensures
        frame.vlan() is Some <==> frame.tag is Some,
        frame.vlan() matches Some(vlan) ==> vlan < 4096,
{
}

/// A text has at least one field.
proof fn lemma_a_text_has_a_field(text: Seq<char>)
    ensures
        crate::mac::fields(text).len() >= 1,
    decreases text.len(),
{
    if text.len() > 0 {
        lemma_a_text_has_a_field(text.drop_last());
    }
}

/// An address is read back from the text it is written as.
pub proof fn law_mac_reads_what_it_writes(mac: Mac)
    ensures
        crate::mac::mac_of(mac.text()) == Some(mac),
{
    law_the_text_of_an_address(mac);
    law_the_usual_text_is_read(mac.text(), mac);
}

/// An address is written in seventeen characters, and no two addresses are
/// written alike.
pub proof fn law_mac_text_is_its_own(mac: Mac, other: Mac)
    ensures
        mac.text().len() == 17,
        mac.text() == other.text() ==> mac == other,
{
    law_the_text_of_an_address(mac);
    law_mac_reads_what_it_writes(mac);
    law_mac_reads_what_it_writes(other);
}

/// `text` with a dash for each colon.
pub open spec fn dashed(text: Seq<char>) -> Seq<char> {
    text.map_values(
        |c: char|
            if c == ':' {
                '-'
            } else {
                c
            },
    )
}

proof fn lemma_dashed_fields(text: Seq<char>)
    ensures
        crate::mac::fields(dashed(text)) == crate::mac::fields(text),
    decreases text.len(),
{
    if text.len() > 0 {
        lemma_dashed_fields(text.drop_last());
        assert(dashed(text).drop_last() =~= dashed(text.drop_last()));
    } else {
        assert(dashed(text) =~= text);
    }
}

/// An address reads the same with dashes as with colons, and what is none
/// with colons is none with dashes.
pub proof fn law_mac_reads_dashes_as_colons(text: Seq<char>)
    ensures
        crate::mac::mac_of(dashed(text)) == crate::mac::mac_of(text),
{
    lemma_dashed_fields(text);
}

/// The lower-case letter for a hexadecimal digit, anything else as it is.
pub open spec fn lower(c: char) -> char {
    if 'A' <= c <= 'F' {
        (c as nat + 32) as char
    } else {
        c
    }
}

/// `text` with its hexadecimal digits in lower case.
pub open spec fn lowered(text: Seq<char>) -> Seq<char> {
    text.map_values(|c: char| lower(c))
}

proof fn lemma_lowered_fields(text: Seq<char>)
    ensures
        crate::mac::fields(lowered(text)).len() == crate::mac::fields(text).len(),
        forall|i: int|
            0 <= i < crate::mac::fields(text).len() ==> #[trigger] crate::mac::fields(
                lowered(text),
            )[i] == lowered(crate::mac::fields(text)[i]),
    decreases text.len(),
{
    lemma_a_text_has_a_field(text);
    if text.len() > 0 {
        let init = text.drop_last();
        lemma_lowered_fields(init);
        lemma_a_text_has_a_field(init);
        assert(lowered(text).drop_last() =~= lowered(init));
        let before = crate::mac::fields(init);
        assert(lowered(before.last().push(text.last())) =~= lowered(before.last()).push(
            lower(text.last()),
        ));
        assert(crate::mac::is_separator(lower(text.last())) == crate::mac::is_separator(
            text.last(),
        ));
    }
    assert(lowered(Seq::<char>::empty()) =~= Seq::<char>::empty());
    if text.len() == 0 {
        assert(lowered(text) =~= text);
    }
}

proof fn lemma_lowered_number(digits: Seq<char>)
    ensures
        crate::text::hex_number(lowered(digits)) == crate::text::hex_number(digits),
    decreases digits.len(),
{
    if digits.len() > 0 {
        lemma_lowered_number(digits.drop_last());
        assert(lowered(digits).drop_last() =~= lowered(digits.drop_last()));
    }
}

proof fn lemma_lowered_byte(field: Seq<char>)
    ensures
        crate::text::hex_byte(lowered(field)) == crate::text::hex_byte(field),
{
    let digits = crate::text::unsigned(field);
    assert(crate::text::unsigned(lowered(field)) =~= lowered(digits));
    lemma_lowered_number(digits);
    assert forall|i: int| 0 <= i < digits.len() implies crate::text::hex_value(
        #[trigger] lowered(digits)[i],
    ) == crate::text::hex_value(digits[i]) by {}
    if crate::text::all_hex(lowered(digits)) {
        assert forall|i: int| 0 <= i < digits.len() implies crate::text::hex_value(
            #[trigger] digits[i],
        ) is Some by {
            assert(crate::text::hex_value(lowered(digits)[i]) is Some);
        }
    }
}

/// An address reads the same in either case.
pub proof fn law_mac_reads_either_case(text: Seq<char>)
    ensures
        crate::mac::mac_of(lowered(text)) == crate::mac::mac_of(text),
{
    lemma_lowered_fields(text);
    let parts = crate::mac::fields(text);
    assert forall|i: int| 0 <= i < parts.len() implies crate::text::hex_byte(
        #[trigger] crate::mac::fields(lowered(text))[i],
    ) == crate::text::hex_byte(parts[i]) by {
        lemma_lowered_byte(parts[i]);
    }
    if crate::mac::mac_of(lowered(text)) is Some {
        assert forall|i: int| 0 <= i < 6 implies crate::text::hex_byte(
            #[trigger] parts[i],
        ) is Some by {
            assert(crate::text::hex_byte(crate::mac::fields(lowered(text))[i]) is Some);
        }
    }
}

/// `wires` is one in-process wire over time, each of `frames` put on it in
/// turn.
pub open spec fn put_on(wires: Seq<Loopback>, frames: Seq<FrameModel>) -> bool {
    &&& wires.len() == frames.len() + 1
    &&& forall|i: int|
        0 <= i < frames.len() ==> (#[trigger] wires[i]).transmits(frames[i], Ok(()), &wires[i + 1])
}

/// `wires` is one in-process wire over time, asked for a frame again and
/// again, each time with a timeout and with what it then said.
pub open spec fn taken_off(
    wires: Seq<Loopback>,
    timeouts: Seq<Duration>,
    results: Seq<Result<Option<FrameModel>, Fault>>,
) -> bool {
    &&& wires.len() == results.len() + 1
    &&& timeouts.len() == results.len()
    &&& forall|i: int|
        0 <= i < results.len() ==> (#[trigger] wires[i]).receives(
            timeouts[i],
            results[i],
            &wires[i + 1],
        )
}

proof fn lemma_put_on(wires: Seq<Loopback>, frames: Seq<FrameModel>, n: int)
    requires
        put_on(wires, frames),
        0 <= n <= frames.len(),
    ensures
        wires[n]@ == wires[0]@ + frames.take(n),
    decreases n,
{
    if n > 0 {
        lemma_put_on(wires, frames, n - 1);
        assert(wires[n - 1].transmits(frames[n - 1], Ok(()), &wires[n - 1 + 1]));
        assert(frames.take(n) =~= frames.take(n - 1).push(frames[n - 1]));
    }
    assert(wires[n]@ =~= wires[0]@ + frames.take(n));
}

proof fn lemma_taken_off(
    wires: Seq<Loopback>,
    timeouts: Seq<Duration>,
    results: Seq<Result<Option<FrameModel>, Fault>>,
    n: int,
)
    requires
        taken_off(wires, timeouts, results),
        0 <= n <= results.len(),
    ensures
        wires[n]@ == (if n <= wires[0]@.len() {
            wires[0]@.skip(n)
        } else {
            Seq::empty()
        }),
    decreases n,
{
    if n > 0 {
        lemma_taken_off(wires, timeouts, results, n - 1);
        assert(wires[n - 1].receives(timeouts[n - 1], results[n - 1], &wires[n - 1 + 1]));
    }
    assert(wires[n]@ =~= if n <= wires[0]@.len() {
        wires[0]@.skip(n)
    } else {
        Seq::empty()
    });
}

/// What is transmitted on an in-process wire is received, in order and
/// whole, behind what was already on it, and then the wire is quiet.
pub proof fn law_wire_carries_in_order(
    near: Seq<Loopback>,
    frames: Seq<FrameModel>,
    far: Seq<Loopback>,
    timeouts: Seq<Duration>,
    results: Seq<Result<Option<FrameModel>, Fault>>,
)
    requires
        put_on(near, frames),
        taken_off(far, timeouts, results),
        far[0]@ == near.last()@,
    ensures
        forall|i: int|
            0 <= i < results.len() ==> #[trigger] results[i] == Ok::<Option<FrameModel>, Fault>(
                if i < near[0]@.len() {
                    Some(near[0]@[i])
                } else if i < near[0]@.len() + frames.len() {
                    Some(frames[i - near[0]@.len()])
                } else {
                    None
                },
            ),
{
    lemma_put_on(near, frames, frames.len() as int);
    assert(frames.take(frames.len() as int) =~= frames);
    assert forall|i: int| 0 <= i < results.len() implies #[trigger] results[i] == Ok::<
        Option<FrameModel>,
        Fault,
    >(
        if i < near[0]@.len() {
            Some(near[0]@[i])
        } else if i < near[0]@.len() + frames.len() {
            Some(frames[i - near[0]@.len()])
        } else {
            None
        },
    ) by {
        lemma_taken_off(far, timeouts, results, i);
        assert(far[i].receives(timeouts[i], results[i], &far[i + 1]));
    }
}

/// Whatever a transport is asked, only its link changes: its addresses, its
/// `EtherType`, its ceiling and its timeout stay.
pub proof fn law_only_the_link_changes<L: Link>(
    before: TransportModel<L>,
    destination: Mac,
    target: Seq<char>,
    bytes: Seq<u8>,
    sent: Result<(), Fault>,
    received: Result<Option<ArrivedModel>, Fault>,
    returned: Result<ArrivedModel, Fault>,
    after: TransportModel<L>,
)
    requires
        ({
            ||| before.transmits(destination, bytes, sent, after)
            ||| before.sends(target, bytes, sent, after)
            ||| before.receives(received, after)
            ||| before.reads_back(returned, after)
            ||| before.rounds(bytes, returned, after)
        }),
    ensures
        after == before.on(after.link),
        before.valid() ==> after.valid(),
{
}

/// Within its ceiling, under an `EtherType`, a transport frames every
/// payload, and over its ceiling none: the ceiling is all that it refuses a
/// payload for.
pub proof fn law_the_mtu_is_the_ceiling<L: Link>(
    transport: TransportModel<L>,
    destination: Mac,
    bytes: Seq<u8>,
)
    requires
        transport.valid(),
    ensures
        bytes.len() > transport.mtu ==> transport.framed(destination, bytes) == Err::<
            FrameModel,
            Fault,
        >(Fault::OverMtu { bytes: bytes.len() as usize, mtu: transport.mtu }),
        bytes.len() <= transport.mtu ==> (transport.framed(destination, bytes) is Ok
            <==> transport.ethertype >= FIRST_ETHERTYPE),
        bytes.len() <= transport.mtu && transport.ethertype < FIRST_ETHERTYPE
            ==> transport.framed(destination, bytes) == Err::<FrameModel, Fault>(
            Fault::LengthForType,
        ),
{
}

/// A send to a transport's own target goes to the transport's own
/// destination. The name of the link has no slash, which would end it in
/// the target.
pub proof fn law_own_target_is_own_destination<L: Link>(transport: TransportModel<L>)
    requires
        !transport.link.label().contains('/'),
    ensures
        transport.destination_named(crate::transport::named_in(transport.target())) == Ok::<
            Mac,
            Fault,
        >(transport.destination),
{
    lemma_a_target_names_a_text(transport.link.label(), transport.destination.text());
    law_mac_text_is_its_own(transport.destination, transport.destination);
    law_mac_reads_what_it_writes(transport.destination);
}

/// A Stream over the ceiling is refused, and nothing goes on the link.
pub proof fn law_round_refuses_over_the_ceiling<L: Link>(
    before: TransportModel<L>,
    payload: Seq<u8>,
    result: Result<ArrivedModel, Fault>,
    after: TransportModel<L>,
)
    requires
        before.rounds(payload, result, after),
        !before.link.label().contains('/'),
        payload.len() > before.mtu,
    ensures
        result == Err::<ArrivedModel, Fault>(
            Fault::OverMtu { bytes: payload.len() as usize, mtu: before.mtu },
        ),
        after == before,
{
    law_own_target_is_own_destination(before);
}

/// A Stream transmitted on a quiet in-process wire is the Stream received
/// from it, whole and of the transmitter's origin, and the wire is quiet
/// again.
pub proof fn law_loopback_receives_what_was_transmitted(
    before: TransportModel<Loopback>,
    destination: Mac,
    bytes: Seq<u8>,
    sent: Result<(), Fault>,
    between: TransportModel<Loopback>,
    received: Result<Option<ArrivedModel>, Fault>,
    after: TransportModel<Loopback>,
)
    requires
        before.valid(),
        before.ethertype >= FIRST_ETHERTYPE,
        bytes.len() <= before.mtu,
        before.link@.len() == 0,
        before.transmits(destination, bytes, sent, between),
        between.receives(received, after),
    ensures
        sent is Ok,
        received == Ok::<Option<ArrivedModel>, Fault>(
            Some(
                ArrivedModel {
                    origin_uri: "ethernet://"@ + "loopback"@ + "/"@ + before.source.text()
                        + "?type=0x"@ + crate::text::hex_quad(before.ethertype),
                    bytes,
                },
            ),
        ),
        after.link@.len() == 0,
        after == before.on(after.link),
{
}

/// A Stream within the ceiling comes back from a round over a quiet
/// in-process wire, as one frame, whole, and the wire is quiet again.
pub proof fn law_loopback_round_returns_the_stream(
    before: TransportModel<Loopback>,
    payload: Seq<u8>,
    result: Result<ArrivedModel, Fault>,
    after: TransportModel<Loopback>,
)
    requires
        before.valid(),
        before.ethertype >= FIRST_ETHERTYPE,
        payload.len() <= before.mtu,
        before.link@.len() == 0,
        before.rounds(payload, result, after),
    ensures
        result == Ok::<ArrivedModel, Fault>(
            ArrivedModel {
                origin_uri: "ethernet://"@ + "loopback"@ + "/"@ + before.source.text()
                    + "?type=0x"@ + crate::text::hex_quad(before.ethertype),
                bytes: payload,
            },
        ),
        after.link@.len() == 0,
        after == before.on(after.link),
{
    reveal_strlit("loopback");
    law_own_target_is_own_destination(before);
    let (sent, between) = choose|sent: Result<(), Fault>, between: TransportModel<Loopback>|
        #[trigger] before.sends(before.target(), payload, sent, between) && match sent {
            Err(fault) => result == Err::<ArrivedModel, Fault>(fault) && after == between,
            Ok(_) => between.reads_back(result, after),
        };
    let arrival = choose|arrival: Result<Option<ArrivedModel>, Fault>| #[trigger]
        between.receives(arrival, after) && result == crate::transport::due(arrival);
    assert(before.transmits(before.destination, payload, sent, between));
    law_loopback_receives_what_was_transmitted(
        before,
        before.destination,
        payload,
        sent,
        between,
        arrival,
        after,
    );
}

} // verus!
