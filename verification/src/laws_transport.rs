//! What goes on a link and what comes off it as a Stream, field by field.

use std::time::Duration;

use vstd::prelude::*;

use crate::error::{Fault, TransportError};
use crate::frame::{Frame, FrameModel};
use crate::laws_text::law_an_origin_names_link_source_and_type;
use crate::link::{Link, Loopback};
use crate::mac::Mac;
use crate::transport::{Arrived, ArrivedModel, TransportModel};

verus! {

/// The in-process wire is named `loopback`, takes every frame behind those
/// that are on it, and gives the first of them, or nothing where there is
/// none, whatever the timeout.
pub proof fn law_the_wire_step_by_step(
    wire: Loopback,
    frame: FrameModel,
    sent: Result<(), Fault>,
    timeout: Duration,
    said: Result<Option<FrameModel>, Fault>,
    after: Loopback,
)
    ensures
        wire.label() == "loopback"@,
        wire.transmits(frame, sent, &after) ==> sent is Ok && after@ == wire@ + seq![frame],
        wire.receives(timeout, said, &after) && wire@.len() == 0 ==> said == Ok::<
            Option<FrameModel>,
            Fault,
        >(None) && after@ == wire@,
        wire.receives(timeout, said, &after) && wire@.len() > 0 ==> said == Ok::<
            Option<FrameModel>,
            Fault,
        >(Some(wire@[0])) && wire@ == seq![wire@[0]] + after@,
{
    if wire.transmits(frame, sent, &after) {
        assert(after@ =~= wire@ + seq![frame]);
    }
    if wire.receives(timeout, said, &after) && wire@.len() > 0 {
        assert(wire@ =~= seq![wire@[0]] + after@);
    }
}

/// A Stream that arrived is its origin and its bytes, and what a link or a
/// transport says is seen as what it holds.
pub proof fn law_what_is_said_is_seen_as_it_is(
    frame: Frame,
    arrived: Arrived,
    error: TransportError,
)
    ensures
        arrived@.origin_uri == arrived.origin_uri@,
        arrived@.bytes == arrived.bytes@,
        crate::link::heard(Ok(Some(frame))) == Ok::<Option<FrameModel>, Fault>(Some(frame@)),
        crate::link::heard(Ok(None)) == Ok::<Option<FrameModel>, Fault>(None),
        crate::link::heard(Err(error)) == Err::<Option<FrameModel>, Fault>(error@),
        crate::transport::arrival(Ok(Some(arrived))) == Ok::<Option<ArrivedModel>, Fault>(
            Some(arrived@),
        ),
        crate::transport::arrival(Ok(None)) == Ok::<Option<ArrivedModel>, Fault>(None),
        crate::transport::arrival(Err(error)) == Err::<Option<ArrivedModel>, Fault>(error@),
{
}

/// `arrived` is the Stream of `frame` from the link named `label`: the
/// payload, and an origin that names the link, the source and the four
/// digits of the `EtherType`.
pub open spec fn is_stream_of(arrived: ArrivedModel, frame: FrameModel, label: Seq<char>) -> bool {
    &&& arrived.bytes == frame.payload
    &&& arrived.origin_uri == "ethernet://"@ + label + "/"@ + frame.source.text() + "?type=0x"@
        + seq![
        "0123456789abcdef"@[(frame.ethertype / 4096) as int],
        "0123456789abcdef"@[(frame.ethertype / 256 % 16) as int],
        "0123456789abcdef"@[(frame.ethertype / 16 % 16) as int],
        "0123456789abcdef"@[(frame.ethertype % 16) as int],
    ]
}

/// Every frame, with a tag or without one and on a link of any name, is a
/// Stream; nothing is nothing; an error is passed on.
pub proof fn law_every_frame_is_a_stream(frame: Frame, error: TransportError, label: Seq<char>)
    ensures
        crate::transport::arrival_of(crate::link::heard(Ok(Some(frame))), label) matches Ok(
            Some(arrived),
        ) && is_stream_of(arrived, frame@, label),
        crate::transport::arrival_of(crate::link::heard(Ok(None)), label) == Ok::<
            Option<ArrivedModel>,
            Fault,
        >(None),
        crate::transport::arrival_of(crate::link::heard(Err(error)), label) == Err::<
            Option<ArrivedModel>,
            Fault,
        >(error@),
{
    law_an_origin_names_link_source_and_type(frame, label);
}

/// `after` is `before` in everything but its link.
pub open spec fn same_but_for_the_link<L>(
    before: TransportModel<L>,
    after: TransportModel<L>,
) -> bool {
    &&& after.source == before.source
    &&& after.destination == before.destination
    &&& after.ethertype == before.ethertype
    &&& after.mtu == before.mtu
    &&& after.timeout == before.timeout
}

/// A receive asks the link once, for as long as the timeout; whatever frame
/// the link gives is the Stream that is received, nothing only where the
/// link gave nothing, and an error only where the link gave one.
pub proof fn law_a_receive_gives_what_the_link_gave<L: Link>(
    before: TransportModel<L>,
    result: Result<Option<ArrivedModel>, Fault>,
    after: TransportModel<L>,
)
    requires
        before.receives(result, after),
    ensures
        same_but_for_the_link(before, after),
        exists|said: Result<Option<FrameModel>, Fault>| #[trigger]
            before.link.receives(before.timeout, said, &after.link) && match said {
                Ok(Some(frame)) => result matches Ok(Some(arrived)) && is_stream_of(
                    arrived,
                    frame,
                    after.link.label(),
                ),
                Ok(None) => result == Ok::<Option<ArrivedModel>, Fault>(None),
                Err(fault) => result == Err::<Option<ArrivedModel>, Fault>(fault),
            },
{
    let said = choose|said: Result<Option<FrameModel>, Fault>| #[trigger]
        before.link.receives(before.timeout, said, &after.link) && result
            == crate::transport::arrival_of(said, after.link.label());
    if let Ok(Some(frame)) = said {
        lemma_origin_of_a_model(frame, after.link.label());
    }
    assert(before.link.receives(before.timeout, said, &after.link));
}

proof fn lemma_origin_of_a_model(frame: FrameModel, label: Seq<char>)
    ensures
        is_stream_of(
            ArrivedModel { origin_uri: frame.origin(label), bytes: frame.payload },
            frame,
            label,
        ),
{
    let plain = Frame {
        destination: frame.destination,
        source: frame.source,
        tag: frame.tag,
        ethertype: frame.ethertype,
        payload: arbitrary(),
    };
    law_an_origin_names_link_source_and_type(plain, label);
}

/// A read-back is a receive in which nothing is an error: the Stream of the
/// frame that the link gave, and `Quiet` exactly where it gave none.
pub proof fn law_a_read_back_gives_what_the_link_gave<L: Link>(
    before: TransportModel<L>,
    result: Result<ArrivedModel, Fault>,
    after: TransportModel<L>,
)
    requires
        before.reads_back(result, after),
    ensures
        taken_off_the_link(before, result, after),
{
    let arrival = choose|arrival: Result<Option<ArrivedModel>, Fault>| #[trigger]
        before.receives(arrival, after) && result == crate::transport::due(arrival);
    law_a_receive_gives_what_the_link_gave(before, arrival, after);
}

/// The untagged frame that carries `bytes` from a transport to
/// `destination`.
pub open spec fn plain_frame<L>(
    transport: TransportModel<L>,
    destination: Mac,
    bytes: Seq<u8>,
) -> FrameModel {
    FrameModel {
        destination,
        source: transport.source,
        tag: None,
        ethertype: transport.ethertype,
        payload: bytes,
    }
}

/// What a transport frames for a destination has no tag, that destination,
/// the transport's source and `EtherType`, and the bytes as given; a payload
/// over the ceiling and a length in place of an `EtherType` are refused.
pub proof fn law_a_framed_stream_is_its_parts<L: Link>(
    transport: TransportModel<L>,
    destination: Mac,
    bytes: Seq<u8>,
)
    requires
        transport.mtu == 1500 || transport.mtu == 9000,
    ensures
        bytes.len() > transport.mtu ==> transport.framed(destination, bytes) == Err::<
            FrameModel,
            Fault,
        >(Fault::OverMtu { bytes: bytes.len() as usize, mtu: transport.mtu }),
        bytes.len() <= transport.mtu && transport.ethertype < 0x0600 ==> transport.framed(
            destination,
            bytes,
        ) == Err::<FrameModel, Fault>(Fault::LengthForType),
        bytes.len() <= transport.mtu && transport.ethertype >= 0x0600 ==> transport.framed(
            destination,
            bytes,
        ) == Ok::<FrameModel, Fault>(plain_frame(transport, destination, bytes)),
{
}

/// `bytes` went on the link of `before` as one untagged frame to
/// `destination`, and `result` is what the link said; or they are over the
/// ceiling, or under a length in place of an `EtherType`, and were refused
/// with nothing changed.
pub open spec fn put_on_the_link<L: Link>(
    before: TransportModel<L>,
    destination: Mac,
    bytes: Seq<u8>,
    result: Result<(), Fault>,
    after: TransportModel<L>,
) -> bool {
    &&& same_but_for_the_link(before, after)
    &&& bytes.len() > before.mtu ==> after == before && result == Err::<(), Fault>(
        Fault::OverMtu { bytes: bytes.len() as usize, mtu: before.mtu },
    )
    &&& bytes.len() <= before.mtu && before.ethertype < 0x0600 ==> after == before && result
        == Err::<(), Fault>(Fault::LengthForType)
    &&& bytes.len() <= before.mtu && before.ethertype >= 0x0600 ==> before.link.transmits(
        plain_frame(before, destination, bytes),
        result,
        &after.link,
    )
}

/// A transmit puts one untagged frame of its parts on the link and says what
/// the link said; what is over the ceiling, or under a length in place of an
/// `EtherType`, is refused and nothing changes.
pub proof fn law_a_transmit_puts_one_plain_frame<L: Link>(
    before: TransportModel<L>,
    destination: Mac,
    bytes: Seq<u8>,
    result: Result<(), Fault>,
    after: TransportModel<L>,
)
    requires
        before.mtu == 1500 || before.mtu == 9000,
        before.transmits(destination, bytes, result, after),
    ensures
        put_on_the_link(before, destination, bytes, result, after),
{
}

/// In `ethernet://<link>/<mac>` the destination is what follows the first
/// slash behind the scheme, whatever it is; a text that does not begin with
/// the scheme, or has no slash behind it, names none.
pub proof fn law_what_a_target_names(link: Seq<char>, mac: Seq<char>, other: Seq<char>)
    requires
        !link.contains('/'),
        forall|rest: Seq<char>| other != #[trigger] ("ethernet://"@ + rest),
    ensures
        crate::transport::named_in("ethernet://"@ + link + "/"@ + mac) == mac,
        crate::transport::named_in("ethernet://"@ + link).len() == 0,
        crate::transport::named_in(other).len() == 0,
{
    reveal_strlit("/");
    let scheme = "ethernet://"@;
    let target = scheme + link + "/"@ + mac;
    assert(scheme =~= target.subrange(0, scheme.len() as int));
    assert(target.skip(scheme.len() as int) =~= link + seq!['/'] + mac);
    lemma_after_the_slash(link, mac);
    let bare = scheme + link;
    assert(scheme =~= bare.subrange(0, scheme.len() as int));
    assert(bare.skip(scheme.len() as int) =~= link);
    lemma_without_a_slash(link);
    if scheme.is_prefix_of(other) {
        assert(other =~= scheme + other.skip(scheme.len() as int));
    }
}

proof fn lemma_after_the_slash(before: Seq<char>, after: Seq<char>)
    requires
        !before.contains('/'),
    ensures
        crate::transport::after_slash(before + seq!['/'] + after) == after,
    decreases before.len(),
{
    let path = before + seq!['/'] + after;
    if before.len() == 0 {
        assert(path.skip(1) =~= after);
    } else {
        lemma_slashless_tail(before);
        lemma_after_the_slash(before.skip(1), after);
        assert(path.skip(1) =~= before.skip(1) + seq!['/'] + after);
    }
}

proof fn lemma_without_a_slash(path: Seq<char>)
    requires
        !path.contains('/'),
    ensures
        crate::transport::after_slash(path).len() == 0,
    decreases path.len(),
{
    if path.len() > 0 {
        lemma_slashless_tail(path);
        lemma_without_a_slash(path.skip(1));
    }
}

proof fn lemma_slashless_tail(path: Seq<char>)
    requires
        path.len() > 0,
        !path.contains('/'),
    ensures
        path[0] != '/',
        !path.skip(1).contains('/'),
{
    assert(path.contains(path[0]));
    if path.skip(1).contains('/') {
        let i = choose|i: int| 0 <= i < path.skip(1).len() && path.skip(1)[i] == '/';
        assert(path[i + 1] == '/');
    }
}

/// A send to a target that names an address, in any text that is read as
/// it, puts the Stream on the link for that address, whatever the
/// transport's own destination is.
pub proof fn law_a_send_goes_to_the_named_address<L: Link>(
    before: TransportModel<L>,
    link: Seq<char>,
    text: Seq<char>,
    mac: Mac,
    bytes: Seq<u8>,
    result: Result<(), Fault>,
    after: TransportModel<L>,
)
    requires
        !link.contains('/'),
        text == mac.text() || text.len() > 0 && crate::mac::read_mac(text) == Ok::<Mac, Fault>(mac),
        before.mtu == 1500 || before.mtu == 9000,
        before.sends("ethernet://"@ + link + "/"@ + text, bytes, result, after),
    ensures
        put_on_the_link(before, mac, bytes, result, after),
{
    lemma_a_target_names_a_text(link, text);
    crate::laws_text::law_the_text_of_an_address(mac);
    if text == mac.text() {
        crate::laws_text::law_the_usual_text_is_read(text, mac);
    }
    law_a_transmit_puts_one_plain_frame(before, mac, bytes, result, after);
}

/// What a target of a link and a text names is the text.
pub(crate) proof fn lemma_a_target_names_a_text(link: Seq<char>, text: Seq<char>)
    requires
        !link.contains('/'),
    ensures
        crate::transport::named_in("ethernet://"@ + link + "/"@ + text) == text,
        crate::transport::named_in("ethernet://"@ + link).len() == 0,
{
    reveal_strlit("ethernet://");
    let none = Seq::<char>::empty();
    assert forall|rest: Seq<char>| none != #[trigger] ("ethernet://"@ + rest) by {
        assert(("ethernet://"@ + rest).len() > 0);
    }
    law_what_a_target_names(link, text, none);
}

/// A send to a target that names something other than an address is refused
/// with what it names, and nothing changes.
pub proof fn law_a_send_to_no_address_is_refused<L: Link>(
    before: TransportModel<L>,
    link: Seq<char>,
    text: Seq<char>,
    bytes: Seq<u8>,
    result: Result<(), Fault>,
    after: TransportModel<L>,
)
    requires
        !link.contains('/'),
        text.len() > 0,
        crate::mac::read_mac(text) is Err,
        before.sends("ethernet://"@ + link + "/"@ + text, bytes, result, after),
    ensures
        result == Err::<(), Fault>(Fault::NotAMac { text }),
        after == before,
{
    lemma_a_target_names_a_text(link, text);
}

/// A send to a target that names no address, because it has no slash, or
/// nothing behind it, or is not of the scheme, puts the Stream on the link
/// for the transport's own destination.
pub proof fn law_a_send_to_no_name_goes_to_its_own<L: Link>(
    before: TransportModel<L>,
    target: Seq<char>,
    link: Seq<char>,
    bytes: Seq<u8>,
    result: Result<(), Fault>,
    after: TransportModel<L>,
)
    requires
        !link.contains('/'),
        target == "ethernet://"@ + link || target == "ethernet://"@ + link + "/"@ || (forall|
            rest: Seq<char>,
        |
            target != #[trigger] ("ethernet://"@ + rest)),
        before.mtu == 1500 || before.mtu == 9000,
        before.sends(target, bytes, result, after),
    ensures
        put_on_the_link(before, before.destination, bytes, result, after),
{
    lemma_a_target_names_a_text(link, Seq::empty());
    assert("ethernet://"@ + link + "/"@ + Seq::<char>::empty() =~= "ethernet://"@ + link + "/"@);
    if forall|rest: Seq<char>| target != #[trigger] ("ethernet://"@ + rest) {
        law_what_a_target_names(link, link, target);
    }
    law_a_transmit_puts_one_plain_frame(before, before.destination, bytes, result, after);
}

/// A transport's target is the scheme, its link's name, a slash and its own
/// destination.
pub proof fn law_the_target_of_a_transport<L: Link>(transport: TransportModel<L>)
    ensures
        transport.target() == "ethernet://"@ + transport.link.label() + "/"@
            + transport.destination.text(),
{
}

/// The Stream of the frame that the link of `before` then gave is `result`,
/// which is `Quiet` exactly where it gave none, and its error where it gave
/// one.
pub open spec fn taken_off_the_link<L: Link>(
    before: TransportModel<L>,
    result: Result<ArrivedModel, Fault>,
    after: TransportModel<L>,
) -> bool {
    &&& same_but_for_the_link(before, after)
    &&& exists|said: Result<Option<FrameModel>, Fault>| #[trigger]
        before.link.receives(before.timeout, said, &after.link) && match said {
            Ok(Some(frame)) => result matches Ok(arrived) && is_stream_of(
                arrived,
                frame,
                after.link.label(),
            ),
            Ok(None) => result == Err::<ArrivedModel, Fault>(Fault::Quiet),
            Err(fault) => result == Err::<ArrivedModel, Fault>(fault),
        }
}

/// A round is a send to the transport's own target and, where that was not
/// refused, the next frame off the same link.
pub proof fn law_a_round_is_a_send_and_a_read_back<L: Link>(
    before: TransportModel<L>,
    payload: Seq<u8>,
    result: Result<ArrivedModel, Fault>,
    after: TransportModel<L>,
)
    requires
        before.rounds(payload, result, after),
    ensures
        exists|sent: Result<(), Fault>, between: TransportModel<L>| #[trigger]
            before.sends(
                "ethernet://"@ + before.link.label() + "/"@ + before.destination.text(),
                payload,
                sent,
                between,
            ) && match sent {
                Err(fault) => result == Err::<ArrivedModel, Fault>(fault) && after == between,
                Ok(_) => taken_off_the_link(between, result, after),
            },
{
    let (sent, between) = choose|sent: Result<(), Fault>, between: TransportModel<L>| #[trigger]
        before.sends(before.target(), payload, sent, between) && match sent {
            Err(fault) => result == Err::<ArrivedModel, Fault>(fault) && after == between,
            Ok(_) => between.reads_back(result, after),
        };
    law_the_target_of_a_transport(before);
    assert(before.sends(
        "ethernet://"@ + before.link.label() + "/"@ + before.destination.text(),
        payload,
        sent,
        between,
    ));
    if sent is Ok {
        law_a_read_back_gives_what_the_link_gave(between, result, after);
    }
}

/// A round puts the payload on the link for the transport's own destination
/// and then takes the next frame off the same link; what was refused, by the
/// transport or by the link, is refused in the same words.
pub proof fn law_a_round_goes_to_its_own_and_back<L: Link>(
    before: TransportModel<L>,
    payload: Seq<u8>,
    result: Result<ArrivedModel, Fault>,
    after: TransportModel<L>,
)
    requires
        !before.link.label().contains('/'),
        before.mtu == 1500 || before.mtu == 9000,
        before.rounds(payload, result, after),
    ensures
        exists|sent: Result<(), Fault>, between: TransportModel<L>| #[trigger]
            put_on_the_link(before, before.destination, payload, sent, between) && match sent {
                Err(fault) => result == Err::<ArrivedModel, Fault>(fault) && after == between,
                Ok(_) => taken_off_the_link(between, result, after),
            },
{
    law_a_round_is_a_send_and_a_read_back(before, payload, result, after);
    let target = "ethernet://"@ + before.link.label() + "/"@ + before.destination.text();
    let (sent, between) = choose|sent: Result<(), Fault>, between: TransportModel<L>| #[trigger]
        before.sends(target, payload, sent, between) && match sent {
            Err(fault) => result == Err::<ArrivedModel, Fault>(fault) && after == between,
            Ok(_) => taken_off_the_link(between, result, after),
        };
    law_a_send_goes_to_the_named_address(
        before,
        before.link.label(),
        before.destination.text(),
        before.destination,
        payload,
        sent,
        between,
    );
    assert(put_on_the_link(before, before.destination, payload, sent, between));
}

/// A transport that was made has the ceiling of a standard or of a jumbo
/// frame.
pub proof fn law_a_ceiling_is_one_of_two<L: Link>(transport: TransportModel<L>, link: L)
    ensures
        transport.valid() <==> (transport.mtu == 1500 || transport.mtu == 9000),
        same_but_for_the_link(transport, transport.on(link)),
        transport.on(link).link == link,
{
}

/// A destination that is named is the address it is read as, an empty name
/// is the transport's own destination, and any other name is refused with
/// its text.
pub proof fn law_a_named_destination_is_the_address<L: Link>(
    transport: TransportModel<L>,
    named: Seq<char>,
    mac: Mac,
)
    ensures
        transport.destination_named(Seq::empty()) == Ok::<Mac, Fault>(transport.destination),
        transport.destination_named(mac.text()) == Ok::<Mac, Fault>(mac),
        named.len() > 0 && crate::mac::read_mac(named) == Ok::<Mac, Fault>(mac)
            ==> transport.destination_named(named) == Ok::<Mac, Fault>(mac),
        named.len() > 0 && crate::mac::read_mac(named) is Err ==> transport.destination_named(named)
            == Err::<Mac, Fault>(Fault::NotAMac { text: named }),
{
    crate::laws_text::law_the_text_of_an_address(mac);
    crate::laws_text::law_the_usual_text_is_read(mac.text(), mac);
}

} // verus!
