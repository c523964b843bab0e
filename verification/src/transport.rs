//! A Stream as one frame: the transport over a frame and a link.

use std::time::Duration;

use vstd::prelude::*;
use vstd::string::{StrSliceExecFns, StringExecFns};

use crate::error::{Fault, TransportError};
use crate::frame::{Frame, FrameModel, JUMBO_MTU, MTU, XMIP_ETHERTYPE};
use crate::link::{Link, Loopback};
use crate::mac::Mac;
use crate::text::chars_of;

verus! {

/// The span of `secs` whole seconds.
pub uninterp spec fn seconds(secs: u64) -> Duration;

/// [`Duration::from_secs`]: the span of `secs` whole seconds, which
/// [`seconds`] names.
pub assume_specification[ Duration::from_secs ](secs: u64) -> (span: Duration)
    ensures
        span == seconds(secs),
;

/// A Stream that arrived: where it came from, and what it was.
#[derive(Debug, PartialEq, Eq)]
pub struct Arrived {
    /// `ethernet://<link>/<source mac>?type=0x<ethertype>`.
    pub origin_uri: String,
    pub bytes: Vec<u8>,
}

/// An [`Arrived`] as sequences of characters and of bytes.
pub struct ArrivedModel {
    pub origin_uri: Seq<char>,
    pub bytes: Seq<u8>,
}

impl View for Arrived {
    type V = ArrivedModel;

    open spec fn view(&self) -> ArrivedModel {
        ArrivedModel { origin_uri: self.origin_uri@, bytes: self.bytes@ }
    }
}

/// What a receive gave: a Stream, nothing, or an error, by its view.
pub open spec fn arrival(result: Result<Option<Arrived>, TransportError>) -> Result<
    Option<ArrivedModel>,
    Fault,
> {
    match result {
        Ok(Some(arrived)) => Ok(Some(arrived@)),
        Ok(None) => Ok(None),
        Err(error) => Err(error@),
    }
}

/// What a link named `label` was heard to say, as a Stream: the payload of
/// the frame, with the frame's origin.
pub open spec fn arrival_of(
    heard: Result<Option<FrameModel>, Fault>,
    label: Seq<char>,
) -> Result<Option<ArrivedModel>, Fault> {
    match heard {
        Ok(Some(frame)) => Ok(
            Some(ArrivedModel { origin_uri: frame.origin(label), bytes: frame.payload }),
        ),
        Ok(None) => Ok(None),
        Err(fault) => Err(fault),
    }
}

/// A Stream that was due: where nothing arrived, the link was quiet.
pub open spec fn due(arrival: Result<Option<ArrivedModel>, Fault>) -> Result<ArrivedModel, Fault> {
    match arrival {
        Ok(Some(arrived)) => Ok(arrived),
        Ok(None) => Err(Fault::Quiet),
        Err(fault) => Err(fault),
    }
}

/// What follows the first slash of `path`, empty where it has none.
pub open spec fn after_slash(path: Seq<char>) -> Seq<char>
    decreases path.len(),
{
    if path.len() == 0 {
        path
    } else if path[0] == '/' {
        path.skip(1)
    } else {
        after_slash(path.skip(1))
    }
}

/// The destination that `target` names: in `ethernet://<link>/<mac>`, the
/// `<mac>`. Empty where it names none.
pub open spec fn named_in(target: Seq<char>) -> Seq<char> {
    if "ethernet://"@.is_prefix_of(target) {
        after_slash(target.skip("ethernet://"@.len() as int))
    } else {
        Seq::empty()
    }
}

/// A Stream as one frame under one `EtherType` on one link.
pub struct EthernetTransport<L: Link> {
    link: L,
    source: Mac,
    destination: Mac,
    ethertype: u16,
    mtu: usize,
    timeout: Duration,
}

/// What an [`EthernetTransport`] holds.
pub struct TransportModel<L> {
    pub link: L,
    pub source: Mac,
    pub destination: Mac,
    pub ethertype: u16,
    pub mtu: usize,
    pub timeout: Duration,
}

impl<L: Link> View for EthernetTransport<L> {
    type V = TransportModel<L>;

    closed spec fn view(&self) -> TransportModel<L> {
        TransportModel {
            link: self.link,
            source: self.source,
            destination: self.destination,
            ethertype: self.ethertype,
            mtu: self.mtu,
            timeout: self.timeout,
        }
    }
}

impl<L: Link> TransportModel<L> {
    /// The ceiling is that of a standard frame or of a jumbo frame.
    pub open spec fn valid(self) -> bool {
        self.mtu == MTU || self.mtu == JUMBO_MTU
    }

    /// The same transport with `link` as it is now.
    pub open spec fn on(self, link: L) -> TransportModel<L> {
        TransportModel { link, ..self }
    }

    /// Where the near end sends: `ethernet://<link>/<mac>`.
    pub open spec fn target(self) -> Seq<char> {
        "ethernet://"@ + self.link.label() + "/"@ + self.destination.text()
    }

    /// Where a send to `named` goes: to the address it is, or to the
    /// transport's own destination where it is empty.
    pub open spec fn destination_named(self, named: Seq<char>) -> Result<Mac, Fault> {
        if named.len() == 0 {
            Ok(self.destination)
        } else {
            crate::mac::read_mac(named)
        }
    }

    /// `bytes` as one frame to `destination`, or why no frame carries them.
    pub open spec fn framed(self, destination: Mac, bytes: Seq<u8>) -> Result<FrameModel, Fault> {
        if bytes.len() > self.mtu {
            Err(Fault::OverMtu { bytes: bytes.len() as usize, mtu: self.mtu })
        } else {
            FrameModel::made(destination, self.source, self.ethertype, bytes)
        }
    }

    /// Asked for a Stream, this transport may say `result` and be `after`:
    /// the link is asked once, for as long as the timeout.
    pub open spec fn receives(
        self,
        result: Result<Option<ArrivedModel>, Fault>,
        after: TransportModel<L>,
    ) -> bool {
        &&& after == self.on(after.link)
        &&& exists|heard: Result<Option<FrameModel>, Fault>| #[trigger]
            self.link.receives(self.timeout, heard, &after.link) && result == arrival_of(
                heard,
                after.link.label(),
            )
    }

    /// Given `bytes` for `destination`, this transport may say `result` and
    /// be `after`: what no frame carries is refused and nothing changes,
    /// anything else is put on the link as one frame.
    pub open spec fn transmits(
        self,
        destination: Mac,
        bytes: Seq<u8>,
        result: Result<(), Fault>,
        after: TransportModel<L>,
    ) -> bool {
        match self.framed(destination, bytes) {
            Err(fault) => result == Err::<(), Fault>(fault) && after == self,
            Ok(frame) => {
                &&& after == self.on(after.link)
                &&& self.link.transmits(frame, result, &after.link)
            },
        }
    }

    /// Given `bytes` for `target`, this transport may say `result` and be
    /// `after`.
    pub open spec fn sends(
        self,
        target: Seq<char>,
        bytes: Seq<u8>,
        result: Result<(), Fault>,
        after: TransportModel<L>,
    ) -> bool {
        match self.destination_named(named_in(target)) {
            Err(fault) => result == Err::<(), Fault>(fault) && after == self,
            Ok(destination) => self.transmits(destination, bytes, result, after),
        }
    }

    /// Asked for a Stream that is due, this transport may say `result` and
    /// be `after`.
    pub open spec fn reads_back(
        self,
        result: Result<ArrivedModel, Fault>,
        after: TransportModel<L>,
    ) -> bool {
        exists|arrival: Result<Option<ArrivedModel>, Fault>| #[trigger]
            self.receives(arrival, after) && result == due(arrival)
    }

    /// Given `payload` to send to its own target and read back, this
    /// transport may say `result` and be `after`.
    pub open spec fn rounds(
        self,
        payload: Seq<u8>,
        result: Result<ArrivedModel, Fault>,
        after: TransportModel<L>,
    ) -> bool {
        exists|sent: Result<(), Fault>, between: TransportModel<L>| #[trigger]
            self.sends(self.target(), payload, sent, between) && match sent {
                Err(fault) => result == Err::<ArrivedModel, Fault>(fault) && after == between,
                Ok(_) => between.reads_back(result, after),
            }
    }
}

/// The destination that `target` names, empty where it names none.
pub fn destination_in(target: &str) -> (named: &str)
    ensures
        named@ == named_in(target@),
{
    let chars = chars_of(target);
    let scheme = chars_of("ethernet://");
    if chars.len() < scheme.len() {
        return target.substring_char(0, 0);
    }
    let mut at: usize = 0;
    while at < scheme.len()
        invariant
            at <= scheme.len() <= chars.len(),
            chars@ == target@,
            scheme@ == "ethernet://"@,
            forall|i: int| 0 <= i < at ==> scheme@[i] == chars@[i],
        decreases scheme.len() - at,
    {
        if chars[at] != scheme[at] {
            assert(target@.subrange(0, scheme@.len() as int)[at as int] != scheme@[at as int]);
            return target.substring_char(0, 0);
        }
        at = at + 1;
    }
    assert(scheme@ =~= target@.subrange(0, scheme@.len() as int));
    while at < chars.len()
        invariant
            at <= chars.len(),
            chars@ == target@,
            named_in(target@) == after_slash(chars@.skip(at as int)),
        decreases chars.len() - at,
    {
        assert(chars@.skip(at as int).skip(1) == chars@.skip(at + 1));
        if chars[at] == '/' {
            return target.substring_char(at + 1, chars.len());
        }
        at = at + 1;
    }
    target.substring_char(at, at)
}

impl<L: Link> EthernetTransport<L> {
    /// A transport on `link`, sending from `source` to `destination` under
    /// [`XMIP_ETHERTYPE`], one standard frame at a time.
    #[must_use]
    pub fn new(link: L, source: Mac, destination: Mac) -> (transport: EthernetTransport<L>)
        ensures
            transport@ == (TransportModel {
                link,
                source,
                destination,
                ethertype: XMIP_ETHERTYPE,
                mtu: MTU,
                timeout: seconds(1),
            }),
            transport@.valid(),
    {
        EthernetTransport {
            link,
            source,
            destination,
            ethertype: XMIP_ETHERTYPE,
            mtu: MTU,
            timeout: Duration::from_secs(1),
        }
    }

    /// Both ends on `link`, two locally administered addresses, `timeout`
    /// standing where an adapter would wait for quiet.
    #[must_use]
    pub fn loopback_on(link: L, timeout: Duration) -> (transport: EthernetTransport<L>)
        ensures
            transport@ == (TransportModel {
                link,
                source: Mac([0x02, 0, 0, 0, 0, 1]),
                destination: Mac([0x02, 0, 0, 0, 0, 2]),
                ethertype: XMIP_ETHERTYPE,
                mtu: MTU,
                timeout,
            }),
            transport@.valid(),
    {
        EthernetTransport::new(
            link,
            Mac([0x02, 0, 0, 0, 0, 1]),
            Mac([0x02, 0, 0, 0, 0, 2]),
        ).timing_out_after(timeout)
    }

    /// Send under another `EtherType` — a protocol above naming its own.
    #[must_use]
    pub fn under(self, ethertype: u16) -> (transport: EthernetTransport<L>)
        ensures
            transport@ == (TransportModel { ethertype, ..self@ }),
    {
        EthernetTransport { ethertype, ..self }
    }

    /// The link carries jumbo frames: the ceiling is [`JUMBO_MTU`].
    #[must_use]
    pub fn jumbo(self) -> (transport: EthernetTransport<L>)
        ensures
            transport@ == (TransportModel { mtu: JUMBO_MTU, ..self@ }),
            transport@.valid(),
    {
        EthernetTransport { mtu: JUMBO_MTU, ..self }
    }

    /// Give up waiting on a quiet link after `timeout`.
    #[must_use]
    pub fn timing_out_after(self, timeout: Duration) -> (transport: EthernetTransport<L>)
        ensures
            transport@ == (TransportModel { timeout, ..self@ }),
    {
        EthernetTransport { timeout, ..self }
    }

    /// The largest payload one frame carries on this link.
    #[must_use]
    pub fn mtu(&self) -> (mtu: usize)
        ensures
            mtu == self@.mtu,
    {
        self.mtu
    }

    /// The link the frames go on.
    #[must_use]
    pub fn link(&self) -> (link: &L)
        ensures
            *link == self@.link,
    {
        &self.link
    }

    /// What the link was heard to say, as a Stream.
    ///
    /// # Errors
    /// Where the link could not be read.
    pub fn arrived(&self, heard: Result<Option<Frame>, TransportError>) -> (result: Result<
        Option<Arrived>,
        TransportError,
    >)
        ensures
            arrival(result) == arrival_of(crate::link::heard(heard), self@.link.label()),
    {
        match heard {
            Ok(Some(frame)) => {
                let origin_uri = frame.origin(self.link.name());
                Ok(Some(Arrived { origin_uri, bytes: frame.payload }))
            },
            Ok(None) => Ok(None),
            Err(error) => Err(error),
        }
    }

    /// The next frame on the link as a Stream, or `None` when the link is
    /// quiet.
    ///
    /// # Errors
    /// Where the link could not be read.
    pub fn receive_one(&mut self) -> (result: Result<Option<Arrived>, TransportError>)
        ensures
            old(self)@.receives(arrival(result), final(self)@),
    {
        let said = self.link.receive(self.timeout);
        assert(old(self)@.link.receives(
            old(self)@.timeout,
            crate::link::heard(said),
            &self@.link,
        ));
        self.arrived(said)
    }

    /// `bytes` as one frame to `destination`, within the ceiling.
    ///
    /// # Errors
    /// A payload over the MTU, or a length in place of an `EtherType`.
    pub fn framed(&self, destination: Mac, bytes: &[u8]) -> (frame: Result<Frame, TransportError>)
        ensures
            crate::error::outcome(frame) == self@.framed(destination, bytes@),
    {
        if bytes.len() > self.mtu {
            return Err(TransportError::OverMtu { bytes: bytes.len(), mtu: self.mtu });
        }
        Frame::new(destination, self.source, self.ethertype, bytes)
    }

    /// `bytes` as one frame to `destination`.
    ///
    /// # Errors
    /// A payload over the MTU, or a link that refused the frame.
    pub fn transmit(&mut self, destination: Mac, bytes: &[u8]) -> (result: Result<
        (),
        TransportError,
    >)
        ensures
            old(self)@.transmits(destination, bytes@, crate::error::outcome(result), final(self)@),
    {
        match self.framed(destination, bytes) {
            Ok(frame) => self.link.transmit(&frame),
            Err(error) => Err(error),
        }
    }

    /// `ethernet://<link>/<mac>`: where the near end sends.
    #[must_use]
    pub fn target(&self) -> (target: String)
        ensures
            target@ == self@.target(),
    {
        let mut target = String::new();
        target.append("ethernet://");
        target.append(self.link.name());
        target.append("/");
        target.append(self.destination.to_string().as_str());
        target
    }

    /// The transport's name.
    #[must_use]
    pub fn name(&self) -> (name: &'static str)
        ensures
            name@ == "ethernet"@,
    {
        "ethernet"
    }

    /// What is waiting on the link, at most one Stream. Nothing on the link
    /// is not an error: an empty vector.
    ///
    /// # Errors
    /// Where the link could not be read.
    pub fn receive(&mut self) -> (result: Result<Vec<Arrived>, TransportError>)
        ensures
            old(self)@.receives(
                match result {
                    Ok(streams) => if streams.len() == 0 {
                        Ok(None)
                    } else {
                        Ok(Some(streams[0]@))
                    },
                    Err(error) => Err(error@),
                },
                final(self)@,
            ),
            result matches Ok(streams) ==> streams.len() <= 1,
    {
        match self.receive_one() {
            Ok(Some(arrived)) => {
                let mut streams: Vec<Arrived> = Vec::new();
                streams.push(arrived);
                Ok(streams)
            },
            Ok(None) => Ok(Vec::new()),
            Err(error) => Err(error),
        }
    }

    /// Where a send to `named` goes: to the address it is, or to the
    /// transport's own destination where it is empty.
    ///
    /// # Errors
    /// A text that is not a MAC address.
    pub fn destination_named(&self, named: &str) -> (destination: Result<Mac, TransportError>)
        ensures
            crate::error::outcome(destination) == self@.destination_named(named@),
    {
        if named.is_empty() {
            Ok(self.destination)
        } else {
            Mac::from_str(named)
        }
    }

    /// `bytes` as one frame to where `target` says. `target` may name a
    /// destination, `ethernet://eth0/02:00:00:00:00:02`, overriding the
    /// transport's.
    ///
    /// # Errors
    /// A destination that is not a MAC address, a payload over the MTU, or a
    /// link that refused the frame.
    pub fn send(&mut self, target: &str, bytes: &[u8]) -> (result: Result<(), TransportError>)
        ensures
            old(self)@.sends(target@, bytes@, crate::error::outcome(result), final(self)@),
    {
        match self.destination_named(destination_in(target)) {
            Ok(destination) => self.transmit(destination, bytes),
            Err(error) => Err(error),
        }
    }

    /// The largest payload a round carries: one frame is one Stream, and a
    /// payload over the MTU is refused rather than fragmented —
    /// fragmentation is IP's, above.
    #[must_use]
    pub fn ceiling(&self) -> (ceiling: Option<usize>)
        ensures
            ceiling == Some(self@.mtu),
    {
        Some(self.mtu)
    }

    /// The Stream that is due on the link. Nothing waits: the round is in
    /// order.
    ///
    /// # Errors
    /// Where the link could not be read, or nothing came over it.
    pub fn read_back(&mut self) -> (result: Result<Arrived, TransportError>)
        ensures
            old(self)@.reads_back(crate::error::outcome(result), final(self)@),
    {
        match self.receive_one() {
            Ok(Some(arrived)) => Ok(arrived),
            Ok(None) => Err(TransportError::Quiet),
            Err(error) => Err(error),
        }
    }

    /// `payload` to the transport's own target and back, in order on one
    /// thread: a link does not listen, so the frame goes on first and the
    /// read-back takes it off.
    ///
    /// # Errors
    /// Where the payload could not be sent, or nothing came back.
    pub fn round(&mut self, payload: &[u8]) -> (result: Result<Arrived, TransportError>)
        ensures
            old(self)@.rounds(payload@, crate::error::outcome(result), final(self)@),
    {
        let target = self.target();
        match self.send(target.as_str(), payload) {
            Ok(_) => self.read_back(),
            Err(error) => Err(error),
        }
    }
}

impl<L: Link + Clone> Clone for EthernetTransport<L> {
    /// The same transport on a clone of the link.
    fn clone(&self) -> (transport: EthernetTransport<L>)
        ensures
            cloned(self@.link, transport@.link),
            transport@ == self@.on(transport@.link),
    {
        EthernetTransport {
            link: self.link.clone(),
            source: self.source,
            destination: self.destination,
            ethertype: self.ethertype,
            mtu: self.mtu,
            timeout: self.timeout,
        }
    }
}

impl EthernetTransport<Loopback> {
    /// Both ends on one in-process link, two locally administered
    /// addresses, `timeout` standing where an adapter would wait for quiet.
    #[must_use]
    pub fn loopback(timeout: Duration) -> (transport: EthernetTransport<Loopback>)
        ensures
            transport@.link@ == Seq::<FrameModel>::empty(),
            transport@ == (TransportModel {
                link: transport@.link,
                source: Mac([0x02, 0, 0, 0, 0, 1]),
                destination: Mac([0x02, 0, 0, 0, 0, 2]),
                ethertype: XMIP_ETHERTYPE,
                mtu: MTU,
                timeout,
            }),
            transport@.valid(),
    {
        EthernetTransport::loopback_on(Loopback::new(), timeout)
    }
}

} // verus!
