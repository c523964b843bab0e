use std::sync::{Arc, Mutex};
use std::time::Duration;

use ethernet::transport::destination_in;
use ethernet::{
    EthernetTransport, Frame, Link, Loopback, Mac, TransportError, JUMBO_MTU, MIN_PAYLOAD, MTU,
};

/// One in-process wire behind many handles, with the last timeout asked for.
#[derive(Clone, Default)]
struct Shared {
    wire: Arc<Mutex<Loopback>>,
    asked: Arc<Mutex<Option<Duration>>>,
}

impl Link for Shared {
    fn name(&self) -> &str {
        "loopback"
    }

    fn receive(&mut self, timeout: Duration) -> Result<Option<Frame>, TransportError> {
        *self.asked.lock().expect("asked") = Some(timeout);
        self.wire.lock().expect("wire").receive(timeout)
    }

    fn transmit(&mut self, frame: &Frame) -> Result<(), TransportError> {
        self.wire.lock().expect("wire").transmit(frame)
    }
}

/// A link that is down.
struct Down;

impl Link for Down {
    fn name(&self) -> &str {
        "down"
    }

    fn receive(&mut self, _timeout: Duration) -> Result<Option<Frame>, TransportError> {
        Err(TransportError::Link {
            message: String::from("no carrier"),
        })
    }

    fn transmit(&mut self, _frame: &Frame) -> Result<(), TransportError> {
        Err(TransportError::Link {
            message: String::from("no carrier"),
        })
    }
}

fn loopback() -> EthernetTransport<Loopback> {
    EthernetTransport::loopback(Duration::from_millis(50))
}

/// The shapes a protocol breaks on.
fn payloads() -> Vec<(&'static str, Vec<u8>)> {
    vec![
        ("empty", vec![]),
        ("one zero", vec![0]),
        ("shorter than a wire carries", vec![1; MIN_PAYLOAD - 1]),
        ("zeros", vec![0; 64]),
        ("ones", vec![0xff; 64]),
        ("every byte", (0..=255).collect()),
        ("line ends", b"\r\n\r\n\0\n".to_vec()),
        ("text", "sm\u{f6}rg\u{e5}s".as_bytes().to_vec()),
        (
            "the brim",
            (0..MTU)
                .map(|n| u8::try_from(n % 251).unwrap_or(0))
                .collect(),
        ),
    ]
}

#[test]
fn a_loopback_round_carries_a_stream_as_one_frame() {
    let mut loopback = loopback();
    let arrived = loopback.round(b"one frame").expect("round");
    assert_eq!(arrived.bytes, b"one frame");
    assert_eq!(
        arrived.origin_uri,
        "ethernet://loopback/02:00:00:00:00:01?type=0x88b5"
    );
    assert_eq!(loopback.ceiling(), Some(MTU));
    assert_eq!(loopback.name(), "ethernet");
}

#[test]
fn the_loopback_returns_the_edges_whole_and_refuses_over_the_brim() {
    let mut loopback = loopback();
    for (name, bytes) in payloads() {
        let arrived = loopback
            .round(&bytes)
            .unwrap_or_else(|error| panic!("{name}: {}", error.message()));
        assert_eq!(arrived.bytes, bytes, "{name}");
    }
    let error = loopback.round(&[0; MTU + 1]).expect_err("over the brim");
    assert!(
        error.message().contains("over the 1500"),
        "{}",
        error.message()
    );
    let mut jumbo = EthernetTransport::loopback(Duration::from_millis(50)).jumbo();
    assert_eq!(jumbo.ceiling(), Some(JUMBO_MTU));
    assert_eq!(
        jumbo.round(&[7; MTU + 1]).expect("jumbo").bytes,
        [7; MTU + 1]
    );
    assert!(jumbo.round(&[0; JUMBO_MTU + 1]).is_err());
}

#[test]
fn a_target_names_the_destination_and_the_link_carries_frames_in_order() {
    let mut link = Shared::default();
    let mut transport = EthernetTransport::new(
        link.clone(),
        Mac([2, 0, 0, 0, 0, 1]),
        Mac([2, 0, 0, 0, 0, 2]),
    )
    .under(0x88b6);
    transport.send("", &[0xaa]).expect("default destination");
    transport
        .send("ethernet://loopback/ff:ff:ff:ff:ff:ff", &[0xbb])
        .expect("broadcast");
    let first = link
        .receive(Duration::ZERO)
        .expect("read")
        .expect("a frame");
    assert_eq!(first.destination, Mac([2, 0, 0, 0, 0, 2]));
    assert_eq!(first.ethertype, 0x88b6);
    assert_eq!(first.payload, [0xaa]);
    let second = transport.receive_one().expect("read").expect("a frame");
    assert_eq!(
        second.origin_uri,
        "ethernet://loopback/02:00:00:00:00:01?type=0x88b6"
    );
    assert_eq!(second.bytes, [0xbb]);
    assert!(
        transport.receive().expect("quiet").is_empty(),
        "nothing is not an error"
    );
    assert!(transport
        .send("ethernet://loopback/not-a-mac", &[])
        .is_err());
    assert_eq!(transport.mtu(), MTU);
}

#[test]
fn a_wire_carries_in_order_and_then_is_quiet() {
    let mut wire = Loopback::new();
    assert_eq!(wire.name(), "loopback");
    for n in 0..5u8 {
        let frame = Frame::new(Mac([n; 6]), Mac([9; 6]), 0x0800, &[n, n]).expect("frame");
        wire.transmit(&frame).expect("transmit");
    }
    for n in 0..5u8 {
        let frame = wire.receive(Duration::ZERO).expect("read").expect("frame");
        assert_eq!(frame.destination, Mac([n; 6]));
        assert_eq!(frame.payload, [n, n]);
    }
    assert_eq!(wire.receive(Duration::from_secs(1)), Ok(None));
    assert_eq!(Loopback::default().receive(Duration::ZERO), Ok(None));
}

#[test]
fn what_was_waiting_comes_back_before_the_round_does() {
    let mut transport = loopback();
    transport.send("", b"first").expect("send");
    assert_eq!(transport.round(b"second").expect("round").bytes, b"first");
    let waiting = transport.receive().expect("receive");
    assert_eq!(waiting.len(), 1);
    assert_eq!(waiting[0].bytes, b"second");
}

#[test]
fn a_quiet_link_has_nothing_to_read_back() {
    let error = loopback().read_back().expect_err("quiet");
    assert_eq!(error, TransportError::Quiet);
    assert_eq!(error.message(), "nothing came over the link");
    assert_eq!(loopback().receive_one(), Ok(None));
}

#[test]
fn a_refused_payload_puts_nothing_on_the_link() {
    let mut transport = loopback();
    let error = transport.send("", &[0; MTU + 1]).expect_err("over");
    assert_eq!(
        error,
        TransportError::OverMtu {
            bytes: 1501,
            mtu: 1500
        }
    );
    assert_eq!(
        error.message(),
        "1501 bytes is over the 1500 one frame carries on this link"
    );
    let error = transport
        .send("ethernet://loopback/not-a-mac", b"x")
        .expect_err("not a mac");
    assert_eq!(error.message(), "\"not-a-mac\" is not a MAC address");
    let mut length = loopback().under(0x0100);
    assert_eq!(
        length.transmit(Mac([1; 6]), b"x"),
        Err(TransportError::LengthForType)
    );
    assert_eq!(length.receive_one(), Ok(None));
    assert_eq!(transport.receive_one(), Ok(None));
}

#[test]
fn a_target_is_a_scheme_a_link_and_a_mac() {
    assert_eq!(destination_in("ethernet://eth0/a:b"), "a:b");
    assert_eq!(destination_in("ethernet:///a"), "a");
    assert_eq!(destination_in("ethernet://eth0/a/b"), "a/b");
    assert_eq!(destination_in("ethernet://eth0/"), "");
    assert_eq!(destination_in("ethernet://eth0"), "");
    assert_eq!(destination_in("ethernet:/"), "");
    assert_eq!(destination_in("tcp://eth0/a:b"), "");
    assert_eq!(destination_in("02:00:00:00:00:02"), "");
    assert_eq!(destination_in(""), "");
    assert_eq!(destination_in("ethernet://\u{e9}/\u{e8}"), "\u{e8}");
}

#[test]
fn a_transport_sends_to_its_own_target() {
    let mut transport = loopback();
    let target = transport.target();
    assert_eq!(target, "ethernet://loopback/02:00:00:00:00:02");
    assert_eq!(
        transport.destination_named(destination_in(&target)),
        Ok(Mac([2, 0, 0, 0, 0, 2]))
    );
    transport.send(&target, b"x").expect("send");
    assert_eq!(transport.read_back().expect("back").bytes, b"x");
}

#[test]
fn the_link_is_asked_for_as_long_as_the_timeout() {
    let link = Shared::default();
    let mut transport = EthernetTransport::new(link.clone(), Mac([2; 6]), Mac([4; 6]));
    assert_eq!(transport.link().name(), "loopback");
    transport.receive().expect("quiet");
    assert_eq!(
        *link.asked.lock().expect("asked"),
        Some(Duration::from_secs(1))
    );
    let mut patient = transport.clone().timing_out_after(Duration::from_millis(7));
    patient.receive_one().expect("quiet");
    assert_eq!(
        *link.asked.lock().expect("asked"),
        Some(Duration::from_millis(7))
    );
}

#[test]
fn what_the_link_says_is_passed_on() {
    let mut transport = EthernetTransport::new(Down, Mac([2; 6]), Mac([4; 6]));
    let error = transport.send("", b"x").expect_err("down");
    assert_eq!(error.message(), "no carrier");
    assert!(transport.receive().is_err());
    assert!(transport.read_back().is_err());
    assert!(transport.round(b"x").is_err());
    let heard = Frame::new(Mac([4; 6]), Mac([2; 6]), 0x0800, b"hi").expect("frame");
    let arrived = transport
        .arrived(Ok(Some(heard)))
        .expect("arrived")
        .expect("a stream");
    assert_eq!(arrived.bytes, b"hi");
    assert_eq!(
        arrived.origin_uri,
        "ethernet://down/02:02:02:02:02:02?type=0x0800"
    );
}
