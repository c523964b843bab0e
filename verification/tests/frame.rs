use ethernet::frame::TAG_PROTOCOL;
use ethernet::{Frame, Mac, TransportError, JUMBO_MTU, MTU, XMIP_ETHERTYPE};

fn mac(last: u8) -> Mac {
    Mac([0x02, 0, 0, 0, 0, last])
}

#[test]
fn a_frame_encodes_its_header_and_decodes_back() {
    let frame = Frame::new(mac(2), mac(1), XMIP_ETHERTYPE, b"hello").expect("frame");
    let wire = frame.encode();
    assert_eq!(&wire[..6], &[0x02, 0, 0, 0, 0, 2]);
    assert_eq!(&wire[12..14], &[0x88, 0xb5]);
    assert_eq!(&wire[14..], b"hello");
    assert_eq!(Frame::decode(&wire).expect("decode"), frame);
    assert_eq!(
        frame.origin("loopback"),
        "ethernet://loopback/02:00:00:00:00:01?type=0x88b5"
    );
    assert!(frame.vlan().is_none());
}

#[test]
fn a_tag_is_read_and_the_vlan_taken_from_it() {
    let frame = Frame::new(Mac::broadcast(), mac(1), 0x0800, &[0x45])
        .expect("frame")
        .tagged(0x6007);
    let wire = frame.encode();
    assert_eq!(&wire[12..18], &[0x81, 0x00, 0x60, 0x07, 0x08, 0x00]);
    let back = Frame::decode(&wire).expect("decode");
    assert_eq!(back.vlan(), Some(7));
    assert_eq!(back.ethertype, 0x0800);
    assert!(back.destination.is_group());
    assert!(!back.source.is_group());
}

#[test]
fn what_is_not_an_ethernet_frame_is_refused() {
    assert!(Frame::decode(&[0; 13]).is_err(), "short");
    let mut length = [0u8; 14];
    length[12..].copy_from_slice(&[0x00, 0x2e]);
    assert!(Frame::decode(&length).is_err(), "an 802.3 length");
    let mut tagged = [0u8; 16];
    tagged[12..14].copy_from_slice(&[0x81, 0x00]);
    assert!(Frame::decode(&tagged).is_err(), "a tag and nothing after");
    assert!(Frame::new(mac(1), mac(2), 0x0100, &[]).is_err());
    assert!(Frame::new(mac(1), mac(2), XMIP_ETHERTYPE, &[0; JUMBO_MTU + 1]).is_err());
}

#[test]
fn each_refusal_says_which_it_is() {
    let short = Frame::decode(&[0; 13]).expect_err("short");
    assert_eq!(short, TransportError::ShortHeader);
    assert_eq!(short.message(), "shorter than an Ethernet header");

    let mut length = [0u8; 60];
    length[12..14].copy_from_slice(&[0x05, 0xff]);
    let length = Frame::decode(&length).expect_err("length");
    assert_eq!(length, TransportError::LengthForType);
    assert_eq!(
        length.message(),
        "an 802.3 length where an EtherType belongs"
    );

    let mut tagged = [0u8; 17];
    tagged[12..14].copy_from_slice(&[0x81, 0x00]);
    let bare = Frame::decode(&tagged).expect_err("bare tag");
    assert_eq!(bare, TransportError::BareTag);
    assert_eq!(bare.message(), "a tag with nothing after it");

    let mut under_tag = [0u8; 18];
    under_tag[12..14].copy_from_slice(&[0x81, 0x00]);
    under_tag[16..18].copy_from_slice(&[0x00, 0x2e]);
    assert_eq!(
        Frame::decode(&under_tag),
        Err(TransportError::LengthForType)
    );

    let jumbo = Frame::new(mac(1), mac(2), 0x0100, &[0; JUMBO_MTU + 1]).expect_err("jumbo");
    assert_eq!(jumbo, TransportError::OverJumbo { bytes: 9001 });
    assert_eq!(
        jumbo.message(),
        "9001 bytes is over the 9000 a jumbo frame carries"
    );
    assert_eq!(
        Frame::new(mac(1), mac(2), 0x05ff, &[]),
        Err(TransportError::LengthForType)
    );
}

#[test]
fn the_bounds_themselves_are_carried() {
    assert!(Frame::new(mac(1), mac(2), 0x0600, &[0; JUMBO_MTU]).is_ok());
    let mut least = [0u8; 14];
    least[12..14].copy_from_slice(&[0x06, 0x00]);
    let frame = Frame::decode(&least).expect("a header alone");
    assert_eq!(frame.ethertype, 0x0600);
    assert!(frame.payload.is_empty());
    let mut tagged = [0u8; 18];
    tagged[12..18].copy_from_slice(&[0x81, 0x00, 0xff, 0xff, 0x06, 0x00]);
    let frame = Frame::decode(&tagged).expect("a tagged header alone");
    assert_eq!(frame.tag, Some(0xffff));
    assert_eq!(frame.vlan(), Some(0x0fff));
    assert!(frame.payload.is_empty());
}

#[test]
fn encode_and_decode_undo_each_other() {
    for payload in [vec![], vec![7], vec![0xa5; MTU], vec![1; JUMBO_MTU]] {
        let frame = Frame::new(mac(9), mac(8), 0x8892, &payload).expect("frame");
        assert_eq!(frame.encode().len(), 14 + payload.len());
        assert_eq!(Frame::decode(&frame.encode()), Ok(frame.clone()));
        let tagged = frame.tagged(0xe123);
        assert_eq!(tagged.encode().len(), 18 + payload.len());
        assert_eq!(tagged.vlan(), Some(0x123));
        assert_eq!(Frame::decode(&tagged.encode()), Ok(tagged));
    }
    let mut wire = vec![3u8; 64];
    wire[12..18].copy_from_slice(&[0x81, 0x00, 0x20, 0x01, 0x81, 0x00]);
    let frame = Frame::decode(&wire).expect("two tags");
    assert_eq!(frame.ethertype, TAG_PROTOCOL);
    assert_eq!(frame.encode(), wire);
}

#[test]
fn an_untagged_frame_of_the_tag_protocol_reads_as_a_tag() {
    let frame = Frame::new(mac(2), mac(1), TAG_PROTOCOL, &[0x00, 0x07, 0x08, 0x00]).expect("frame");
    let back = Frame::decode(&frame.encode()).expect("decode");
    assert_eq!(back.tag, Some(7));
    assert_eq!(back.ethertype, 0x0800);
    assert!(back.payload.is_empty());
}

#[test]
fn an_origin_pads_the_ethertype_to_four_digits() {
    let frame = Frame::new(mac(2), Mac([0xde, 0xad, 0xbe, 0xef, 0x09, 0xa0]), 0x0800, &[])
        .expect("frame");
    assert_eq!(
        frame.origin("eth0"),
        "ethernet://eth0/de:ad:be:ef:09:a0?type=0x0800"
    );
}
