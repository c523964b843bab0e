use ethernet::{Mac, TransportError};

#[test]
fn a_mac_reads_and_writes_as_colon_separated_hex() {
    let mac: Mac = "02:00:00:00:00:ff".parse().expect("mac");
    assert_eq!(mac, Mac([2, 0, 0, 0, 0, 0xff]));
    assert_eq!(mac.to_string(), "02:00:00:00:00:ff");
    assert_eq!("02-00-00-00-00-FF".parse::<Mac>().expect("dashes"), mac);
    assert!("02:00:00:00:00".parse::<Mac>().is_err(), "short");
    assert!("02:00:00:00:00:ff:00".parse::<Mac>().is_err(), "long");
    assert!("02:00:00:00:00:zz".parse::<Mac>().is_err(), "not hex");
}

#[test]
fn every_byte_is_read_back_from_what_is_written() {
    for byte in 0..=255u8 {
        let mac = Mac([byte, !byte, 0, byte / 3, 0x0f, 0xf0]);
        let text = mac.to_string();
        assert_eq!(text.len(), 17);
        assert_eq!(&text[..2], format!("{byte:02x}"));
        assert_eq!(Mac::from_str(&text), Ok(mac));
        assert_eq!(Mac::from_str(&text.replace(':', "-")), Ok(mac));
        assert_eq!(Mac::from_str(&text.to_uppercase()), Ok(mac));
    }
}

#[test]
fn separators_may_be_mixed() {
    assert_eq!(
        Mac::from_str("02-00:00-00:00-0a"),
        Ok(Mac([2, 0, 0, 0, 0, 10]))
    );
}

#[test]
fn a_field_is_what_the_standard_library_reads_in_base_sixteen() {
    for field in [
        "0", "f", "F", "00", "ff", "FF", "aB", "100", "0ff", "000000000000000000ff", "1ff", "", "+",
        "+f", "+ff", "++f", "f+", " f", "f ", "0x1", "g", "_1", "\u{e9}", "\u{ff11}",
    ] {
        let expected = u8::from_str_radix(field, 16).ok();
        let read = Mac::from_str(&format!("1:2:3:4:5:{field}"));
        assert_eq!(
            read.ok(),
            expected.map(|byte| Mac([1, 2, 3, 4, 5, byte])),
            "{field:?}"
        );
    }
}

#[test]
fn what_is_not_a_mac_is_quoted() {
    let error = Mac::from_str("tab\there").expect_err("not a mac");
    assert_eq!(
        error,
        TransportError::NotAMac {
            text: String::from("tab\there")
        }
    );
    assert_eq!(error.message(), "\"tab\\there\" is not a MAC address");
    let error = Mac::from_str("").expect_err("empty");
    assert_eq!(error.message(), "\"\" is not a MAC address");
    assert_eq!(
        ethernet::error::not_a_mac(String::from("\"x\"")),
        "\"x\" is not a MAC address"
    );
}

#[test]
fn the_lowest_bit_of_the_first_byte_makes_a_group() {
    assert_eq!(Mac::broadcast(), Mac([0xff; 6]));
    assert!(Mac::broadcast().is_group());
    assert!(Mac([0x01, 0x00, 0x5e, 0, 0, 1]).is_group());
    assert!(!Mac([0xfe, 0xff, 0xff, 0xff, 0xff, 0xff]).is_group());
    assert!(!Mac([0x02, 0, 0, 0, 0, 1]).is_group());
}
