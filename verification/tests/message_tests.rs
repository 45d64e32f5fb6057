use ud3tn_aap::message::{BundleIdentifier, DtnTime, Message, ParseError};

#[test]
fn test_ack_to_bytes() {
    assert_eq!(Message::Ack.to_bytes(), vec![0b00010000])
}

#[test]
fn test_ack_parse() {
    assert_eq!(Message::parse(&vec![0b00010000]).unwrap(), Message::Ack)
}

#[test]
fn test_nack_to_bytes() {
    assert_eq!(Message::Nack.to_bytes(), vec![0b00010001])
}

#[test]
fn test_nack_parse() {
    assert_eq!(Message::parse(&vec![0b00010001]).unwrap(), Message::Nack)
}

#[test]
fn test_register_to_bytes() {
    assert_eq!(
        Message::Register("rust_test".into()).to_bytes(),
        vec![
            0b00010010, // Declaration
            0, 9, // Length
            0b01110010, 0b01110101, 0b01110011, 0b01110100, 0b01011111, 0b01110100, 0b01100101,
            0b01110011, 0b01110100 // EID
        ]
    )
}

#[test]
fn test_register_parse() {
    assert_eq!(
        Message::parse(&vec![
            0b00010010, // Declaration
            0, 9, // Length
            0b01110010, 0b01110101, 0b01110011, 0b01110100, 0b01011111, 0b01110100, 0b01100101,
            0b01110011, 0b01110100 // EID
        ])
        .unwrap(),
        Message::Register("rust_test".into())
    )
}

#[test]
fn test_send_bundle_to_bytes() {
    let payload: Vec<u8> = "Hello world !".into();

    assert_eq!(
        Message::SendBundle("dtn://rust-lang.org/rust_test".into(), payload).to_bytes(),
        vec![
            0b00010011, // Declaration
            0, 29, // Length
            0b01100100, 0b01110100, 0b01101110, 0b00111010, 0b00101111, 0b00101111, 0b01110010,
            0b01110101, 0b01110011, 0b01110100, 0b00101101, 0b01101100, 0b01100001, 0b01101110,
            0b01100111, 0b00101110, 0b01101111, 0b01110010, 0b01100111, 0b00101111, 0b01110010,
            0b01110101, 0b01110011, 0b01110100, 0b01011111, 0b01110100, 0b01100101, 0b01110011,
            0b01110100, // Destination EID
            0, 0, 0, 0, 0, 0, 0, 13, // Payload length
            0b01001000, 0b01100101, 0b01101100, 0b01101100, 0b01101111, 0b00100000, 0b01110111,
            0b01101111, 0b01110010, 0b01101100, 0b01100100, 0b00100000, 0b00100001 // Payload
        ]
    )
}

#[test]
fn test_send_bundle_parse() {
    let payload: Vec<u8> = "Hello world !".into();

    assert_eq!(
        Message::parse(&vec![
            0b00010011, // Declaration
            0, 29, // Length
            0b01100100, 0b01110100, 0b01101110, 0b00111010, 0b00101111, 0b00101111, 0b01110010,
            0b01110101, 0b01110011, 0b01110100, 0b00101101, 0b01101100, 0b01100001, 0b01101110,
            0b01100111, 0b00101110, 0b01101111, 0b01110010, 0b01100111, 0b00101111, 0b01110010,
            0b01110101, 0b01110011, 0b01110100, 0b01011111, 0b01110100, 0b01100101, 0b01110011,
            0b01110100, // Destination EID
            0, 0, 0, 0, 0, 0, 0, 13, // Payload length
            0b01001000, 0b01100101, 0b01101100, 0b01101100, 0b01101111, 0b00100000, 0b01110111,
            0b01101111, 0b01110010, 0b01101100, 0b01100100, 0b00100000, 0b00100001 // Payload
        ])
        .unwrap(),
        Message::SendBundle("dtn://rust-lang.org/rust_test".into(), payload)
    )
}

#[test]
fn test_recv_bundle_to_bytes() {
    let payload: Vec<u8> = "Hello world !".into();

    assert_eq!(
        Message::RecvBundle("dtn://rust-lang.org/rust_test".into(), payload).to_bytes(),
        vec![
            0b00010100, // Declaration
            0, 29, // Length
            0b01100100, 0b01110100, 0b01101110, 0b00111010, 0b00101111, 0b00101111, 0b01110010,
            0b01110101, 0b01110011, 0b01110100, 0b00101101, 0b01101100, 0b01100001, 0b01101110,
            0b01100111, 0b00101110, 0b01101111, 0b01110010, 0b01100111, 0b00101111, 0b01110010,
            0b01110101, 0b01110011, 0b01110100, 0b01011111, 0b01110100, 0b01100101, 0b01110011,
            0b01110100, // Source EID
            0, 0, 0, 0, 0, 0, 0, 13, // Payload length
            0b01001000, 0b01100101, 0b01101100, 0b01101100, 0b01101111, 0b00100000, 0b01110111,
            0b01101111, 0b01110010, 0b01101100, 0b01100100, 0b00100000, 0b00100001 // Payload
        ]
    )
}

#[test]
fn test_recv_bundle_parse() {
    let payload: Vec<u8> = "Hello world !".into();

    assert_eq!(
        Message::parse(&vec![
            0b00010100, // Declaration
            0, 29, // Length
            0b01100100, 0b01110100, 0b01101110, 0b00111010, 0b00101111, 0b00101111, 0b01110010,
            0b01110101, 0b01110011, 0b01110100, 0b00101101, 0b01101100, 0b01100001, 0b01101110,
            0b01100111, 0b00101110, 0b01101111, 0b01110010, 0b01100111, 0b00101111, 0b01110010,
            0b01110101, 0b01110011, 0b01110100, 0b01011111, 0b01110100, 0b01100101, 0b01110011,
            0b01110100, // Source EID
            0, 0, 0, 0, 0, 0, 0, 13, // Payload length
            0b01001000, 0b01100101, 0b01101100, 0b01101100, 0b01101111, 0b00100000, 0b01110111,
            0b01101111, 0b01110010, 0b01101100, 0b01100100, 0b00100000, 0b00100001 // Payload
        ])
        .unwrap(),
        Message::RecvBundle("dtn://rust-lang.org/rust_test".into(), payload)
    )
}

#[test]
fn test_sendconfirm_to_bytes() {
    assert_eq!(
        Message::SendConfirm(BundleIdentifier(735469895_u64.to_be_bytes())).to_bytes(),
        vec![
            0b00010101, // Declaration
            0, 0, 0, 0, 0b00101011, 0b11010110, 0b01100001, 0b01000111 // Bundle ID
        ]
    )
}

#[test]
fn test_sendconfirm_parse() {
    assert_eq!(
        Message::parse(&vec![
            0b00010101, 0, 0, 0, 0, 0b00101011, 0b11010110, 0b01100001, 0b01000111
        ])
        .unwrap(),
        Message::SendConfirm(BundleIdentifier(735469895_u64.to_be_bytes()))
    )
}

#[test]
fn test_bundle_cancelled_to_bytes() {
    assert_eq!(
        Message::CancelBundle(BundleIdentifier(735469895_u64.to_be_bytes())).to_bytes(),
        vec![
            0b00010110, // Declaration
            0, 0, 0, 0, 0b00101011, 0b11010110, 0b01100001, 0b01000111, // Bundle ID
        ]
    )
}

#[test]
fn test_bundle_cancelled_parse() {
    assert_eq!(
        Message::parse(&vec![
            0b00010110, 0, 0, 0, 0, 0b00101011, 0b11010110, 0b01100001, 0b01000111
        ])
        .unwrap(),
        Message::CancelBundle(BundleIdentifier(735469895_u64.to_be_bytes()))
    )
}

#[test]
fn test_welcome_to_bytes() {
    assert_eq!(
        Message::Welcome("dtn://rust-lang.org/".into()).to_bytes(),
        vec![
            0b00010111, // Declaration
            0, 20, // Length
            0b01100100, 0b01110100, 0b01101110, 0b00111010, 0b00101111, 0b00101111, 0b01110010,
            0b01110101, 0b01110011, 0b01110100, 0b00101101, 0b01101100, 0b01100001, 0b01101110,
            0b01100111, 0b00101110, 0b01101111, 0b01110010, 0b01100111, 0b00101111, // Node EID
        ]
    )
}

#[test]
fn test_welcome_parse() {
    assert_eq!(
        Message::parse(&vec![
            0b00010111, // Declaration
            0, 20, // Length
            0b01100100, 0b01110100, 0b01101110, 0b00111010, 0b00101111, 0b00101111, 0b01110010,
            0b01110101, 0b01110011, 0b01110100, 0b00101101, 0b01101100, 0b01100001, 0b01101110,
            0b01100111, 0b00101110, 0b01101111, 0b01110010, 0b01100111, 0b00101111, // Node EID
        ])
        .unwrap(),
        Message::Welcome("dtn://rust-lang.org/".into())
    )
}

#[test]
fn test_ping_to_bytes() {
    assert_eq!(Message::Ping.to_bytes(), vec![0b00011000])
}

#[test]
fn test_ping_parse() {
    assert_eq!(Message::parse(&vec![0b00011000]).unwrap(), Message::Ping)
}

#[test]
fn round_trip_all_variants() {
    let messages = vec![
        Message::Ack,
        Message::Nack,
        Message::Register("agent".into()),
        Message::Welcome("dtn://node.dtn/".into()),
        Message::SendBundle("dtn://dest.dtn/x".into(), vec![1, 2, 3, 0, 255]),
        Message::RecvBundle("dtn://src.dtn/y".into(), vec![]),
        Message::SendConfirm(BundleIdentifier([1, 2, 3, 4, 5, 6, 7, 8])),
        Message::CancelBundle(BundleIdentifier([0xFF; 8])),
        Message::Ping,
    ];
    for m in messages {
        let bytes = m.to_bytes();
        let (parsed, consumed) = Message::parse_buffer(&bytes).unwrap();
        assert_eq!(parsed, m);
        assert_eq!(consumed, bytes.len());
    }
}

#[test]
fn parse_buffer_incomplete_on_every_strict_prefix() {
    let m = Message::SendBundle("dtn://dest.dtn/app".into(), vec![9, 8, 7, 6, 5]);
    let bytes = m.to_bytes();
    for cut in 0..bytes.len() {
        assert!(matches!(
            Message::parse_buffer(&bytes[..cut]),
            Err(ParseError::UnexpectedEnd)
        ));
    }
}

#[test]
fn parse_rejects_unknown_type_without_waiting() {
    // The reserved low nibbles 9 and 10 must fail fatally, never count as
    // incomplete, even when only the header byte arrived.
    assert!(matches!(
        Message::parse_buffer(&[0x19]),
        Err(ParseError::UnknownType(9))
    ));
    assert!(matches!(
        Message::parse_buffer(&[0x1A]),
        Err(ParseError::UnknownType(10))
    ));
    assert!(matches!(
        Message::parse_buffer(&[0x1F]),
        Err(ParseError::UnknownType(15))
    ));
}

#[test]
fn parse_rejects_wrong_version() {
    assert!(matches!(
        Message::parse_buffer(&[0x20]),
        Err(ParseError::VersionNotSupported)
    ));
    assert!(matches!(
        Message::parse_buffer(&[0x00]),
        Err(ParseError::VersionNotSupported)
    ));
}

#[test]
fn parse_rejects_invalid_utf8_text() {
    // Register with a 2-byte text field that is not valid UTF-8.
    assert!(matches!(
        Message::parse_buffer(&[0x12, 0, 2, 0xC3, 0x28]),
        Err(ParseError::Utf8Error)
    ));
    // The same length with valid UTF-8 decodes to the expected string.
    let parsed = Message::parse(&[0x12, 0, 2, 0xC3, 0xA9]).unwrap();
    assert_eq!(parsed, Message::Register("\u{e9}".into()));
}

#[test]
fn parse_buffer_leaves_trailing_bytes() {
    let mut bytes = Message::Ping.to_bytes();
    bytes.extend_from_slice(&[0x10, 0x11]);
    let (parsed, consumed) = Message::parse_buffer(&bytes).unwrap();
    assert_eq!(parsed, Message::Ping);
    assert_eq!(consumed, 1);
}

#[test]
fn legacy_identifier_exposes_plain_counter() {
    let id = BundleIdentifier(735469895_u64.to_be_bytes());
    assert_eq!(id.sequence_number(), Some(735469895));
    assert_eq!(id.creation_time(), None);
}

#[test]
fn versioned_identifier_without_time() {
    let id = BundleIdentifier([0x80, 0, 0, 0, 0, 0, 0, 5]);
    assert_eq!(id.sequence_number(), Some(5));
    assert_eq!(id.creation_time(), None);
}

#[test]
fn versioned_identifier_with_embedded_time() {
    // High bit and time bit set; low 6 bits of byte 0 and bytes 1-5 hold
    // the 48-bit timestamp, bytes 6-7 the 16-bit sequence.
    let id = BundleIdentifier([0xC1, 0, 0, 0, 0, 7, 0, 5]);
    assert_eq!(id.sequence_number(), Some(5));
    assert_eq!(
        id.creation_time(),
        Some(DtnTime((1u64 << 40) + 7))
    );
}

#[test]
fn dtn_time_conversions_agree_on_the_epoch() {
    let epoch = DtnTime(0);
    assert_eq!(
        epoch.as_system_time().unwrap(),
        std::time::SystemTime::UNIX_EPOCH + std::time::Duration::from_secs(946684800)
    );
    let expected = chrono::NaiveDate::from_ymd_opt(2000, 1, 1)
        .unwrap()
        .and_hms_opt(0, 0, 0)
        .unwrap();
    assert_eq!(epoch.as_datetime().unwrap(), expected);
}

#[test]
fn datetime_conversion_covers_the_calendar_range_exactly() {
    // The last Unix millisecond chrono's calendar type can hold: the end of
    // 262142-12-31. One DTN millisecond later the conversion reports None.
    let max_unix_millis: u64 = 8210266876799999;
    let offset_millis: u64 = 946684800000;
    assert!(DtnTime(max_unix_millis - offset_millis).as_datetime().is_some());
    assert!(DtnTime(max_unix_millis - offset_millis + 1).as_datetime().is_none());
}

#[test]
fn dtn_time_orders_by_raw_count() {
    assert!(DtnTime(5) < DtnTime(6));
    assert_eq!(DtnTime(7), DtnTime(7));
    let later = DtnTime(1500);
    assert_eq!(
        later.as_datetime().unwrap(),
        chrono::NaiveDate::from_ymd_opt(2000, 1, 1)
            .unwrap()
            .and_hms_milli_opt(0, 0, 1, 500)
            .unwrap()
    );
}
