use unread_core::codec::{DecodeError, EventCommon, MessageSend, MessageSendAck};

#[test]
fn event_encoding_has_the_documented_bytes() {
    let e = EventCommon { event_type: 1, data: String::from("hi") };
    assert_eq!(e.to_bytes(), vec![0x08, 0x01, 0x12, 0x02, b'h', b'i']);
}

#[test]
fn default_valued_fields_are_omitted() {
    let e = EventCommon { event_type: 0, data: String::new() };
    assert_eq!(e.to_bytes(), Vec::<u8>::new());
    let e = EventCommon { event_type: 0, data: String::from("hi") };
    assert_eq!(e.to_bytes(), vec![0x12, 0x02, b'h', b'i']);
    let e = EventCommon { event_type: 7, data: String::new() };
    assert_eq!(e.to_bytes(), vec![0x08, 0x07]);
}

#[test]
fn empty_input_decodes_to_the_all_default_event() {
    let parsed = EventCommon::from_bytes(&[]).unwrap();
    assert_eq!(parsed.event_type, 0);
    assert_eq!(parsed.data, "");
}

#[test]
fn an_omitted_field_decodes_to_its_default() {
    let parsed = EventCommon::from_bytes(&[0x12, 0x02, b'h', b'i']).unwrap();
    assert_eq!(parsed.event_type, 0);
    assert_eq!(parsed.data, "hi");
    let parsed = EventCommon::from_bytes(&[0x08, 0x07]).unwrap();
    assert_eq!(parsed.event_type, 7);
    assert_eq!(parsed.data, "");
}

#[test]
fn event_round_trip() {
    let e = EventCommon { event_type: 7, data: String::from("payload {\"k\":3}") };
    let parsed = EventCommon::from_bytes(&e.to_bytes()).unwrap();
    assert_eq!(parsed.event_type, 7);
    assert_eq!(parsed.data, "payload {\"k\":3}");
}

#[test]
fn event_round_trip_negative_type() {
    let e = EventCommon { event_type: -1, data: String::new() };
    let bytes = e.to_bytes();
    // a negative type is sign-extended to a ten-byte integer
    assert_eq!(
        bytes,
        vec![0x08, 0xff, 0xff, 0xff, 0xff, 0xff, 0xff, 0xff, 0xff, 0xff, 0x01]
    );
    let parsed = EventCommon::from_bytes(&bytes).unwrap();
    assert_eq!(parsed.event_type, -1);
    assert_eq!(parsed.data, "");
}

#[test]
fn event_round_trip_extreme_types() {
    for t in [i32::MIN, i32::MAX, -1234567, 1234567] {
        let e = EventCommon { event_type: t, data: String::from("x") };
        let parsed = EventCommon::from_bytes(&e.to_bytes()).unwrap();
        assert_eq!(parsed.event_type, t);
    }
}

#[test]
fn event_round_trip_multibyte_text() {
    let e = EventCommon { event_type: 2, data: String::from("caf\u{e9} \u{1F514}") };
    let parsed = EventCommon::from_bytes(&e.to_bytes()).unwrap();
    assert_eq!(parsed.data, "caf\u{e9} \u{1F514}");
}

#[test]
fn no_truncation_of_an_event_passes_for_the_original() {
    // a prefix cut on a field boundary is itself a canonical encoding of a
    // shorter message; any other prefix is rejected; none yields the
    // original back
    let e = EventCommon { event_type: 300, data: String::from("hello") };
    let bytes = e.to_bytes();
    for k in 0..bytes.len() {
        match EventCommon::from_bytes(&bytes[..k]) {
            Err(_) => {},
            Ok(m) => {
                assert!(m.event_type != e.event_type || m.data != e.data);
                assert_eq!(m.to_bytes(), &bytes[..k]);
            },
        }
    }
}

#[test]
fn event_decode_rejects_an_explicitly_encoded_default() {
    // a field holding its default value must be omitted, not written out
    assert!(matches!(
        EventCommon::from_bytes(&[0x08, 0x00]),
        Err(DecodeError::InvalidVarint { .. })
    ));
    assert!(matches!(
        EventCommon::from_bytes(&[0x12, 0x00]),
        Err(DecodeError::Truncated { .. })
    ));
}

#[test]
fn event_decode_rejects_an_unknown_tag() {
    assert!(matches!(
        EventCommon::from_bytes(&[0x10, 0x01]),
        Err(DecodeError::TrailingBytes { .. })
    ));
}

#[test]
fn event_decode_rejects_non_minimal_integer() {
    // 0x80 0x00 carries the value zero in two bytes instead of one
    assert!(EventCommon::from_bytes(&[0x08, 0x80, 0x00]).is_err());
}

#[test]
fn event_decode_rejects_trailing_bytes() {
    let e = EventCommon { event_type: 1, data: String::from("a") };
    let mut bytes = e.to_bytes();
    bytes.push(0x00);
    assert!(matches!(
        EventCommon::from_bytes(&bytes),
        Err(DecodeError::TrailingBytes { .. })
    ));
}

#[test]
fn event_decode_rejects_invalid_text_bytes() {
    assert!(matches!(
        EventCommon::from_bytes(&[0x08, 0x01, 0x12, 0x01, 0xff]),
        Err(DecodeError::InvalidUtf8 { .. })
    ));
}

#[test]
fn event_decode_rejects_length_past_the_end() {
    assert!(matches!(
        EventCommon::from_bytes(&[0x12, 0x05, b'a']),
        Err(DecodeError::Truncated { .. })
    ));
}

#[test]
fn event_decode_rejects_oversized_type_value() {
    // field 1 carries 2^63, which is the image of no 32-bit integer
    assert!(matches!(
        EventCommon::from_bytes(&[
            0x08, 0x80, 0x80, 0x80, 0x80, 0x80, 0x80, 0x80, 0x80, 0x80, 0x01
        ]),
        Err(DecodeError::OutOfRange { .. })
    ));
}

#[test]
fn decode_errors_carry_a_readable_description() {
    let err = EventCommon::from_bytes(&[0x08, 0x80, 0x00]).unwrap_err();
    assert_eq!(err.describe(), "invalid integer field at offset 0");
    let err = EventCommon::from_bytes(&[0x12, 0x05, b'a']).unwrap_err();
    assert_eq!(err.describe(), "truncated byte run at offset 0");
}

#[test]
fn message_encoding_has_the_documented_bytes() {
    let m = MessageSend {
        msg_type: 1,
        content: String::from("hi"),
        to_id: 42,
        is_room: true,
        meta: String::new(),
    };
    // the empty metadata field is omitted
    assert_eq!(
        m.to_bytes(),
        vec![0x08, 0x01, 0x12, 0x02, b'h', b'i', 0x18, 42, 0x20, 0x01]
    );
}

#[test]
fn all_default_message_encodes_to_no_bytes() {
    let m = MessageSend {
        msg_type: 0,
        content: String::new(),
        to_id: 0,
        is_room: false,
        meta: String::new(),
    };
    assert_eq!(m.to_bytes(), Vec::<u8>::new());
    let parsed = MessageSend::from_bytes(&[]).unwrap();
    assert_eq!(parsed.msg_type, 0);
    assert_eq!(parsed.content, "");
    assert_eq!(parsed.to_id, 0);
    assert!(!parsed.is_room);
    assert_eq!(parsed.meta, "");
}

#[test]
fn message_round_trip() {
    let m = MessageSend {
        msg_type: -5,
        content: String::from("body"),
        to_id: u64::MAX,
        is_room: false,
        meta: String::from("{\"prio\":1}"),
    };
    let parsed = MessageSend::from_bytes(&m.to_bytes()).unwrap();
    assert_eq!(parsed.msg_type, -5);
    assert_eq!(parsed.content, "body");
    assert_eq!(parsed.to_id, u64::MAX);
    assert!(!parsed.is_room);
    assert_eq!(parsed.meta, "{\"prio\":1}");
}

#[test]
fn no_truncation_of_a_message_passes_for_the_original() {
    let m = MessageSend {
        msg_type: 3,
        content: String::from("abc"),
        to_id: 300,
        is_room: true,
        meta: String::from("m"),
    };
    let bytes = m.to_bytes();
    for k in 0..bytes.len() {
        match MessageSend::from_bytes(&bytes[..k]) {
            Err(_) => {},
            Ok(p) => {
                assert!(
                    p.msg_type != m.msg_type
                        || p.content != m.content
                        || p.to_id != m.to_id
                        || p.is_room != m.is_room
                        || p.meta != m.meta
                );
                assert_eq!(p.to_bytes(), &bytes[..k]);
            },
        }
    }
}

#[test]
fn message_decode_rejects_out_of_range_flag() {
    // the room flag may only carry the value one when present
    assert!(matches!(
        MessageSend::from_bytes(&[0x20, 0x02]),
        Err(DecodeError::OutOfRange { .. })
    ));
}

#[test]
fn ack_round_trip() {
    let a = MessageSendAck { ack_type: 9, msg_id: 123456789, ok: true };
    let parsed = MessageSendAck::from_bytes(&a.to_bytes()).unwrap();
    assert_eq!(parsed, a);
}

#[test]
fn ack_encoding_has_the_documented_bytes() {
    let a = MessageSendAck { ack_type: 2, msg_id: 5, ok: false };
    // the false flag is omitted
    assert_eq!(a.to_bytes(), vec![0x08, 0x02, 0x10, 0x05]);
    let a = MessageSendAck { ack_type: 0, msg_id: 0, ok: false };
    assert_eq!(a.to_bytes(), Vec::<u8>::new());
}

#[test]
fn no_truncation_of_an_ack_passes_for_the_original() {
    let a = MessageSendAck { ack_type: -2, msg_id: u64::MAX, ok: true };
    let bytes = a.to_bytes();
    for k in 0..bytes.len() {
        match MessageSendAck::from_bytes(&bytes[..k]) {
            Err(_) => {},
            Ok(p) => {
                assert_ne!(p, a);
                assert_eq!(p.to_bytes(), &bytes[..k]);
            },
        }
    }
}

#[test]
fn decode_of_garbage_never_panics() {
    let garbage: [&[u8]; 5] = [
        &[0xff],
        &[0x08],
        &[0x00, 0x00, 0x00],
        &[0x08, 0xff, 0xff, 0xff, 0xff, 0xff, 0xff, 0xff, 0xff, 0xff, 0xff],
        &[0x2a],
    ];
    for g in garbage {
        assert!(EventCommon::from_bytes(g).is_err());
        assert!(MessageSend::from_bytes(g).is_err());
        assert!(MessageSendAck::from_bytes(g).is_err());
    }
}
