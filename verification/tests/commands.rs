use base64::Engine;
use unread_core::commands::{
    clear_unread, create_event_message, create_message_send, get_unread_count, greet,
    handle_menu_choice, increment_unread, parse_event_message, parse_message_send,
    unread_changed_notification, MenuOutcome,
};
use unread_core::counter::UnreadCount;

#[test]
fn three_increments_then_clear_report_1_2_3_0() {
    let mut c = UnreadCount::new();
    let mut counts: Vec<u32> = Vec::new();
    let mut payloads: Vec<u32> = Vec::new();
    for _ in 0..3 {
        let u = increment_unread(&mut c);
        counts.push(u.count);
        assert_eq!(u.notification.channel, "unread-count-changed");
        payloads.push(u.notification.payload);
    }
    assert_eq!(get_unread_count(&c), 3);
    let u = clear_unread(&mut c);
    counts.push(u.count);
    assert_eq!(u.notification.channel, "unread-count-changed");
    payloads.push(u.notification.payload);
    assert_eq!(counts, vec![1, 2, 3, 0]);
    assert_eq!(payloads, vec![1, 2, 3, 0]);
    assert_eq!(get_unread_count(&c), 0);
}

#[test]
fn increment_bundles_the_surface_text() {
    let mut c = UnreadCount::new();
    let u = increment_unread(&mut c);
    assert_eq!(u.surfaces.tray_title, "Demo 1");
    assert_eq!(u.surfaces.badge_label, "1");
    let u = clear_unread(&mut c);
    assert_eq!(u.surfaces.tray_title, "Demo");
    assert_eq!(u.surfaces.badge_label, "");
}

#[test]
fn notification_uses_the_fixed_channel() {
    let n = unread_changed_notification(17);
    assert_eq!(n.channel, "unread-count-changed");
    assert_eq!(n.payload, 17);
}

#[test]
fn created_event_is_base64_of_the_wire_bytes() {
    let encoded = create_event_message(1, String::from("hi")).unwrap();
    let expected_bytes = vec![0x08u8, 0x01, 0x12, 0x02, b'h', b'i'];
    assert_eq!(
        encoded,
        base64::engine::general_purpose::STANDARD.encode(&expected_bytes)
    );
    let bytes = base64::engine::general_purpose::STANDARD.decode(&encoded).unwrap();
    assert_eq!(bytes, expected_bytes);
}

#[test]
fn event_message_round_trip_through_commands() {
    let encoded = create_event_message(-3, String::from("data \u{1F514}")).unwrap();
    let parsed = parse_event_message(encoded).unwrap();
    assert_eq!(parsed.event_type, -3);
    assert_eq!(parsed.data, "data \u{1F514}");
}

#[test]
fn message_send_round_trip_through_commands() {
    let encoded = create_message_send(1, String::from("hi"), 42, false, None).unwrap();
    let parsed = parse_message_send(encoded).unwrap();
    assert_eq!(parsed.msg_type, 1);
    assert_eq!(parsed.content, "hi");
    assert_eq!(parsed.to_id, 42);
    assert!(!parsed.is_room);
    assert_eq!(parsed.meta, "");
}

#[test]
fn message_send_keeps_explicit_meta() {
    let encoded =
        create_message_send(2, String::from("x"), 7, true, Some(String::from("m"))).unwrap();
    let parsed = parse_message_send(encoded).unwrap();
    assert!(parsed.is_room);
    assert_eq!(parsed.meta, "m");
}

#[test]
fn parse_rejects_text_that_is_not_base64() {
    let err = parse_event_message(String::from("not base64!!")).unwrap_err();
    assert!(err.starts_with("Base64 decode error: "), "{err}");
    let err = parse_message_send(String::from("@@@@")).unwrap_err();
    assert!(err.starts_with("Base64 decode error: "), "{err}");
}

#[test]
fn parse_rejects_valid_base64_of_invalid_schema_bytes() {
    // valid base64 text whose bytes fit no message shape must surface a
    // schema error, never a default-valued message
    let bogus = base64::engine::general_purpose::STANDARD.encode([0xffu8, 0x00, 0x01]);
    let err = parse_event_message(bogus.clone()).unwrap_err();
    assert!(err.starts_with("Protobuf decode error: "), "{err}");
    let err = parse_message_send(bogus).unwrap_err();
    assert!(err.starts_with("Protobuf decode error: "), "{err}");
    // the single byte 0xFF is valid base64 text "/w==" but fits no message
    let err = parse_event_message(String::from("/w==")).unwrap_err();
    assert!(err.starts_with("Protobuf decode error: "), "{err}");
}

#[test]
fn parse_rejects_base64_with_noncanonical_padding() {
    // same bits, but carried under relaxed padding the strict engine refuses
    let relaxed = base64::engine::general_purpose::STANDARD_NO_PAD.encode([0x08u8, 0x01]);
    if base64::engine::general_purpose::STANDARD.decode(&relaxed).is_err() {
        assert!(parse_event_message(relaxed).unwrap_err().starts_with("Base64 decode error: "));
    }
}

#[test]
fn all_default_event_travels_as_the_empty_text() {
    // the all-default event encodes to zero bytes, whose base64 is ""
    let encoded = create_event_message(0, String::new()).unwrap();
    assert_eq!(encoded, "");
    let parsed = parse_event_message(encoded).unwrap();
    assert_eq!(parsed.event_type, 0);
    assert_eq!(parsed.data, "");
}

#[test]
fn greet_builds_the_fixed_sentence() {
    assert_eq!(greet("World"), "Hello, World! You've been greeted from Rust!");
}

#[test]
fn menu_choice_routes_each_identifier() {
    let mut c = UnreadCount::new();
    assert!(matches!(
        handle_menu_choice(&mut c, &String::from("show")),
        MenuOutcome::ShowWindow
    ));
    match handle_menu_choice(&mut c, &String::from("increment")) {
        MenuOutcome::Updated(u) => {
            assert_eq!(u.count, 1);
            assert_eq!(u.surfaces.tray_title, "Demo 1");
            assert_eq!(u.notification.payload, 1);
        },
        _ => panic!("increment must update the counter"),
    }
    match handle_menu_choice(&mut c, &String::from("clear")) {
        MenuOutcome::Updated(u) => {
            assert_eq!(u.count, 0);
        },
        _ => panic!("clear must update the counter"),
    }
    assert!(matches!(
        handle_menu_choice(&mut c, &String::from("quit")),
        MenuOutcome::Quit
    ));
    assert!(matches!(
        handle_menu_choice(&mut c, &String::from("anything else")),
        MenuOutcome::Ignored
    ));
    assert_eq!(c.get(), 0);
}
