use unread_core::device::{device_info_from, get_device_info, hyphenated_string};

#[test]
fn identifier_matches_the_uuid_crate() {
    // the verified derivation and rendering must agree, byte for byte, with
    // what the uuid crate itself computes for the same inputs
    let info = device_info_from(
        Some(String::from("aa:bb:cc:dd:ee:ff")),
        Some(String::from("myhost")),
    );
    let namespace = uuid::Uuid::new_v5(&uuid::Uuid::NAMESPACE_DNS, b"tauri.device.id");
    let expected = uuid::Uuid::new_v5(&namespace, b"myhost:aa:bb:cc:dd:ee:ff");
    assert_eq!(info.device_id, expected.to_string());
    assert_eq!(info.mac_address, "aa:bb:cc:dd:ee:ff");
}

#[test]
fn missing_reads_fall_back_to_fixed_names() {
    let info = device_info_from(None, None);
    assert_eq!(info.mac_address, "unknown");
    let namespace = uuid::Uuid::new_v5(&uuid::Uuid::NAMESPACE_DNS, b"tauri.device.id");
    let expected = uuid::Uuid::new_v5(&namespace, b"unknown-host:unknown");
    assert_eq!(info.device_id, expected.to_string());
}

#[test]
fn same_inputs_give_the_same_identifier() {
    let a = device_info_from(Some(String::from("m")), Some(String::from("h")));
    let b = device_info_from(Some(String::from("m")), Some(String::from("h")));
    assert_eq!(a.device_id, b.device_id);
}

#[test]
fn hyphenated_rendering_matches_the_uuid_crate() {
    let bytes: [u8; 16] = [
        0x6b, 0xa7, 0xb8, 0x10, 0x9d, 0xad, 0x11, 0xd1, 0x80, 0xb4, 0x00, 0xc0, 0x4f, 0xd4,
        0x30, 0xc8,
    ];
    assert_eq!(
        hyphenated_string(&bytes),
        uuid::Uuid::from_bytes(bytes).to_string()
    );
    assert_eq!(hyphenated_string(&bytes), "6ba7b810-9dad-11d1-80b4-00c04fd430c8");
}

#[test]
fn get_device_info_succeeds_and_renders_an_identifier() {
    let info = get_device_info().unwrap();
    assert_eq!(info.device_id.len(), 36);
    assert!(info.device_id.chars().all(|c| c == '-' || c.is_ascii_hexdigit()));
    assert!(!info.mac_address.is_empty());
}
