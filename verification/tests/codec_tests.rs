use dante_control::manager::DanteDeviceManager;
use dante_control::codec::subscription_port;
use dante_control::version::DanteVersion;

#[test]
fn subscription_v4_4_header_and_length() {
    // A fresh manager stamps sequence number zero; the envelope length
    // field counts the payload plus ten.
    let mut m = DanteDeviceManager::new();
    let dg = m.make_subscription(&DanteVersion::Dante4_4_1_3, 0x0005, b"dev", b"ch");
    assert_eq!(dg.len(), 283);
    assert_eq!(&dg[0..10], &[0x28, 0x30, 0x01, 0x1B, 0x00, 0x00, 0x34, 0x10, 0x00, 0x00]);
    assert_eq!(subscription_port(), 4440);
}

#[test]
fn subscription_v4_4_payload_layout() {
    // Payload length = 266 + 2 + 1 + 3 + 1 = 273; end_pos at payload
    // offset 16 = 276 + len("ch") + 1 = 279.
    let mut m = DanteDeviceManager::new();
    let dg = m.make_subscription(&DanteVersion::Dante4_4_1_3, 0x0005, b"dev", b"ch");
    let payload = &dg[10..];
    assert_eq!(payload.len(), 273);
    assert_eq!(
        &payload[0..10],
        &[0x00, 0x00, 0x00, 0x00, 0x00, 0x00, 0x08, 0x00, 0x20, 0x01]
    );
    assert_eq!(&payload[10..12], &[0x00, 0x05]);
    assert_eq!(&payload[12..16], &[0x00, 0x03, 0x01, 0x14]);
    assert_eq!(&payload[16..18], &[0x01, 0x17]); // 279 big-endian
    assert!(payload[18..266].iter().all(|b| *b == 0));
    assert_eq!(&payload[266..268], b"ch");
    assert_eq!(payload[268], 0);
    assert_eq!(&payload[269..272], b"dev");
    assert_eq!(payload[272], 0);
}

#[test]
fn subscription_v4_2_payload_layout() {
    // Payload length = 322 + 2 + 1 + 3 + 1 = 329; end_pos = 332 +
    // len("ch") + 1 = 335.
    let mut m = DanteDeviceManager::new();
    let dg = m.make_subscription(&DanteVersion::Dante4_2_1_3, 0x0005, b"dev", b"ch");
    let payload = &dg[10..];
    assert_eq!(payload.len(), 329);
    assert_eq!(&dg[6..8], &[0x30, 0x10]);
    assert_eq!(&payload[0..2], &[0x10, 0x01]);
    assert_eq!(&payload[2..4], &[0x00, 0x05]);
    assert_eq!(&payload[4..6], &[0x01, 0x4C]);
    assert_eq!(&payload[6..8], &[0x01, 0x4F]); // 335 big-endian
    assert!(payload[8..322].iter().all(|b| *b == 0));
    assert_eq!(&payload[322..324], b"ch");
    assert_eq!(payload[324], 0);
    assert_eq!(&payload[325..328], b"dev");
    assert_eq!(payload[328], 0);
}

#[test]
fn clear_v4_4_payload_is_266_zero_tailed() {
    let mut m = DanteDeviceManager::new();
    let dg = m.clear_subscription(&DanteVersion::Dante4_4_1_3, 0x0003);
    let payload = &dg[10..];
    assert_eq!(payload.len(), 266);
    assert_eq!(
        &payload[0..10],
        &[0x00, 0x00, 0x00, 0x00, 0x00, 0x00, 0x08, 0x00, 0x20, 0x01]
    );
    assert_eq!(&payload[10..12], &[0x00, 0x03]);
    assert_eq!(&payload[12..18], &[0x00, 0x03, 0x00, 0x00, 0x00, 0x00]);
    assert!(payload[18..].iter().all(|b| *b == 0));
}

#[test]
fn clear_v4_2_datagram_shape() {
    // A 332-byte datagram; payload bytes [2..4] carry the channel id and
    // [4..322] are zero.
    let mut m = DanteDeviceManager::new();
    let dg = m.clear_subscription(&DanteVersion::Dante4_2_1_3, 0x0007);
    assert_eq!(dg.len(), 332);
    let payload = &dg[10..];
    assert_eq!(payload.len(), 322);
    assert_eq!(&payload[0..2], &[0x10, 0x01]);
    assert_eq!(&payload[2..4], &[0x00, 0x07]);
    assert!(payload[4..].iter().all(|b| *b == 0));
}

#[test]
fn sequence_numbers_increment() {
    let mut m = DanteDeviceManager::new();
    let d0 = m.make_subscription(&DanteVersion::Dante4_4_1_3, 1, b"d", b"c");
    let d1 = m.make_subscription(&DanteVersion::Dante4_4_1_3, 1, b"d", b"c");
    let d2 = m.clear_subscription(&DanteVersion::Dante4_4_1_3, 1);
    assert_eq!(&d0[4..6], &[0x00, 0x00]);
    assert_eq!(&d1[4..6], &[0x00, 0x01]);
    assert_eq!(&d2[4..6], &[0x00, 0x02]);
}

#[test]
fn sequence_number_wraps() {
    let mut m = DanteDeviceManager::new();
    m.current_command_sequence_id = 0xFFFF;
    let d0 = m.clear_subscription(&DanteVersion::Dante4_4_1_3, 1);
    let d1 = m.clear_subscription(&DanteVersion::Dante4_4_1_3, 1);
    assert_eq!(&d0[4..6], &[0xFF, 0xFF]);
    assert_eq!(&d1[4..6], &[0x00, 0x00]);
    assert_eq!(m.current_command_sequence_id, 1);
}

#[test]
fn version_from_string_roundtrip() {
    assert!(matches!(
        DanteVersion::from_string("4.4.1.3"),
        Some(DanteVersion::Dante4_4_1_3)
    ));
    assert!(matches!(
        DanteVersion::from_string("4.2.1.3"),
        Some(DanteVersion::Dante4_2_1_3)
    ));
    assert!(DanteVersion::from_string("4.0.0.0").is_none());
    assert!(DanteVersion::from_string("").is_none());
    assert_eq!(DanteVersion::Dante4_4_1_3.version_string(), "4.4.1.3");
    assert_eq!(DanteVersion::Dante4_2_1_3.version_string(), "4.2.1.3");
}

#[test]
fn command_codes_per_version() {
    assert_eq!(
        DanteVersion::Dante4_4_1_3.get_commands().command_subscription,
        [0x34, 0x10]
    );
    assert_eq!(
        DanteVersion::Dante4_2_1_3.get_commands().command_subscription,
        [0x30, 0x10]
    );
}

#[test]
fn subscription_with_empty_names() {
    let mut m = DanteDeviceManager::new();
    let dg = m.make_subscription(&DanteVersion::Dante4_4_1_3, 0, b"", b"");
    // Payload: 266 fixed bytes plus two NUL terminators.
    assert_eq!(dg.len(), 10 + 268);
    let payload = &dg[10..];
    assert_eq!(&payload[16..18], &[0x01, 0x15]); // end_pos = 277
    assert_eq!(payload[266], 0);
    assert_eq!(payload[267], 0);
}
