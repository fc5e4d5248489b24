use printers::device_id::DeviceId;

#[test]
fn device_id_fields_are_read_by_their_long_or_short_keys() {
    let id = DeviceId::parse("MANUFACTURER:Acme;MDL:Laser 9000;SERN:123;");

    assert_eq!(id.manufacturer(), Some("Acme"));
    assert_eq!(id.model(), Some("Laser 9000"));
    assert_eq!(id.serial_number(), Some("123"));
    assert_eq!(id.raw(), "MANUFACTURER:Acme;MDL:Laser 9000;SERN:123;");
    assert!(!id.is_empty());
}

#[test]
fn a_device_id_without_fields_is_empty() {
    let id = DeviceId::parse("");

    assert!(id.is_empty());
    assert_eq!(id.manufacturer(), None);
}
