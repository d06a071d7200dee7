//! Tests for the vendor registry and the JEDEC decoder.

use ch347_rs::model::parse_jedec_id;
use ch347_rs::model::Capacity;

#[test]
fn mod_test_parse_jedec_id() {
    assert!(parse_jedec_id(&[0xFF, 0xFF, 0xFF]).is_none());
    assert!(parse_jedec_id(&[0x00, 0x00, 0x00]).is_none());
    assert!(parse_jedec_id(&[]).is_none());
}

#[test]
fn winbond_test_parse_jedec_id() {
    for (id, name, cap) in vec![
        (&[0xEF, 0x40, 0x10], "W25Q05", Capacity::C05),
        (&[0xEF, 0x40, 0x11], "W25Q10", Capacity::C10),
        (&[0xEF, 0x40, 0x12], "W25Q20", Capacity::C20),
        (&[0xEF, 0x40, 0x13], "W25Q40", Capacity::C40),
        (&[0xEF, 0x40, 0x14], "W25Q80", Capacity::C80),
        (&[0xEF, 0x40, 0x15], "W25Q16", Capacity::C16),
        (&[0xEF, 0x40, 0x16], "W25Q32", Capacity::C32),
    ] {
        assert!(parse_jedec_id(id).is_some());

        let chip = parse_jedec_id(id).unwrap();

        assert_eq!(name, &chip.name);
        assert_eq!(cap, chip.capacity);
    }
}

#[test]
fn parse_jedec_id_w25q16_scenario() {
    let chip = parse_jedec_id(&[0xEF, 0x40, 0x15]).unwrap();
    assert_eq!(chip.name, "W25Q16");
    assert_eq!(chip.capacity, Capacity::C16);
    assert_eq!(chip.capacity.byte_count(), 2097152);
    assert_eq!(chip.vendor.id, 0xEF);
    assert_eq!(chip.vendor.name, "Winbond (ex Nexcom) serial flashes");
}

#[test]
fn parse_jedec_id_other_vendors() {
    let chip = parse_jedec_id(&[0xC2, 0x20, 0x17]).unwrap();
    assert_eq!(chip.name, "MX25L64");
    assert_eq!(chip.capacity, Capacity::C64);
    assert_eq!(chip.vendor.name, "Macronix (MX)");

    let chip = parse_jedec_id(&[0xC2, 0x20, 0x19]).unwrap();
    assert_eq!(chip.name, "MX25L256");
    assert_eq!(chip.capacity, Capacity::C256);

    let chip = parse_jedec_id(&[0x1C, 0x30, 0x16]).unwrap();
    assert_eq!(chip.name, "EN25Q32C");
    assert_eq!(chip.capacity, Capacity::C32);
    assert_eq!(chip.vendor.name, "Eon Silicon");
}

#[test]
fn parse_jedec_id_rejects_near_misses() {
    // Known manufacturer, unknown memory type or capacity code.
    assert!(parse_jedec_id(&[0xEF, 0x41, 0x15]).is_none());
    assert!(parse_jedec_id(&[0xEF, 0x40, 0x1A]).is_none());
    assert!(parse_jedec_id(&[0xC2, 0x20, 0x18]).is_none());
    assert!(parse_jedec_id(&[0x1C, 0x30, 0x17]).is_none());
    // Short inputs decode to nothing.
    assert!(parse_jedec_id(&[0xEF]).is_none());
    assert!(parse_jedec_id(&[0xEF, 0x40]).is_none());
    // GigaDevice decodes chips but is not in the registry.
    assert!(parse_jedec_id(&[0xC8, 0x40, 0x15]).is_none());
}

#[test]
fn gigadevice_decode_function() {
    let vendor = ch347_rs::model::vendor_of(ch347_rs::model::VendorKind::GigaDevice);
    let chip = ch347_rs::model::gigadevice::parse_jedec_id(vendor, (0x40, 0x16)).unwrap();
    assert_eq!(chip.name, "GD25Q32");
    assert_eq!(chip.capacity, Capacity::C32);
    let chip = ch347_rs::model::gigadevice::parse_jedec_id(vendor, (0x60, 0x13)).unwrap();
    assert_eq!(chip.name, "GD25LQ40");
    assert_eq!(chip.capacity, Capacity::C40);
    assert!(ch347_rs::model::gigadevice::parse_jedec_id(vendor, (0x30, 0x13)).is_none());
}

#[test]
fn capacity_round_trips() {
    let cases = vec![
        (Capacity::C05, 64 * 1024, "64 KB"),
        (Capacity::C10, 128 * 1024, "128 KB"),
        (Capacity::C20, 256 * 1024, "256 KB"),
        (Capacity::C40, 512 * 1024, "512 KB"),
        (Capacity::C80, 1024 * 1024, "1 MB"),
        (Capacity::C16, 2 * 1024 * 1024, "2 MB"),
        (Capacity::C32, 4 * 1024 * 1024, "4 MB"),
        (Capacity::C64, 8 * 1024 * 1024, "8 MB"),
        (Capacity::C128, 16 * 1024 * 1024, "16 MB"),
        (Capacity::C256, 32 * 1024 * 1024, "32 MB"),
    ];
    for (cap, bytes, text) in cases {
        assert_eq!(cap.byte_count(), bytes);
        assert_eq!(cap.display_str(), text);
    }
}

#[test]
fn vendor_registry_ids_unique() {
    let list = ch347_rs::model::vendor_list();
    assert_eq!(list.len(), 3);
    for i in 0..list.len() {
        for j in 0..list.len() {
            if i != j {
                assert_ne!(list[i].id, list[j].id);
            }
        }
    }
}
