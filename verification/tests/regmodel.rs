//! Tests for the register model: bitfields, lookup by name, and the
//! bit-level payload readers.

use ch347_rs::model::winbond;
use ch347_rs::registers::find_reg_by_name;
use ch347_rs::registers::item_get;
use ch347_rs::registers::item_set;
use ch347_rs::registers::FindRegType;
use ch347_rs::registers::RegisterAccess;
use ch347_rs::registers::RegisterRead;

#[test]
fn bitfield_get_and_set() {
    let regs = winbond::register_defines();
    let items = regs[0].items.as_ref().unwrap();

    // status_1: busy at bit 0, write_enable at bit 1, block_protect 2..6.
    assert!(item_get(0b0000_0001, &items[0]) == 1);
    assert!(item_get(0b0000_0010, &items[0]) == 0);
    assert!(item_get(0b0000_0010, &items[1]) == 1);
    assert_eq!(item_get(0b0011_1100, &items[2]), 0b1111);
    assert_eq!(item_get(0b0001_0100, &items[2]), 0b0101);

    // Writing a field touches exactly its bits.
    let v = 0b1010_0001u8;
    let w = item_set(v, &items[2], 0b0110);
    assert_eq!(w, 0b1001_1001);
    assert_eq!(item_get(w, &items[2]), 0b0110);
    assert_eq!(w & !0b0011_1100, v & !0b0011_1100);
}

#[test]
fn bitfield_round_trip_on_every_field() {
    let regs = winbond::register_defines();
    for reg in &regs {
        if let Some(items) = &reg.items {
            for item in items {
                for v in [0x00u8, 0xFF, 0x5A, 0xA5] {
                    let x = 0b01u8;
                    let w = item_set(v, item, x);
                    let mask = (0xFFu8 >> (8 - item.width)) << item.offset;
                    assert_eq!(item_get(w, item), x & (0xFFu8 >> (8 - item.width)));
                    assert_eq!(w & !mask, v & !mask);
                }
            }
        }
    }
}

#[test]
fn check_writable_rejects_read_only() {
    let regs = winbond::register_defines();
    let items = regs[0].items.as_ref().unwrap();
    assert!(items[0].check_writable().is_err());
    assert!(items[2].check_writable().is_ok());
    assert_eq!(items[0].access, RegisterAccess::ReadOnly);
    assert_eq!(items[2].access, RegisterAccess::ReadWrite);
}

#[test]
fn find_register_by_its_name() {
    let regs = winbond::register_defines();
    assert_eq!(find_reg_by_name("status_2", &regs), Some(FindRegType::Reg(1)));
    assert_eq!(find_reg_by_name("STATUS_2", &regs), Some(FindRegType::Reg(1)));
    assert_eq!(find_reg_by_name("unique_id", &regs), Some(FindRegType::Reg(3)));
    assert_eq!(find_reg_by_name("nothing_here", &regs), None);
}

#[test]
fn find_item_by_name_and_alias() {
    let regs = winbond::register_defines();
    // Item name, case-insensitively.
    assert_eq!(find_reg_by_name("busy", &regs), Some(FindRegType::RegItem(0, 0)));
    assert_eq!(find_reg_by_name("Quad_Enable", &regs), Some(FindRegType::RegItem(1, 1)));
    // Alias only after no item name matched.
    assert_eq!(find_reg_by_name("QE", &regs), Some(FindRegType::RegItem(1, 1)));
    assert_eq!(find_reg_by_name("wel", &regs), Some(FindRegType::RegItem(0, 1)));
    assert_eq!(find_reg_by_name("ADP", &regs), Some(FindRegType::RegItem(2, 1)));
    // Duplicate names resolve to the first in table order.
    assert_eq!(find_reg_by_name("lock", &regs), Some(FindRegType::RegItem(1, 3)));
    assert_eq!(find_reg_by_name("resv", &regs), Some(FindRegType::RegItem(1, 2)));
}

#[test]
fn register_read_bits() {
    let data = [0b1010_0110u8, 0b0000_0001u8];
    let rr = RegisterRead::new(&data);

    assert_eq!(rr.read_bit(0), Ok(false));
    assert_eq!(rr.read_bit(1), Ok(true));
    assert_eq!(rr.read_bit(2), Ok(true));
    assert_eq!(rr.read_bit(7), Ok(true));
    assert_eq!(rr.read_bit(8), Ok(true));
    assert_eq!(rr.read_bit(9), Ok(false));
    assert!(rr.read_bit(16).is_err());

    let bits = rr.read_bits(0..8).unwrap();
    assert_eq!(
        bits,
        vec![false, true, true, false, false, true, false, true]
    );
    assert_eq!(rr.read_bits(4..4).unwrap(), Vec::<bool>::new());
    assert!(rr.read_bits(8..17).is_err());
}

#[test]
fn register_read_bytes_packing() {
    let data = [0b1010_0110u8, 0b0000_0001u8];
    let rr = RegisterRead::new(&data);

    // Bits 0..8 shifted in LSB-first, so the packed byte is the source byte
    // with its bit order reversed.
    assert_eq!(rr.read_bytes(0..8).unwrap(), vec![0b0110_0101]);

    // A 4-bit range packs into one partial byte: bits 0..4 of 0b...0110,
    // shifted in LSB-first, give 0b0110 reversed.
    assert_eq!(rr.read_bytes(0..4).unwrap(), vec![0b0110]);

    // Nine bits pack into a full byte plus a one-bit partial byte.
    assert_eq!(rr.read_bytes(0..9).unwrap(), vec![0b0110_0101, 0b1]);

    // Sixteen bits pack into exactly two bytes.
    assert_eq!(rr.read_bytes(0..16).unwrap(), vec![0b0110_0101, 0b1000_0000]);

    // An empty or reversed range packs to nothing.
    assert_eq!(rr.read_bytes(4..4).unwrap(), Vec::<u8>::new());
    assert_eq!(rr.read_bytes(6..3).unwrap(), Vec::<u8>::new());

    assert!(rr.read_bytes(0..17).is_err());
}
