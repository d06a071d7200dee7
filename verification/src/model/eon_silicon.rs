//! Eon Silicon: chip decode for the EN25Q family, and its register table.

use vstd::prelude::*;
use vstd::string::StringExecFns;

use super::Capacity;
use super::Chip;
use super::Vendor;
use crate::registers::item_sig;
use crate::registers::reg_items;
use crate::registers::reg_sig;
use crate::registers::register_wf;
use crate::registers::table_wf;
use crate::registers::RegLen;
use crate::registers::RegReader;
use crate::registers::Register;

verus! {

/// The Eon Silicon model for a (memory-type, capacity-code) pair.
pub open spec fn spec_chip(t: u8, c: u8) -> Option<(Seq<char>, Capacity)> {
    if t == 0x30 && c == 0x16 {
        Some(("EN25Q32C"@, Capacity::C32))
    } else {
        None
    }
}

/// Decode an Eon Silicon (memory-type, capacity-code) pair into a chip owned
/// by `vendor`.
pub fn parse_jedec_id(vendor: Vendor, data: (u8, u8)) -> (r: Option<Chip>)
    ensures
        match (r, spec_chip(data.0, data.1)) {
            (Some(chip), Some(m)) => {
                &&& chip.name@ == m.0
                &&& chip.capacity == m.1
                &&& chip.vendor == vendor
            },
            (None, None) => true,
            _ => false,
        },
{
    let memory_type = data.0;
    let capacity = data.1;

    if memory_type == 0x30 && capacity == 0x16 {
        Some(Chip { name: String::from_str("EN25Q32C"), vendor, capacity: Capacity::C32 })
    } else {
        None
    }
}


/// The `status` register: the primary status byte.
fn status_register() -> (r: Register)
    ensures
        register_wf(r),
        reg_sig(r, "status"@, 0x05, seq![0x05u8], RegLen::One, None),
        r.name@ == "status"@,
{
    let reg = Register {
        name: "status",
        addr: 0x05,
        reader: RegReader { frame: vec![0x05], len: RegLen::One },
        writer: None,
        items: None,
    };
    proof {
        assert(reg.reader.frame@ =~= seq![0x05u8]);
    }
    reg
}

/// The 96-bit unique-ID register: command `0x5A` with its address bytes and
/// dummy byte, then twelve payload bytes.
pub fn uid_register() -> (r: Register)
    ensures
        register_wf(r),
        reg_sig(r, "unique_id"@, 0x5A, seq![0x5Au8, 0u8, 0u8, 0x80u8, 0u8], RegLen::Multi(12usize), None),
        r.name@ == "unique_id"@,
        r.reader.frame@ == seq![0x5Au8, 0u8, 0u8, 0x80u8, 0u8],
        r.reader.len == RegLen::Multi(12usize),
{
    let reg = Register {
        name: "unique_id",
        addr: 0x5A,
        reader: RegReader { frame: vec![0x5A, 0x00, 0x00, 0x80, 0x00], len: RegLen::Multi(12) },
        writer: None,
        items: None,
    };
    proof {
        assert(reg.reader.frame@ =~= seq![0x5Au8, 0u8, 0u8, 0x80u8, 0u8]);
    }
    reg
}

/// The exact content of this vendor's register table: every register's
/// name, wire address, reader shape and write command, and every
/// bitfield's name, position, width and access class.
pub open spec fn table_sig(regs: Seq<Register>) -> bool {
    &&& regs.len() == 2
    &&& reg_sig(regs[0], "status"@, 0x05, seq![0x05u8], RegLen::One, None)
    &&& reg_sig(regs[1], "unique_id"@, 0x5A, seq![0x5Au8, 0u8, 0u8, 0x80u8, 0u8], RegLen::Multi(12usize), None)
}

/// The Eon Silicon register table.
pub fn register_defines() -> (r: Vec<Register>)
    ensures
        table_wf(r@),
        table_sig(r@),
        r@.len() == 2,
{
    let mut regs: Vec<Register> = Vec::new();
    regs.push(status_register());
    regs.push(uid_register());
    regs
}

} // verus!
