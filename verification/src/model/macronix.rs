//! Macronix: chip decode for the MX25L family, and its register tables.

use vstd::prelude::*;
use vstd::string::StringExecFns;

use super::Capacity;
use super::Chip;
use super::Vendor;
use crate::registers::item_sig;
use crate::registers::reg_items;
use crate::registers::reg_sig;
use crate::registers::register_wf;
use crate::registers::table_wf;
use crate::registers::RegLen;
use crate::registers::RegReader;
use crate::registers::Register;
use crate::registers::RegisterAccess;
use crate::registers::RegisterItem;

verus! {

/// The Macronix model for a (memory-type, capacity-code) pair.
pub open spec fn spec_chip(t: u8, c: u8) -> Option<(Seq<char>, Capacity)> {
    if t != 0x20 {
        None
    } else if c == 0x17 {
        Some(("MX25L64"@, Capacity::C64))
    } else if c == 0x19 {
        Some(("MX25L256"@, Capacity::C256))
    } else {
        None
    }
}

/// Decode a Macronix (memory-type, capacity-code) pair into a chip owned by
/// `vendor`.
pub fn parse_jedec_id(vendor: Vendor, data: (u8, u8)) -> (r: Option<Chip>)
    ensures
        match (r, spec_chip(data.0, data.1)) {
            (Some(chip), Some(m)) => {
                &&& chip.name@ == m.0
                &&& chip.capacity == m.1
                &&& chip.vendor == vendor
            },
            (None, None) => true,
            _ => false,
        },
{
    let memory_type = data.0;
    let capacity = data.1;

    if memory_type != 0x20 {
        return None;
    }

    match capacity {
        0x17 => Some(Chip { name: String::from_str("MX25L64"), vendor, capacity: Capacity::C64 }),
        0x19 => Some(Chip { name: String::from_str("MX25L256"), vendor, capacity: Capacity::C256 }),
        _ => None,
    }
}


/// The `status` register: the primary status byte.
fn status_register() -> (r: Register)
    ensures
        register_wf(r),
        reg_sig(r, "status"@, 0x05, seq![0x05u8], RegLen::One, None),
        reg_items(r).len() == 5,
        item_sig(reg_items(r)[0], "busy"@, 0, 1, RegisterAccess::ReadOnly),
        item_sig(reg_items(r)[1], "write_enable"@, 1, 1, RegisterAccess::ReadOnly),
        item_sig(reg_items(r)[2], "block_protect"@, 2, 4, RegisterAccess::ReadOnly),
        item_sig(reg_items(r)[3], "quad_enable"@, 6, 1, RegisterAccess::ReadOnly),
        item_sig(reg_items(r)[4], "sreg_w_prot"@, 7, 1, RegisterAccess::ReadOnly),
        r.name@ == "status"@,
        r.items is Some,
{
    let mut items: Vec<RegisterItem> = Vec::new();
    items.push(RegisterItem {
        name: "busy",
        alias: vec!["WIP"],
        describe: "write in progress bit",
        offset: 0,
        width: 1,
        access: RegisterAccess::ReadOnly,
    });
    items.push(RegisterItem {
        name: "write_enable",
        alias: vec!["WE", "WEL"],
        describe: "write enable latch",
        offset: 1,
        width: 1,
        access: RegisterAccess::ReadOnly,
    });
    items.push(RegisterItem {
        name: "block_protect",
        alias: vec!["BP"],
        describe: "level of protected block",
        offset: 2,
        width: 4,
        access: RegisterAccess::ReadOnly,
    });
    items.push(RegisterItem {
        name: "quad_enable",
        alias: vec!["QE"],
        describe: "Quad Enable",
        offset: 6,
        width: 1,
        access: RegisterAccess::ReadOnly,
    });
    items.push(RegisterItem {
        name: "sreg_w_prot",
        alias: vec!["SRWD"],
        describe: "status register write protect",
        offset: 7,
        width: 1,
        access: RegisterAccess::ReadOnly,
    });
    let reg = Register {
        name: "status",
        addr: 0x05,
        reader: RegReader { frame: vec![0x05], len: RegLen::One },
        writer: None,
        items: Some(items),
    };
    proof {
        assert(reg.reader.frame@ =~= seq![0x05u8]);
    }
    reg
}

/// The `config` register.
fn config_register() -> (r: Register)
    ensures
        register_wf(r),
        reg_sig(r, "config"@, 0x15, seq![0x15u8], RegLen::One, None),
        reg_items(r).len() == 4,
        item_sig(reg_items(r)[0], "ODS"@, 0, 2, RegisterAccess::ReadOnly),
        item_sig(reg_items(r)[1], "tb"@, 3, 1, RegisterAccess::ReadOnly),
        item_sig(reg_items(r)[2], "tb_enable"@, 4, 1, RegisterAccess::ReadOnly),
        item_sig(reg_items(r)[3], "addr_mode"@, 5, 1, RegisterAccess::ReadOnly),
        r.name@ == "config"@,
        r.items is Some,
{
    let mut items: Vec<RegisterItem> = Vec::new();
    items.push(RegisterItem {
        name: "ODS",
        alias: vec!["ODS"],
        describe: "output driver strength",
        offset: 0,
        width: 2,
        access: RegisterAccess::ReadOnly,
    });
    items.push(RegisterItem {
        name: "tb",
        alias: vec!["TB"],
        describe: "top/bottom selected",
        offset: 3,
        width: 1,
        access: RegisterAccess::ReadOnly,
    });
    items.push(RegisterItem {
        name: "tb_enable",
        alias: vec!["TBE"],
        describe: "Preamble bit Enable",
        offset: 4,
        width: 1,
        access: RegisterAccess::ReadOnly,
    });
    items.push(RegisterItem {
        name: "addr_mode",
        alias: vec!["EN4B"],
        describe: "",
        offset: 5,
        width: 1,
        access: RegisterAccess::ReadOnly,
    });
    let reg = Register {
        name: "config",
        addr: 0x15,
        reader: RegReader { frame: vec![0x15], len: RegLen::One },
        writer: None,
        items: Some(items),
    };
    proof {
        assert(reg.reader.frame@ =~= seq![0x15u8]);
    }
    reg
}

/// The exact content of this vendor's register table: every register's
/// name, wire address, reader shape and write command, and every
/// bitfield's name, position, width and access class.
pub open spec fn table_sig(regs: Seq<Register>) -> bool {
    &&& regs.len() == 2
    &&& reg_sig(regs[0], "status"@, 0x05, seq![0x05u8], RegLen::One, None)
    &&& reg_items(regs[0]).len() == 5
    &&& item_sig(reg_items(regs[0])[0], "busy"@, 0, 1, RegisterAccess::ReadOnly)
    &&& item_sig(reg_items(regs[0])[1], "write_enable"@, 1, 1, RegisterAccess::ReadOnly)
    &&& item_sig(reg_items(regs[0])[2], "block_protect"@, 2, 4, RegisterAccess::ReadOnly)
    &&& item_sig(reg_items(regs[0])[3], "quad_enable"@, 6, 1, RegisterAccess::ReadOnly)
    &&& item_sig(reg_items(regs[0])[4], "sreg_w_prot"@, 7, 1, RegisterAccess::ReadOnly)
    &&& reg_sig(regs[1], "config"@, 0x15, seq![0x15u8], RegLen::One, None)
    &&& reg_items(regs[1]).len() == 4
    &&& item_sig(reg_items(regs[1])[0], "ODS"@, 0, 2, RegisterAccess::ReadOnly)
    &&& item_sig(reg_items(regs[1])[1], "tb"@, 3, 1, RegisterAccess::ReadOnly)
    &&& item_sig(reg_items(regs[1])[2], "tb_enable"@, 4, 1, RegisterAccess::ReadOnly)
    &&& item_sig(reg_items(regs[1])[3], "addr_mode"@, 5, 1, RegisterAccess::ReadOnly)
}

/// The Macronix register table. It has no unique-ID register.
pub fn register_defines() -> (r: Vec<Register>)
    ensures
        table_wf(r@),
        table_sig(r@),
        r@.len() == 2,
{
    let mut regs: Vec<Register> = Vec::new();
    regs.push(status_register());
    regs.push(config_register());
    regs
}

} // verus!
