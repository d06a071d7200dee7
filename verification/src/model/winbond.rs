//! Winbond: chip decode for the W25Q family, and its register tables.

use vstd::prelude::*;
use vstd::string::StringExecFns;

use super::Capacity;
use super::Chip;
use super::Vendor;
use crate::registers::item_sig;
use crate::registers::reg_items;
use crate::registers::reg_sig;
use crate::registers::register_wf;
use crate::registers::table_wf;
use crate::registers::RegLen;
use crate::registers::RegReader;
use crate::registers::Register;
use crate::registers::RegisterAccess;
use crate::registers::RegisterItem;
use crate::registers::RegWriter;

verus! {

/// The W25Q model for a (memory-type, capacity-code) pair: types 0x40 and
/// 0x60 are recognized, and the capacity code picks both the name suffix and
/// the size.
pub open spec fn spec_chip(t: u8, c: u8) -> Option<(Seq<char>, Capacity)> {
    if t != 0x40 && t != 0x60 {
        None
    } else {
        match c {
            0x10 => Some(("W25Q05"@, Capacity::C05)),
            0x11 => Some(("W25Q10"@, Capacity::C10)),
            0x12 => Some(("W25Q20"@, Capacity::C20)),
            0x13 => Some(("W25Q40"@, Capacity::C40)),
            0x14 => Some(("W25Q80"@, Capacity::C80)),
            0x15 => Some(("W25Q16"@, Capacity::C16)),
            0x16 => Some(("W25Q32"@, Capacity::C32)),
            0x17 => Some(("W25Q64"@, Capacity::C64)),
            0x18 => Some(("W25Q128"@, Capacity::C128)),
            0x19 => Some(("W25Q256"@, Capacity::C256)),
            _ => None,
        }
    }
}

/// Decode a Winbond (memory-type, capacity-code) pair into a chip owned by
/// `vendor`.
pub fn parse_jedec_id(vendor: Vendor, data: (u8, u8)) -> (r: Option<Chip>)
    ensures
        match (r, spec_chip(data.0, data.1)) {
            (Some(chip), Some(m)) => {
                &&& chip.name@ == m.0
                &&& chip.capacity == m.1
                &&& chip.vendor == vendor
            },
            (None, None) => true,
            _ => false,
        },
{
    let memory_type = data.0;
    let capacity = data.1;

    if memory_type != 0x40 && memory_type != 0x60 {
        return None;
    }

    let (name, chip_capacity) = match capacity {
        0x10 => ("W25Q05", Capacity::C05),
        0x11 => ("W25Q10", Capacity::C10),
        0x12 => ("W25Q20", Capacity::C20),
        0x13 => ("W25Q40", Capacity::C40),
        0x14 => ("W25Q80", Capacity::C80),
        0x15 => ("W25Q16", Capacity::C16),
        0x16 => ("W25Q32", Capacity::C32),
        0x17 => ("W25Q64", Capacity::C64),
        0x18 => ("W25Q128", Capacity::C128),
        0x19 => ("W25Q256", Capacity::C256),
        _ => {
            return None;
        },
    };

    Some(Chip { name: String::from_str(name), vendor, capacity: chip_capacity })
}

/// The `status_1` register: the primary status byte.
fn status_1_register() -> (r: Register)
    ensures
        register_wf(r),
        reg_sig(r, "status_1"@, 0x05, seq![0x05u8], RegLen::One, Some(RegWriter::Polled(0x01))),
        reg_items(r).len() == 5,
        item_sig(reg_items(r)[0], "busy"@, 0, 1, RegisterAccess::ReadOnly),
        item_sig(reg_items(r)[1], "write_enable"@, 1, 1, RegisterAccess::ReadOnly),
        item_sig(reg_items(r)[2], "block_protect"@, 2, 4, RegisterAccess::ReadWrite),
        item_sig(reg_items(r)[3], "tb_protect"@, 6, 1, RegisterAccess::ReadWrite),
        item_sig(reg_items(r)[4], "sreg_protect"@, 7, 1, RegisterAccess::ReadWrite),
        r.name@ == "status_1"@,
        r.items is Some,
{
    let mut items: Vec<RegisterItem> = Vec::new();
    items.push(RegisterItem {
        name: "busy",
        alias: vec!["WIP"],
        describe: "Erase/Write In Progress",
        offset: 0,
        width: 1,
        access: RegisterAccess::ReadOnly,
    });
    items.push(RegisterItem {
        name: "write_enable",
        alias: vec!["WE", "WEL"],
        describe: "Write Enable Latch",
        offset: 1,
        width: 1,
        access: RegisterAccess::ReadOnly,
    });
    items.push(RegisterItem {
        name: "block_protect",
        alias: vec!["BP"],
        describe: "Block Protect Bits",
        offset: 2,
        width: 4,
        access: RegisterAccess::ReadWrite,
    });
    items.push(RegisterItem {
        name: "tb_protect",
        alias: vec!["TB"],
        describe: "Top/Bottom Protect Bit",
        offset: 6,
        width: 1,
        access: RegisterAccess::ReadWrite,
    });
    items.push(RegisterItem {
        name: "sreg_protect",
        alias: vec!["SRP"],
        describe: "Status Register Protect",
        offset: 7,
        width: 1,
        access: RegisterAccess::ReadWrite,
    });
    let reg = Register {
        name: "status_1",
        addr: 0x05,
        reader: RegReader { frame: vec![0x05], len: RegLen::One },
        writer: Some(RegWriter::Polled(0x01)),
        items: Some(items),
    };
    proof {
        assert(reg.reader.frame@ =~= seq![0x05u8]);
    }
    reg
}

/// The `status_2` register.
fn status_2_register() -> (r: Register)
    ensures
        register_wf(r),
        reg_sig(r, "status_2"@, 0x35, seq![0x35u8], RegLen::One, Some(RegWriter::Polled(0x31))),
        reg_items(r).len() == 6,
        item_sig(reg_items(r)[0], "sreg_protect_1"@, 0, 1, RegisterAccess::ReadWrite),
        item_sig(reg_items(r)[1], "quad_enable"@, 1, 1, RegisterAccess::ReadWrite),
        item_sig(reg_items(r)[2], "resv"@, 2, 1, RegisterAccess::ReadOnly),
        item_sig(reg_items(r)[3], "lock"@, 3, 3, RegisterAccess::ReadWriteOTP),
        item_sig(reg_items(r)[4], "lock"@, 6, 1, RegisterAccess::ReadWrite),
        item_sig(reg_items(r)[5], "suspend"@, 7, 1, RegisterAccess::ReadOnly),
        r.name@ == "status_2"@,
        r.items is Some,
{
    let mut items: Vec<RegisterItem> = Vec::new();
    items.push(RegisterItem {
        name: "sreg_protect_1",
        alias: vec!["SRL"],
        describe: "Status Register Protect 1",
        offset: 0,
        width: 1,
        access: RegisterAccess::ReadWrite,
    });
    items.push(RegisterItem {
        name: "quad_enable",
        alias: vec!["QE"],
        describe: "Quad Enable",
        offset: 1,
        width: 1,
        access: RegisterAccess::ReadWrite,
    });
    items.push(RegisterItem {
        name: "resv",
        alias: vec!["R"],
        describe: "Reserved",
        offset: 2,
        width: 1,
        access: RegisterAccess::ReadOnly,
    });
    items.push(RegisterItem {
        name: "lock",
        alias: vec!["LB"],
        describe: "Security Register Lock Bits",
        offset: 3,
        width: 3,
        access: RegisterAccess::ReadWriteOTP,
    });
    items.push(RegisterItem {
        name: "lock",
        alias: vec!["CMP"],
        describe: "Complement Protect",
        offset: 6,
        width: 1,
        access: RegisterAccess::ReadWrite,
    });
    items.push(RegisterItem {
        name: "suspend",
        alias: vec!["SUS"],
        describe: "Suspend Status",
        offset: 7,
        width: 1,
        access: RegisterAccess::ReadOnly,
    });
    let reg = Register {
        name: "status_2",
        addr: 0x35,
        reader: RegReader { frame: vec![0x35], len: RegLen::One },
        writer: Some(RegWriter::Polled(0x31)),
        items: Some(items),
    };
    proof {
        assert(reg.reader.frame@ =~= seq![0x35u8]);
    }
    reg
}

/// The `status_3` register.
fn status_3_register() -> (r: Register)
    ensures
        register_wf(r),
        reg_sig(r, "status_3"@, 0x15, seq![0x15u8], RegLen::One, Some(RegWriter::Polled(0x11))),
        reg_items(r).len() == 5,
        item_sig(reg_items(r)[0], "cur_addr_mode"@, 0, 1, RegisterAccess::ReadOnly),
        item_sig(reg_items(r)[1], "powerup_addr_mode"@, 1, 1, RegisterAccess::ReadWrite),
        item_sig(reg_items(r)[2], "resv"@, 2, 2, RegisterAccess::ReadOnly),
        item_sig(reg_items(r)[3], "DRV"@, 5, 2, RegisterAccess::ReadWrite),
        item_sig(reg_items(r)[4], "resv"@, 7, 1, RegisterAccess::ReadOnly),
        r.name@ == "status_3"@,
        r.items is Some,
{
    let mut items: Vec<RegisterItem> = Vec::new();
    items.push(RegisterItem {
        name: "cur_addr_mode",
        alias: vec!["ADS"],
        describe: "Current Address Mode",
        offset: 0,
        width: 1,
        access: RegisterAccess::ReadOnly,
    });
    items.push(RegisterItem {
        name: "powerup_addr_mode",
        alias: vec!["ADP"],
        describe: "Power Up Address Mode",
        offset: 1,
        width: 1,
        access: RegisterAccess::ReadWrite,
    });
    items.push(RegisterItem {
        name: "resv",
        alias: vec!["R"],
        describe: "Reserved",
        offset: 2,
        width: 2,
        access: RegisterAccess::ReadOnly,
    });
    items.push(RegisterItem {
        name: "DRV",
        alias: vec!["DRV"],
        describe: "Output Driver Strength",
        offset: 5,
        width: 2,
        access: RegisterAccess::ReadWrite,
    });
    items.push(RegisterItem {
        name: "resv",
        alias: vec!["R"],
        describe: "Reserved",
        offset: 7,
        width: 1,
        access: RegisterAccess::ReadOnly,
    });
    let reg = Register {
        name: "status_3",
        addr: 0x15,
        reader: RegReader { frame: vec![0x15], len: RegLen::One },
        writer: Some(RegWriter::Polled(0x11)),
        items: Some(items),
    };
    proof {
        assert(reg.reader.frame@ =~= seq![0x15u8]);
    }
    reg
}

/// The 64-bit unique-ID register: command `0x4B`, four dummy bytes, then
/// eight payload bytes.
pub fn uid_register() -> (r: Register)
    ensures
        register_wf(r),
        reg_sig(r, "unique_id"@, 0x4B, seq![0x4Bu8, 0u8, 0u8, 0u8, 0u8], RegLen::Multi(8usize), None),
        r.name@ == "unique_id"@,
        r.reader.frame@ == seq![0x4Bu8, 0u8, 0u8, 0u8, 0u8],
        r.reader.len == RegLen::Multi(8usize),
{
    let reg = Register {
        name: "unique_id",
        addr: 0x4B,
        reader: RegReader { frame: vec![0x4B, 0x00, 0x00, 0x00, 0x00], len: RegLen::Multi(8) },
        writer: None,
        items: None,
    };
    proof {
        assert(reg.reader.frame@ =~= seq![0x4Bu8, 0u8, 0u8, 0u8, 0u8]);
    }
    reg
}

/// The extended-address register: a volatile write through command `0xC5`.
fn ext_addr_register() -> (r: Register)
    ensures
        register_wf(r),
        reg_sig(r, "ext_addr"@, 0xC8, seq![0xC8u8], RegLen::One, Some(RegWriter::Direct(0xC5))),
        r.name@ == "ext_addr"@,
{
    let reg = Register {
        name: "ext_addr",
        addr: 0xC8,
        reader: RegReader { frame: vec![0xC8], len: RegLen::One },
        writer: Some(RegWriter::Direct(0xC5)),
        items: None,
    };
    proof {
        assert(reg.reader.frame@ =~= seq![0xC8u8]);
    }
    reg
}

/// The exact content of this vendor's register table: every register's
/// name, wire address, reader shape and write command, and every
/// bitfield's name, position, width and access class.
pub open spec fn table_sig(regs: Seq<Register>) -> bool {
    &&& regs.len() == 5
    &&& reg_sig(regs[0], "status_1"@, 0x05, seq![0x05u8], RegLen::One, Some(RegWriter::Polled(0x01)))
    &&& reg_items(regs[0]).len() == 5
    &&& item_sig(reg_items(regs[0])[0], "busy"@, 0, 1, RegisterAccess::ReadOnly)
    &&& item_sig(reg_items(regs[0])[1], "write_enable"@, 1, 1, RegisterAccess::ReadOnly)
    &&& item_sig(reg_items(regs[0])[2], "block_protect"@, 2, 4, RegisterAccess::ReadWrite)
    &&& item_sig(reg_items(regs[0])[3], "tb_protect"@, 6, 1, RegisterAccess::ReadWrite)
    &&& item_sig(reg_items(regs[0])[4], "sreg_protect"@, 7, 1, RegisterAccess::ReadWrite)
    &&& reg_sig(regs[1], "status_2"@, 0x35, seq![0x35u8], RegLen::One, Some(RegWriter::Polled(0x31)))
    &&& reg_items(regs[1]).len() == 6
    &&& item_sig(reg_items(regs[1])[0], "sreg_protect_1"@, 0, 1, RegisterAccess::ReadWrite)
    &&& item_sig(reg_items(regs[1])[1], "quad_enable"@, 1, 1, RegisterAccess::ReadWrite)
    &&& item_sig(reg_items(regs[1])[2], "resv"@, 2, 1, RegisterAccess::ReadOnly)
    &&& item_sig(reg_items(regs[1])[3], "lock"@, 3, 3, RegisterAccess::ReadWriteOTP)
    &&& item_sig(reg_items(regs[1])[4], "lock"@, 6, 1, RegisterAccess::ReadWrite)
    &&& item_sig(reg_items(regs[1])[5], "suspend"@, 7, 1, RegisterAccess::ReadOnly)
    &&& reg_sig(regs[2], "status_3"@, 0x15, seq![0x15u8], RegLen::One, Some(RegWriter::Polled(0x11)))
    &&& reg_items(regs[2]).len() == 5
    &&& item_sig(reg_items(regs[2])[0], "cur_addr_mode"@, 0, 1, RegisterAccess::ReadOnly)
    &&& item_sig(reg_items(regs[2])[1], "powerup_addr_mode"@, 1, 1, RegisterAccess::ReadWrite)
    &&& item_sig(reg_items(regs[2])[2], "resv"@, 2, 2, RegisterAccess::ReadOnly)
    &&& item_sig(reg_items(regs[2])[3], "DRV"@, 5, 2, RegisterAccess::ReadWrite)
    &&& item_sig(reg_items(regs[2])[4], "resv"@, 7, 1, RegisterAccess::ReadOnly)
    &&& reg_sig(regs[3], "unique_id"@, 0x4B, seq![0x4Bu8, 0u8, 0u8, 0u8, 0u8], RegLen::Multi(8usize), None)
    &&& reg_sig(regs[4], "ext_addr"@, 0xC8, seq![0xC8u8], RegLen::One, Some(RegWriter::Direct(0xC5)))
}

/// The Winbond register table.
pub fn register_defines() -> (r: Vec<Register>)
    ensures
        table_wf(r@),
        table_sig(r@),
        r@.len() == 5,
{
    let mut regs: Vec<Register> = Vec::new();
    regs.push(status_1_register());
    regs.push(status_2_register());
    regs.push(status_3_register());
    regs.push(uid_register());
    regs.push(ext_addr_register());
    regs
}

} // verus!
