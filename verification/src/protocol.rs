//! Wire-level command encoding for SPI NOR flash chips, and a model of the
//! frames a transport writes: every exchange starts with a command byte, and
//! the sequence of non-poll frames is what actually changes chip state.

use vstd::prelude::*;

verus! {

/// The command set understood by the flash chips this library drives.
pub enum SpiFlashCmd {
    JedecId,
    WriteEnable,
    WriteDisable,
    ReadStatus,
    ChipErase,
    Erase4K,
    Erase32K,
    Erase64K,
    PageProgram,
    ReadData,
}

impl SpiFlashCmd {
    /// The one-byte wire encoding of the command.
    pub open spec fn spec_code(&self) -> u8 {
        match self {
            SpiFlashCmd::JedecId => 0x9F,
            SpiFlashCmd::WriteEnable => 0x06,
            SpiFlashCmd::WriteDisable => 0x04,
            SpiFlashCmd::ReadStatus => 0x05,
            SpiFlashCmd::ChipErase => 0xC7,
            SpiFlashCmd::Erase4K => 0x20,
            SpiFlashCmd::Erase32K => 0x52,
            SpiFlashCmd::Erase64K => 0xD8,
            SpiFlashCmd::PageProgram => 0x02,
            SpiFlashCmd::ReadData => 0x03,
        }
    }

    pub fn code(&self) -> (r: u8)
        ensures
            r == self.spec_code(),
    {
        match self {
            SpiFlashCmd::JedecId => 0x9F,
            SpiFlashCmd::WriteEnable => 0x06,
            SpiFlashCmd::WriteDisable => 0x04,
            SpiFlashCmd::ReadStatus => 0x05,
            SpiFlashCmd::ChipErase => 0xC7,
            SpiFlashCmd::Erase4K => 0x20,
            SpiFlashCmd::Erase32K => 0x52,
            SpiFlashCmd::Erase64K => 0xD8,
            SpiFlashCmd::PageProgram => 0x02,
            SpiFlashCmd::ReadData => 0x03,
        }
    }
}

/// The frame a write-enable command puts on the wire.
pub open spec fn write_enable_frame() -> Seq<u8> {
    seq![0x06u8]
}

/// The frame a write-disable command puts on the wire.
pub open spec fn write_disable_frame() -> Seq<u8> {
    seq![0x04u8]
}

/// The frame that polls the primary status register.
pub open spec fn status_poll_frame() -> Seq<u8> {
    seq![0x05u8, 0x00u8]
}

/// The frame that erases the whole chip.
pub open spec fn chip_erase_frame() -> Seq<u8> {
    seq![0xC7u8]
}

/// The frame that requests the 3-byte JEDEC identifier.
pub open spec fn jedec_id_frame() -> Seq<u8> {
    seq![0x9Fu8, 0x00u8, 0x00u8, 0x00u8]
}

/// The three big-endian bytes of a 24-bit flash address.
pub open spec fn addr_bytes(addr: u32) -> Seq<u8> {
    seq![(addr >> 16) as u8, (addr >> 8) as u8, addr as u8]
}

/// The header of a read-data command for `addr`.
pub open spec fn read_data_frame(addr: u32) -> Seq<u8> {
    seq![0x03u8] + addr_bytes(addr)
}

/// A page-program frame: command, 24-bit address, then the page payload.
pub open spec fn page_program_frame(addr: u32, payload: Seq<u8>) -> Seq<u8> {
    seq![0x02u8] + addr_bytes(addr) + payload
}

/// The frame that writes `value` through write command `cmd` (status-class
/// registers take their new byte directly after the command).
pub open spec fn reg_write_frame(cmd: u8, value: u8) -> Seq<u8> {
    seq![cmd, value]
}

/// `k` status polls in a row, as a busy-wait puts them on the wire.
pub open spec fn poll_frames(k: int) -> Seq<Seq<u8>> {
    Seq::new(k as nat, |i: int| status_poll_frame())
}

/// `k` successful exchange results in a row.
pub open spec fn ok_results(k: int) -> Seq<bool> {
    Seq::new(k as nat, |i: int| true)
}

/// A frame that only observes the chip without changing its state: a poll of
/// the primary status register, or a read-data command.
pub open spec fn passive_frame(f: Seq<u8>) -> bool {
    f == status_poll_frame() || (f.len() > 0 && f[0] == 0x03)
}

/// The frames of `log` that change chip state, in order: everything except
/// status polls and read-data commands, which only observe. A contract over
/// `command_writes` pins down exactly which state-changing commands an
/// operation issued, while leaving observations open.
pub open spec fn command_writes(log: Seq<Seq<u8>>) -> Seq<Seq<u8>>
    decreases log.len(),
{
    if log.len() == 0 {
        Seq::empty()
    } else if passive_frame(log.last()) {
        command_writes(log.drop_last())
    } else {
        command_writes(log.drop_last()).push(log.last())
    }
}

/// Appending one frame to the log extends `command_writes` by that frame,
/// unless the frame is passive, which leaves it unchanged.
pub broadcast proof fn lemma_command_writes_push(log: Seq<Seq<u8>>, f: Seq<u8>)
    ensures
        #[trigger] command_writes(log.push(f)) == if passive_frame(f) {
            command_writes(log)
        } else {
            command_writes(log).push(f)
        },
{
    assert(log.push(f).drop_last() =~= log);
    assert(log.push(f).last() == f);
}

/// The primary status byte of a chip: bit 0 is the busy ("write in progress")
/// flag, bit 1 the write-enable latch.
#[derive(Debug, Clone, Copy)]
pub struct StatusRes {
    pub busy: bool,
    pub write_enable: bool,
}

impl From<u8> for StatusRes {
    fn from(data: u8) -> (s: StatusRes)
    {
        StatusRes { busy: data & 0x01 != 0, write_enable: data & 0x02 != 0 }
    }
}

impl vstd::std_specs::convert::FromSpecImpl<u8> for StatusRes {
    open spec fn obeys_from_spec() -> bool {
        true
    }

    open spec fn from_spec(data: u8) -> StatusRes {
        StatusRes { busy: data & 0x01 != 0, write_enable: data & 0x02 != 0 }
    }
}

} // verus!
