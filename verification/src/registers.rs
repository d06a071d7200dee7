//! The declarative register model: per-vendor tables of registers and their
//! bitfield items, bitfield extraction and injection, lookup by name or
//! alias, and the read and write paths over the transport.

use vstd::prelude::*;
use vstd::string::StringSliceAdditionalSpecFns;

use crate::drive::SpiDrive;
use crate::flash::writes_extended;
use crate::flash::FlashError;
use crate::flash::SpiFlash;
use crate::protocol::command_writes;
use crate::protocol::reg_write_frame;
use crate::protocol::status_poll_frame;
use crate::protocol::write_disable_frame;
use crate::protocol::write_enable_frame;
use crate::utils::lower_bytes;

verus! {

broadcast use crate::protocol::lemma_command_writes_push;

/// How many bytes a register read returns: a single scalar byte, or a
/// multi-byte payload of the given length.
#[derive(Debug, Clone, Copy, PartialEq, Eq, Structural)]
pub enum RegLen {
    One,
    Multi(usize),
}

/// The value read from a register.
#[derive(Debug, Clone, PartialEq, Eq)]
pub enum RegReadRet {
    One(u8),
    Multi(Vec<u8>),
}

/// What writes to a bitfield are allowed to mean.
#[derive(Debug, Clone, Copy, PartialEq, Eq, Structural)]
pub enum RegisterAccess {
    ReadOnly,
    ReadWriteVolatile,
    ReadWrite,
    ReadWriteOTP,
}

impl Default for RegisterAccess {
    fn default() -> (r: RegisterAccess)
        ensures
            r == RegisterAccess::ReadOnly,
    {
        RegisterAccess::ReadOnly
    }
}

/// One named bitfield of a byte-sized register: `width` bits starting at bit
/// `offset`, counted from the least significant bit.
#[derive(Debug, Clone)]
pub struct RegisterItem {
    pub name: &'static str,
    pub alias: Vec<&'static str>,
    pub describe: &'static str,
    pub offset: u8,
    pub width: u8,
    pub access: RegisterAccess,
}

/// How a register is read: the command-and-dummy prefix that is clocked out,
/// and how many payload bytes follow it in the exchange.
#[derive(Debug, Clone)]
pub struct RegReader {
    pub frame: Vec<u8>,
    pub len: RegLen,
}

/// How a register is written: through which write command, and whether the
/// write is latched (needing a busy-wait before write-disable) or volatile.
#[derive(Debug, Clone, Copy, PartialEq, Eq, Structural)]
pub enum RegWriter {
    /// Write-enable, write, poll until not busy, write-disable.
    Polled(u8),
    /// Write-enable, write, write-disable, with no poll.
    Direct(u8),
}

/// A chip register: name, wire address, how to read it, optionally how to
/// write it, and optionally its bitfield items.
#[derive(Debug, Clone)]
pub struct Register {
    pub name: &'static str,
    pub addr: u8,
    pub reader: RegReader,
    pub writer: Option<RegWriter>,
    pub items: Option<Vec<RegisterItem>>,
}

/// How a register write can fail: the register has no writer, the addressed
/// bitfield refuses writes, or the transport did.
#[derive(Debug, Clone, Copy, PartialEq, Eq)]
pub enum RegWriteError {
    NotWritable,
    ReadOnlyItem,
    Flash(FlashError),
}

/// A bitfield stays inside its byte and is at least one bit wide.
pub open spec fn item_wf(it: RegisterItem) -> bool {
    &&& 1 <= it.width
    &&& it.offset + it.width <= 8
}

/// No two bitfields of one register overlap: for any two, one ends before
/// the other starts.
pub open spec fn items_disjoint(items: Seq<RegisterItem>) -> bool {
    forall|i: int, j: int|
        0 <= i < j < items.len() ==> (#[trigger] items[i]).offset + items[i].width <= (
        #[trigger] items[j]).offset || items[j].offset + items[j].width <= items[i].offset
}

/// Every bitfield of the register lies inside the byte, and no two overlap.
pub open spec fn items_wf(items: Seq<RegisterItem>) -> bool {
    &&& forall|i: int| 0 <= i < items.len() ==> item_wf(#[trigger] items[i])
    &&& items_disjoint(items)
}

/// The number of payload bytes a reader clocks in.
pub open spec fn payload_len(len: RegLen) -> int {
    match len {
        RegLen::One => 1,
        RegLen::Multi(n) => n as int,
    }
}

/// A reader's frame starts with a command byte and stays small; a multi-byte
/// payload is at least one byte.
pub open spec fn reg_reader_wf(r: RegReader) -> bool {
    &&& 1 <= r.frame@.len() <= 8
    &&& 1 <= payload_len(r.len) <= 32
}

/// The write command a writer uses on the wire.
pub open spec fn spec_writer_cmd(w: RegWriter) -> u8 {
    match w {
        RegWriter::Polled(cmd) => cmd,
        RegWriter::Direct(cmd) => cmd,
    }
}

/// A writer's command is a real write command: neither the status-poll nor
/// the read-data command byte.
pub open spec fn reg_writer_wf(w: Option<RegWriter>) -> bool {
    match w {
        None => true,
        Some(w) => spec_writer_cmd(w) != 0x05 && spec_writer_cmd(w) != 0x03,
    }
}

/// A well-formed register: its reader frame opens with its wire address,
/// its writer (if any) has a proper command, its items (if any) are
/// well-formed bitfields of a byte-sized register.
pub open spec fn register_wf(r: Register) -> bool {
    &&& reg_reader_wf(r.reader)
    &&& r.reader.frame@.len() >= 1 && r.reader.frame@[0] == r.addr
    &&& reg_writer_wf(r.writer)
    &&& match r.items {
        None => true,
        Some(items) => items_wf(items@) && r.reader.len == RegLen::One,
    }
}

/// The identity of a register: its name, wire address, how it is read, and
/// how (if at all) it is written. Table contracts pin each entry with this.
pub open spec fn reg_sig(
    r: Register,
    name: Seq<char>,
    addr: u8,
    frame: Seq<u8>,
    len: RegLen,
    writer: Option<RegWriter>,
) -> bool {
    &&& r.name@ == name
    &&& r.addr == addr
    &&& r.reader.frame@ == frame
    &&& r.reader.len == len
    &&& r.writer == writer
}

/// The identity of a bitfield item: its name, bit position, width and
/// access class.
pub open spec fn item_sig(
    it: RegisterItem,
    name: Seq<char>,
    offset: u8,
    width: u8,
    access: RegisterAccess,
) -> bool {
    &&& it.name@ == name
    &&& it.offset == offset
    &&& it.width == width
    &&& it.access == access
}

/// Every register of a table is well formed.
pub open spec fn table_wf(regs: Seq<Register>) -> bool {
    forall|i: int| 0 <= i < regs.len() ==> register_wf(#[trigger] regs[i])
}

/// The full exchange buffer a register read puts on the wire: the reader's
/// command-and-dummy prefix, padded with zeros for the payload.
pub open spec fn spec_read_frame(r: RegReader) -> Seq<u8> {
    r.frame@ + Seq::new(payload_len(r.len) as nat, |i: int| 0u8)
}

/// The mask that selects `width` bits starting at `offset`.
pub open spec fn item_mask(offset: u8, width: u8) -> u8 {
    ((0xFFu8 >> ((8 - width) as u8)) << offset) as u8
}

/// The value of the `width` bits of `v` starting at `offset`.
pub open spec fn spec_item_get(v: u8, offset: u8, width: u8) -> u8 {
    ((v >> offset) & (0xFFu8 >> ((8 - width) as u8))) as u8
}

/// `v` with the `width` bits starting at `offset` replaced by `x`: the
/// target bits are cleared and the new bits are or-ed in.
pub open spec fn spec_item_set(v: u8, offset: u8, width: u8, x: u8) -> u8 {
    ((v & !item_mask(offset, width)) | (((x << offset) as u8) & item_mask(offset, width))) as u8
}

/// Law: writing a bitfield and reading it back returns the written value
/// (masked to the field's width), and no bit outside the field changes.
pub proof fn lemma_bitfield_round_trip(v: u8, offset: u8, width: u8, x: u8)
    by (bit_vector)
    requires
        1 <= width,
        offset + width <= 8,
    ensures
        spec_item_get(spec_item_set(v, offset, width, x), offset, width) == x & (0xFFu8 >> ((8
            - width) as u8)),
        spec_item_set(v, offset, width, x) & !item_mask(offset, width) == v & !item_mask(
            offset,
            width,
        ),
        forall|b: u8|
            b < 8 && !(offset <= b < offset + width) ==> (#[trigger] (spec_item_set(
                v,
                offset,
                width,
                x,
            ) >> b)) & 1 == (v >> b) & 1,
{
}

/// Read the `width`-bit field described by `item` out of the register byte
/// `v`.
pub fn item_get(v: u8, item: &RegisterItem) -> (r: u8)
    requires
        item_wf(*item),
    ensures
        r == spec_item_get(v, item.offset, item.width),
{
    (v >> item.offset) & (0xFF >> (8 - item.width))
}

/// Compute the register byte that writes `x` into the field described by
/// `item`, leaving every other bit of `v` unchanged.
pub fn item_set(v: u8, item: &RegisterItem, x: u8) -> (r: u8)
    requires
        item_wf(*item),
    ensures
        r == spec_item_set(v, item.offset, item.width, x),
{
    let mask = (0xFFu8 >> (8 - item.width)) << item.offset;
    (v & !mask) | ((x << item.offset) & mask)
}

impl RegisterItem {
    /// Reject a write before any transport exchange when the field is
    /// read-only.
    pub fn check_writable(&self) -> (r: Result<(), RegWriteError>)
        ensures
            r is Ok <==> self.access != RegisterAccess::ReadOnly,
            r is Err ==> r == Err::<(), RegWriteError>(RegWriteError::ReadOnlyItem),
    {
        match self.access {
            RegisterAccess::ReadOnly => Err(RegWriteError::ReadOnlyItem),
            _ => Ok(()),
        }
    }
}

impl Register {
    /// Read this register: one exchange of the reader's frame, whose reply
    /// carries the payload. The shape of the result matches the reader's
    /// declared length; the payload bytes are whatever the chip answered.
    pub fn read<T: SpiDrive>(&self, flash: &mut SpiFlash<T>) -> (r: Result<RegReadRet, FlashError>)
        requires
            reg_reader_wf(self.reader),
        ensures
            final(flash).poll_limit == old(flash).poll_limit,
            final(flash).drive.log() == old(flash).drive.log().push(spec_read_frame(self.reader)),
            final(flash).drive.results() == old(flash).drive.results().push(r is Ok),
            r matches Ok(v) ==> match (v, self.reader.len) {
                (RegReadRet::One(_), RegLen::One) => true,
                (RegReadRet::Multi(b), RegLen::Multi(n)) => b@.len() == n,
                _ => false,
            },
            r matches Err(e) ==> e matches FlashError::Transport(_),
    {
        let frame_len = self.reader.frame.len();
        let payload = match self.reader.len {
            RegLen::One => 1,
            RegLen::Multi(n) => n,
        };

        let mut buf: Vec<u8> = Vec::new();
        let mut i: usize = 0;
        while i < frame_len
            invariant
                i <= frame_len,
                frame_len == self.reader.frame@.len(),
                buf@ == self.reader.frame@.take(i as int),
            decreases frame_len - i,
        {
            buf.push(self.reader.frame[i]);
            proof {
                assert(buf@ =~= self.reader.frame@.take(i as int + 1));
            }
            i = i + 1;
        }
        proof {
            assert(buf@ =~= self.reader.frame@);
        }
        let mut j: usize = 0;
        while j < payload
            invariant
                j <= payload,
                payload == payload_len(self.reader.len),
                buf@ == self.reader.frame@ + Seq::new(j as nat, |i: int| 0u8),
            decreases payload - j,
        {
            buf.push(0x00);
            proof {
                assert(buf@ =~= self.reader.frame@ + Seq::new(j as nat + 1, |i: int| 0u8));
            }
            j = j + 1;
        }
        proof {
            assert(buf@ =~= spec_read_frame(self.reader));
        }

        if flash.drive.transfer(&mut buf).is_err() {
            return Err(FlashError::Transport("transfer fail"));
        }

        match self.reader.len {
            RegLen::One => Ok(RegReadRet::One(buf[frame_len])),
            RegLen::Multi(n) => {
                let mut out: Vec<u8> = Vec::new();
                let mut m: usize = 0;
                while m < n
                    invariant
                        m <= n,
                        buf@.len() == frame_len + n,
                        frame_len + n <= usize::MAX,
                        out@.len() == m,
                    decreases n - m,
                {
                    out.push(buf[frame_len + m]);
                    m = m + 1;
                }
                Ok(RegReadRet::Multi(out))
            },
        }
    }

    /// Write one byte to this register. A register without a writer is
    /// rejected before anything touches the transport. Otherwise exactly
    /// write-enable, the write frame, and write-disable are commanded; a
    /// latched writer polls the status register between the write frame and
    /// write-disable until the chip reports ready — on success the wire saw
    /// precisely that sequence, every exchange successful. On a transport
    /// failure the failing exchange is the last one issued.
    pub fn write<T: SpiDrive>(&self, flash: &mut SpiFlash<T>, value: u8) -> (r: Result<
        (),
        RegWriteError,
    >)
        requires
            reg_writer_wf(self.writer),
        ensures
            final(flash).poll_limit == old(flash).poll_limit,
            self.writer is None ==> r == Err::<(), RegWriteError>(RegWriteError::NotWritable)
                && final(flash).drive.log() == old(flash).drive.log(),
            self.writer matches Some(w) ==> {
                let frames = seq![
                    write_enable_frame(),
                    reg_write_frame(spec_writer_cmd(w), value),
                    write_disable_frame(),
                ];
                &&& (r is Ok ==> writes_extended(
                    old(flash).drive.log(),
                    final(flash).drive.log(),
                    frames,
                ))
                &&& (r is Err ==> {
                    ||| writes_extended(old(flash).drive.log(), final(flash).drive.log(), frames.take(0))
                    ||| writes_extended(old(flash).drive.log(), final(flash).drive.log(), frames.take(1))
                    ||| writes_extended(old(flash).drive.log(), final(flash).drive.log(), frames.take(2))
                    ||| writes_extended(old(flash).drive.log(), final(flash).drive.log(), frames)
                })
            },
            self.writer matches Some(RegWriter::Polled(cmd)) ==> r is Ok ==> exists|k: int|
                #![trigger crate::protocol::poll_frames(k)]
                {
                    &&& 1 <= k <= old(flash).poll_limit
                    &&& final(flash).drive.log() == old(flash).drive.log() + seq![
                        write_enable_frame(),
                        reg_write_frame(cmd, value),
                    ] + crate::protocol::poll_frames(k) + seq![write_disable_frame()]
                    &&& final(flash).drive.results() == old(flash).drive.results() + seq![
                        true,
                        true,
                    ] + crate::protocol::ok_results(k) + seq![true]
                },
            self.writer matches Some(RegWriter::Direct(cmd)) ==> r is Ok
                ==> final(flash).drive.log() == old(flash).drive.log() + seq![
                write_enable_frame(),
                reg_write_frame(cmd, value),
                write_disable_frame(),
            ] && final(flash).drive.results() == old(flash).drive.results() + seq![
                true,
                true,
                true,
            ],
            r matches Err(RegWriteError::Flash(FlashError::Transport(_)))
                ==> final(flash).drive.results().len() > 0
                && final(flash).drive.results().last() == false,
            r matches Err(RegWriteError::Flash(FlashError::Timeout))
                ==> crate::flash::ends_with_full_poll_budget(
                final(flash).drive.log(),
                old(flash).poll_limit,
            ),
            r matches Err(e) && e == RegWriteError::NotWritable ==> self.writer is None,
    {
        let ghost entry_log = flash.drive.log();
        let ghost entry_results = flash.drive.results();

        let writer = match self.writer {
            None => {
                return Err(RegWriteError::NotWritable);
            },
            Some(w) => w,
        };
        let (cmd, polled) = match writer {
            RegWriter::Polled(c) => (c, true),
            RegWriter::Direct(c) => (c, false),
        };
        let ghost frames = seq![
            write_enable_frame(),
            reg_write_frame(spec_writer_cmd(writer), value),
            write_disable_frame(),
        ];

        let mut buf: Vec<u8> = Vec::new();
        buf.push(0x06);
        assert(buf@ =~= write_enable_frame());
        let we_failed = flash.drive.transfer(&mut buf).is_err();
        proof {
            assert(command_writes(flash.drive.log())
                =~= command_writes(entry_log) + frames.take(1));
        }
        if we_failed {
            proof {
                assert(writes_extended(entry_log, flash.drive.log(), frames.take(1)));
            }
            return Err(RegWriteError::Flash(FlashError::Transport("transfer fail")));
        }

        let mut buf: Vec<u8> = Vec::new();
        buf.push(cmd);
        buf.push(value);
        proof {
            assert(buf@ =~= reg_write_frame(spec_writer_cmd(writer), value));
            assert(buf@ != status_poll_frame());
        }
        let wr_failed = flash.drive.transfer(&mut buf).is_err();
        proof {
            assert(command_writes(flash.drive.log())
                =~= command_writes(entry_log) + frames.take(2));
        }
        if wr_failed {
            return Err(RegWriteError::Flash(FlashError::Transport("transfer fail")));
        }

        let ghost mid_log = flash.drive.log();
        let ghost mid_results = flash.drive.results();
        proof {
            assert(mid_log =~= entry_log + seq![
                write_enable_frame(),
                reg_write_frame(spec_writer_cmd(writer), value),
            ]);
            assert(mid_results =~= entry_results + seq![true, true]);
        }

        let ghost mut polls: int = 0;
        if polled {
            if let Err(e) = flash.wait_not_busy() {
                proof {
                    assert(writes_extended(entry_log, flash.drive.log(), frames.take(2)));
                }
                return Err(RegWriteError::Flash(e));
            }
            proof {
                polls = choose|k: int|
                    #![trigger crate::protocol::poll_frames(k)]
                    {
                        &&& 1 <= k <= flash.poll_limit
                        &&& flash.drive.log() == mid_log + crate::protocol::poll_frames(k)
                        &&& flash.drive.results() == mid_results + crate::protocol::ok_results(k)
                    };
            }
        } else {
            proof {
                assert(flash.drive.log() =~= mid_log + crate::protocol::poll_frames(0));
                assert(flash.drive.results() =~= mid_results + crate::protocol::ok_results(0));
            }
        }

        let ghost before_wd_log = flash.drive.log();
        let ghost before_wd_results = flash.drive.results();

        let mut buf: Vec<u8> = Vec::new();
        buf.push(0x04);
        assert(buf@ =~= write_disable_frame());
        let wd_failed = flash.drive.transfer(&mut buf).is_err();
        proof {
            assert(command_writes(flash.drive.log()) =~= command_writes(entry_log) + frames);
        }
        if wd_failed {
            return Err(RegWriteError::Flash(FlashError::Transport("transfer fail")));
        }

        proof {
            if polled {
                assert(flash.drive.log() =~= entry_log + seq![
                    write_enable_frame(),
                    reg_write_frame(spec_writer_cmd(writer), value),
                ] + crate::protocol::poll_frames(polls) + seq![write_disable_frame()]);
                assert(flash.drive.results() =~= entry_results + seq![true, true]
                    + crate::protocol::ok_results(polls) + seq![true]);
            } else {
                assert(flash.drive.log() =~= entry_log + seq![
                    write_enable_frame(),
                    reg_write_frame(spec_writer_cmd(writer), value),
                    write_disable_frame(),
                ]);
                assert(flash.drive.results() =~= entry_results + seq![true, true, true]);
            }
        }

        Ok(())
    }

    /// Write `value` into the bitfield `item_index` of this register: read
    /// the current byte, replace exactly the field's bits, and write the
    /// result back. A register without a writer, and a read-only field, are
    /// rejected before anything touches the transport. On success the
    /// commanded frames are the read (unless it is a passive status poll)
    /// followed by the write sequence, whose byte keeps every bit outside
    /// the field from some byte the chip reported.
    pub fn write_item<T: SpiDrive>(
        &self,
        flash: &mut SpiFlash<T>,
        item_index: usize,
        value: u8,
    ) -> (r: Result<(), RegWriteError>)
        requires
            register_wf(*self),
            self.items matches Some(items) && item_index < items@.len(),
        ensures
            final(flash).poll_limit == old(flash).poll_limit,
            self.writer is None ==> r == Err::<(), RegWriteError>(RegWriteError::NotWritable)
                && final(flash).drive.log() == old(flash).drive.log(),
            self.writer is Some && self.items->Some_0@[item_index as int].access
                == RegisterAccess::ReadOnly ==> r == Err::<(), RegWriteError>(
                RegWriteError::ReadOnlyItem,
            ) && final(flash).drive.log() == old(flash).drive.log(),
            r matches Err(RegWriteError::Flash(FlashError::Transport(_)))
                ==> final(flash).drive.results().len() > 0
                && final(flash).drive.results().last() == false,
            r matches Err(RegWriteError::Flash(FlashError::Timeout))
                ==> crate::flash::ends_with_full_poll_budget(
                final(flash).drive.log(),
                old(flash).poll_limit,
            ),
            r is Ok ==> self.writer is Some && ({
                let item = self.items->Some_0@[item_index as int];
                let w = self.writer->Some_0;
                exists|cur: u8|
                    {
                        &&& #[trigger] spec_item_set(cur, item.offset, item.width, value)
                            & !item_mask(item.offset, item.width) == cur & !item_mask(
                            item.offset,
                            item.width,
                        )
                        &&& writes_extended(
                            old(flash).drive.log(),
                            final(flash).drive.log(),
                            (if crate::protocol::passive_frame(spec_read_frame(self.reader)) {
                                Seq::<Seq<u8>>::empty()
                            } else {
                                seq![spec_read_frame(self.reader)]
                            }) + seq![
                                write_enable_frame(),
                                reg_write_frame(
                                    spec_writer_cmd(w),
                                    spec_item_set(cur, item.offset, item.width, value),
                                ),
                                write_disable_frame(),
                            ],
                        )
                    }
            }),
    {
        let ghost entry_log = flash.drive.log();

        if self.writer.is_none() {
            return Err(RegWriteError::NotWritable);
        }

        let items = match &self.items {
            None => {
                return Err(RegWriteError::NotWritable);
            },
            Some(items) => items,
        };
        let item = &items[item_index];
        if let Err(e) = item.check_writable() {
            return Err(e);
        }

        let current = match self.read(flash) {
            Err(e) => {
                proof {
                    assert(command_writes(flash.drive.log()) =~= command_writes(entry_log) + (
                    if crate::protocol::passive_frame(spec_read_frame(self.reader)) {
                        Seq::<Seq<u8>>::empty()
                    } else {
                        seq![spec_read_frame(self.reader)]
                    }));
                }
                return Err(RegWriteError::Flash(e));
            },
            Ok(RegReadRet::Multi(_)) => {
                return Err(RegWriteError::Flash(FlashError::Transport("not a scalar register")));
            },
            Ok(RegReadRet::One(cur)) => cur,
        };

        let new_byte = item_set(current, item, value);
        proof {
            lemma_bitfield_round_trip(current, item.offset, item.width, value);
        }

        let ghost mid_log = flash.drive.log();
        match self.write(flash, new_byte) {
            Err(e) => Err(e),
            Ok(()) => {
                proof {
                    let read_part = if crate::protocol::passive_frame(
                        spec_read_frame(self.reader),
                    ) {
                        Seq::<Seq<u8>>::empty()
                    } else {
                        seq![spec_read_frame(self.reader)]
                    };
                    let w = self.writer->Some_0;
                    assert(command_writes(flash.drive.log()) =~= command_writes(entry_log) + (
                    read_part + seq![
                        write_enable_frame(),
                        reg_write_frame(spec_writer_cmd(w), new_byte),
                        write_disable_frame(),
                    ]));
                    assert(writes_extended(
                        entry_log,
                        flash.drive.log(),
                        read_part + seq![
                            write_enable_frame(),
                            reg_write_frame(spec_writer_cmd(w), new_byte),
                            write_disable_frame(),
                        ],
                    ));
                }
                Ok(())
            },
        }
    }
}

/// What a lookup by name found: a whole register, or one bitfield item of a
/// register, both by table index.
#[derive(Debug, Clone, Copy, PartialEq, Eq, Structural)]
pub enum FindRegType {
    Reg(usize),
    RegItem(usize, usize),
}

/// The bitfield items of a register, an empty sequence when it has none.
pub open spec fn reg_items(r: Register) -> Seq<RegisterItem> {
    match r.items {
        None => Seq::empty(),
        Some(items) => items@,
    }
}

/// Does this register's name match the (lowercased) query?
pub open spec fn reg_name_matches(low: Seq<u8>, r: Register) -> bool {
    lower_bytes(r.name.spec_bytes()) == low
}

/// Does this item's name match the (lowercased) query?
pub open spec fn item_name_matches(low: Seq<u8>, it: RegisterItem) -> bool {
    lower_bytes(it.name.spec_bytes()) == low
}

/// Does one of this item's aliases match the (lowercased) query?
pub open spec fn item_alias_matches(low: Seq<u8>, it: RegisterItem) -> bool {
    exists|a: int|
        0 <= a < it.alias@.len() && lower_bytes((#[trigger] it.alias@[a]).spec_bytes()) == low
}

/// Does some register name in the table match?
pub open spec fn any_reg_name_match(low: Seq<u8>, regs: Seq<Register>) -> bool {
    exists|i: int| 0 <= i < regs.len() && reg_name_matches(low, #[trigger] regs[i])
}

/// Does some item name in the table match?
pub open spec fn any_item_name_match(low: Seq<u8>, regs: Seq<Register>) -> bool {
    exists|i: int, k: int|
        #![auto]
        0 <= i < regs.len() && 0 <= k < reg_items(regs[i]).len() && item_name_matches(
            low,
            reg_items(regs[i])[k],
        )
}

/// Does some item alias in the table match?
pub open spec fn any_item_alias_match(low: Seq<u8>, regs: Seq<Register>) -> bool {
    exists|i: int, k: int|
        #![auto]
        0 <= i < regs.len() && 0 <= k < reg_items(regs[i]).len() && item_alias_matches(
            low,
            reg_items(regs[i])[k],
        )
}

/// Look a register or bitfield up by name, case-insensitively. The search
/// tries register names first, then item names, then item aliases; within
/// each pass the table is walked in order and the first match wins. `None`
/// is returned exactly when nothing matches anywhere.
pub fn find_reg_by_name(name: &str, reg_defines: &Vec<Register>) -> (r: Option<FindRegType>)
    ensures
        ({
            let low = lower_bytes(name.spec_bytes());
            let regs = reg_defines@;
            match r {
                None => {
                    &&& !any_reg_name_match(low, regs)
                    &&& !any_item_name_match(low, regs)
                    &&& !any_item_alias_match(low, regs)
                },
                Some(FindRegType::Reg(i)) => {
                    &&& i < regs.len()
                    &&& reg_name_matches(low, regs[i as int])
                    &&& forall|j: int| 0 <= j < i ==> !reg_name_matches(low, #[trigger] regs[j])
                },
                Some(FindRegType::RegItem(i, k)) => {
                    &&& !any_reg_name_match(low, regs)
                    &&& i < regs.len()
                    &&& k < reg_items(regs[i as int]).len()
                    &&& {
                        ||| (item_name_matches(low, reg_items(regs[i as int])[k as int])
                            && forall|j: int, l: int|
                            #![auto]
                            0 <= j < regs.len() && 0 <= l < reg_items(regs[j]).len() && (j < i || (j
                                == i && l < k)) ==> !item_name_matches(low, reg_items(regs[j])[l]))
                        ||| (!any_item_name_match(low, regs) && item_alias_matches(
                            low,
                            reg_items(regs[i as int])[k as int],
                        ) && forall|j: int, l: int|
                            #![auto]
                            0 <= j < regs.len() && 0 <= l < reg_items(regs[j]).len() && (j < i || (j
                                == i && l < k)) ==> !item_alias_matches(low, reg_items(regs[j])[l]))
                    }
                },
            }
        }),
{
    let ghost low = lower_bytes(name.spec_bytes());
    let n = reg_defines.len();

    let mut i: usize = 0;
    while i < n
        invariant
            i <= n,
            n == reg_defines@.len(),
            low == lower_bytes(name.spec_bytes()),
            forall|j: int| 0 <= j < i ==> !reg_name_matches(low, #[trigger] reg_defines@[j]),
        decreases n - i,
    {
        if crate::utils::eq_ignore_ascii_case(name, reg_defines[i].name) {
            return Some(FindRegType::Reg(i));
        }
        i = i + 1;
    }
    proof {
        assert(!any_reg_name_match(low, reg_defines@));
    }

    let mut i: usize = 0;
    while i < n
        invariant
            i <= n,
            n == reg_defines@.len(),
            low == lower_bytes(name.spec_bytes()),
            !any_reg_name_match(low, reg_defines@),
            forall|j: int, l: int|
                #![auto]
                0 <= j < i && 0 <= l < reg_items(reg_defines@[j]).len() ==> !item_name_matches(
                    low,
                    reg_items(reg_defines@[j])[l],
                ),
        decreases n - i,
    {
        match &reg_defines[i].items {
            None => {},
            Some(items) => {
                let m = items.len();
                let mut k: usize = 0;
                while k < m
                    invariant
                        k <= m,
                        i < n,
                        n == reg_defines@.len(),
                        m == reg_items(reg_defines@[i as int]).len(),
                        items@ == reg_items(reg_defines@[i as int]),
                        low == lower_bytes(name.spec_bytes()),
                        !any_reg_name_match(low, reg_defines@),
                        forall|j: int, l: int|
                            #![auto]
                            0 <= j < i && 0 <= l < reg_items(reg_defines@[j]).len()
                                ==> !item_name_matches(low, reg_items(reg_defines@[j])[l]),
                        forall|l: int|
                            0 <= l < k ==> !item_name_matches(
                                low,
                                reg_items(reg_defines@[i as int])[l],
                            ),
                    decreases m - k,
                {
                    if crate::utils::eq_ignore_ascii_case(name, items[k].name) {
                        return Some(FindRegType::RegItem(i, k));
                    }
                    k = k + 1;
                }
            },
        }
        i = i + 1;
    }
    proof {
        assert(!any_item_name_match(low, reg_defines@));
    }

    let mut i: usize = 0;
    while i < n
        invariant
            i <= n,
            n == reg_defines@.len(),
            low == lower_bytes(name.spec_bytes()),
            !any_reg_name_match(low, reg_defines@),
            !any_item_name_match(low, reg_defines@),
            forall|j: int, l: int|
                #![auto]
                0 <= j < i && 0 <= l < reg_items(reg_defines@[j]).len() ==> !item_alias_matches(
                    low,
                    reg_items(reg_defines@[j])[l],
                ),
        decreases n - i,
    {
        match &reg_defines[i].items {
            None => {},
            Some(items) => {
                let m = items.len();
                let mut k: usize = 0;
                while k < m
                    invariant
                        k <= m,
                        i < n,
                        n == reg_defines@.len(),
                        m == reg_items(reg_defines@[i as int]).len(),
                        items@ == reg_items(reg_defines@[i as int]),
                        low == lower_bytes(name.spec_bytes()),
                        !any_reg_name_match(low, reg_defines@),
                        !any_item_name_match(low, reg_defines@),
                        forall|j: int, l: int|
                            #![auto]
                            0 <= j < i && 0 <= l < reg_items(reg_defines@[j]).len()
                                ==> !item_alias_matches(low, reg_items(reg_defines@[j])[l]),
                        forall|l: int|
                            0 <= l < k ==> !item_alias_matches(
                                low,
                                reg_items(reg_defines@[i as int])[l],
                            ),
                    decreases m - k,
                {
                    let aliases = &items[k].alias;
                    let alias_count = aliases.len();
                    let mut a: usize = 0;
                    while a < alias_count
                        invariant
                            a <= alias_count,
                            k < m,
                            i < n,
                            n == reg_defines@.len(),
                            m == reg_items(reg_defines@[i as int]).len(),
                            aliases@ == reg_items(reg_defines@[i as int])[k as int].alias@,
                            alias_count == aliases@.len(),
                            low == lower_bytes(name.spec_bytes()),
                            !any_reg_name_match(low, reg_defines@),
                            !any_item_name_match(low, reg_defines@),
                            forall|j: int, l: int|
                                #![auto]
                                0 <= j < i && 0 <= l < reg_items(reg_defines@[j]).len()
                                    ==> !item_alias_matches(low, reg_items(reg_defines@[j])[l]),
                            forall|l: int|
                                0 <= l < k ==> !item_alias_matches(
                                    low,
                                    reg_items(reg_defines@[i as int])[l],
                                ),
                            forall|b: int|
                                0 <= b < a ==> lower_bytes(
                                    (#[trigger] aliases@[b]).spec_bytes(),
                                ) != low,
                        decreases alias_count - a,
                    {
                        if crate::utils::eq_ignore_ascii_case(name, aliases[a]) {
                            proof {
                                assert(item_alias_matches(
                                    low,
                                    reg_items(reg_defines@[i as int])[k as int],
                                ));
                            }
                            return Some(FindRegType::RegItem(i, k));
                        }
                        a = a + 1;
                    }
                    proof {
                        assert(!item_alias_matches(
                            low,
                            reg_items(reg_defines@[i as int])[k as int],
                        ));
                    }
                    k = k + 1;
                }
            },
        }
        i = i + 1;
    }
    proof {
        assert(!any_item_alias_match(low, reg_defines@));
    }

    None
}

/// Is bit `bit` (LSB-first across the whole buffer) set?
pub open spec fn spec_bit_of(buf: Seq<u8>, bit: int) -> bool {
    (buf[bit / 8] >> ((bit % 8) as u8)) & 1 == 1
}

/// The value of the `cnt` bits at range positions `from .. from + cnt`,
/// packed with the first bit most significant.
pub open spec fn spec_pack_byte(buf: Seq<u8>, from: int, cnt: int) -> u8
    decreases cnt,
{
    if cnt <= 0 {
        0u8
    } else {
        (((spec_pack_byte(buf, from, cnt - 1) << 1u8) as u8) | (if spec_bit_of(
            buf,
            from + cnt - 1,
        ) {
            1u8
        } else {
            0u8
        })) as u8
    }
}

/// What [`RegisterRead::read_bytes`] returns for the bit range `[start, end)`
/// of width `w`: `ceil(w / 8)` bytes, where byte `m` packs range bits
/// `8m .. min(8m + 8, w)` in order, the first of them most significant. An
/// empty or reversed range packs to nothing.
pub open spec fn spec_read_bytes(buf: Seq<u8>, start: int, end: int) -> Seq<u8> {
    let w = if start < end {
        end - start
    } else {
        0
    };
    Seq::new(
        ((w + 7) / 8) as nat,
        |m: int|
            spec_pack_byte(
                buf,
                start + 8 * m,
                if w - 8 * m >= 8 {
                    8
                } else {
                    w - 8 * m
                },
            ),
    )
}

/// A bit-level reader over a register payload, counting bits LSB-first
/// within each byte.
pub struct RegisterRead<'a> {
    buf: &'a [u8],
}

impl<'a> View for RegisterRead<'a> {
    type V = Seq<u8>;

    closed spec fn view(&self) -> Seq<u8> {
        self.buf@
    }
}

impl<'a> RegisterRead<'a> {
    pub fn new(buf: &'a [u8]) -> (r: RegisterRead<'a>)
        ensures
            r@ == buf@,
    {
        RegisterRead { buf }
    }

    /// Read one bit. A bit index beyond the buffer is an error, reported
    /// before anything is touched.
    pub fn read_bit(&self, bit: usize) -> (r: Result<bool, &'static str>)
        ensures
            bit / 8 < self@.len() ==> r == Ok::<bool, &'static str>(spec_bit_of(self@, bit as int)),
            bit / 8 >= self@.len() ==> r is Err,
    {
        let buf_index = bit / 8;
        let bit_index = (bit % 8) as u8;
        if buf_index >= self.buf.len() {
            return Err("bit out of range");
        }
        let b = self.buf[buf_index];
        let set = b & (1u8 << bit_index) != 0;
        proof {
            assert(((b >> bit_index) & 1 == 1) == ((b & (1u8 << bit_index)) != 0)) by (bit_vector)
                requires
                    bit_index < 8,
            ;
        }
        Ok(set)
    }

    /// Read a range of bits as booleans, lowest index first. An empty range
    /// yields an empty vector; a range reaching beyond the buffer is an
    /// error.
    pub fn read_bits(&self, bits: core::ops::Range<usize>) -> (r: Result<Vec<bool>, &'static str>)
        ensures
            (bits.start >= bits.end || (bits.end - 1) / 8 < self@.len()) <==> r is Ok,
            r matches Ok(v) ==> {
                &&& v@.len() == if bits.start < bits.end {
                    bits.end - bits.start
                } else {
                    0
                }
                &&& forall|m: int|
                    0 <= m < v@.len() ==> v@[m] == spec_bit_of(self@, bits.start + m)
            },
    {
        let start = bits.start;
        let end = bits.end;
        if start >= end {
            return Ok(Vec::new());
        }
        if (end - 1) / 8 >= self.buf.len() {
            return Err("bit out of range");
        }
        let mut ret: Vec<bool> = Vec::new();
        let mut i: usize = start;
        while i < end
            invariant
                start <= i <= end,
                start < end,
                (end - 1) / 8 < self@.len(),
                ret@.len() == i - start,
                forall|m: int| 0 <= m < ret@.len() ==> ret@[m] == spec_bit_of(self@, start + m),
            decreases end - i,
        {
            let buf_index = i / 8;
            let bit_index = (i % 8) as u8;
            let v = self.buf[buf_index];
            let b = v & (1u8 << bit_index) != 0;
            proof {
                assert(((v >> bit_index) & 1 == 1) == ((v & (1u8 << bit_index)) != 0)) by (bit_vector)
                    requires
                        bit_index < 8,
                ;
                assert(b == spec_bit_of(self@, i as int));
            }
            ret.push(b);
            i = i + 1;
        }
        Ok(ret)
    }

    /// Pack a range of bits into bytes: each bit is shifted in at the low
    /// end, so within each byte the lowest range bit is the most
    /// significant; a byte is emitted after every eighth bit, and a final
    /// partial byte carries the remainder when the range's width is no whole
    /// number of bytes. An empty or reversed range packs to nothing; a range
    /// reaching beyond the buffer is an error.
    pub fn read_bytes(&self, bits: core::ops::Range<usize>) -> (r: Result<Vec<u8>, &'static str>)
        ensures
            (bits.start >= bits.end || (bits.end - 1) / 8 < self@.len()) <==> r is Ok,
            r matches Ok(v) ==> v@ == spec_read_bytes(self@, bits.start as int, bits.end as int),
            r matches Ok(v) ==> v@.len() == ({
                let w: int = if bits.start < bits.end {
                    bits.end - bits.start
                } else {
                    0
                };
                (w + 7) / 8
            }),
    {
        let start = bits.start;
        let end = bits.end;

        if start >= end {
            proof {
                assert(spec_read_bytes(self@, start as int, end as int) =~= Seq::<u8>::empty());
            }
            return Ok(Vec::new());
        }
        if (end - 1) / 8 >= self.buf.len() {
            return Err("bit out of range");
        }

        let w = end - start;
        let mut ret: Vec<u8> = Vec::new();
        let mut b: u8 = 0;
        let mut k: usize = 0;
        while k < w
            invariant
                k <= w,
                w == end - start,
                start < end,
                (end - 1) / 8 < self@.len(),
                start + w <= usize::MAX,
                ret@.len() == k / 8,
                forall|m: int|
                    0 <= m < ret@.len() ==> ret@[m] == spec_pack_byte(self@, start + 8 * m, 8),
                b == spec_pack_byte(self@, start + 8 * ((k / 8) as int), (k % 8) as int),
            decreases w - k,
        {
            let i = start + k;
            let buf_index = i / 8;
            let bit_index = (i % 8) as u8;
            let v = self.buf[buf_index];
            proof {
                assert(((v >> bit_index) & 1 == 1) == ((v & (1u8 << bit_index)) != 0)) by (bit_vector)
                    requires
                        bit_index < 8,
                ;
                assert((v & (1u8 << bit_index) != 0) == spec_bit_of(self@, i as int));
                assert(forall|x: u8| #[trigger] (x | 0u8) == x) by (bit_vector);
            }

            b = b << 1u8;
            if v & (1u8 << bit_index) != 0 {
                b = b | 1;
            }
            proof {
                assert(8 * ((k / 8) as int) + (k % 8) as int == k as int);
                assert(b == spec_pack_byte(
                    self@,
                    start + 8 * ((k / 8) as int),
                    (k % 8) as int + 1,
                ));
            }

            if (k + 1) % 8 == 0 {
                ret.push(b);
                b = 0;
                proof {
                    assert((k % 8) as int + 1 == 8);
                    assert((k + 1) / 8 == k / 8 + 1);
                }
            }
            k = k + 1;
        }

        if w % 8 != 0 {
            ret.push(b);
            proof {
                assert(b == spec_pack_byte(self@, start + 8 * ((w / 8) as int), (w % 8) as int));
            }
        }
        proof {
            assert(ret@ =~= spec_read_bytes(self@, start as int, end as int));
        }

        Ok(ret)
    }
}

} // verus!
