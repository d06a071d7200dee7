//! The flash engine: detect, status polling, chip erase, bulk read and paged
//! programming over an abstract [`SpiDrive`] transport.
//!
//! Every contract pins the exact sequence of state-changing frames an
//! operation put on the wire (`command_writes` of the transport log), and
//! the successful operations additionally pin the raw log shape: where the
//! busy-wait polls sit, and that every exchange of the operation succeeded.

use vstd::prelude::*;

use crate::drive::SpiDrive;
use crate::protocol::chip_erase_frame;
use crate::protocol::command_writes;
use crate::protocol::ok_results;
use crate::protocol::poll_frames;
use crate::protocol::read_data_frame;
use crate::protocol::status_poll_frame;
use crate::protocol::write_enable_frame;
use crate::model::Chip;
use crate::model::Vendor;
use crate::protocol::SpiFlashCmd;
use crate::protocol::StatusRes;

verus! {

broadcast use crate::protocol::lemma_command_writes_push;

/// How detection can fail: the chip's manufacturer byte is not in the
/// vendor registry, the manufacturer is known but the chip is not, or the
/// transport refused the exchange.
#[derive(Debug, Clone, Copy, PartialEq, Eq)]
pub enum DetectErr {
    UnknownManufacturer(u8),
    UnrecognizedChip(u8),
    Transport(&'static str),
}

/// How a flash engine operation can fail: the transport refused an exchange,
/// or the chip stayed busy for longer than the configured poll bound.
#[derive(Debug, Clone, Copy, PartialEq, Eq)]
pub enum FlashError {
    Transport(&'static str),
    Timeout,
}

/// How many status polls a busy-wait may issue before giving up, unless the
/// caller configures another bound.
pub const DEFAULT_POLL_LIMIT: u64 = 1000000;

/// `command_writes` of `new_log` extends that of `old_log` by exactly `ext`.
pub open spec fn writes_extended(old_log: Seq<Seq<u8>>, new_log: Seq<Seq<u8>>, ext: Seq<Seq<u8>>) -> bool {
    command_writes(new_log) == command_writes(old_log) + ext
}

/// What a paged write reports to its caller: one `Block(offset, length)` per
/// programmed page, and a final `Finish(total_length)` when all pages are
/// done. Offsets are relative to the start of the written data.
#[derive(Debug, Clone, Copy, PartialEq, Eq, Structural)]
pub enum WriteEvent {
    Block(usize, usize),
    Finish(usize),
}

/// The callback a paged write reports its progress to. Returning `false` from
/// [`WriteEventSink::on_event`] aborts the remaining write loop immediately;
/// callers use this to stop on a verification mismatch.
///
/// For specification purposes a sink carries the events it has seen and the
/// reply it gave to each; each implementation chooses what those mean for
/// its own state.
pub trait WriteEventSink<T: SpiDrive>: Sized {
    /// The events handed to this sink so far, oldest first.
    spec fn events(&self) -> Seq<WriteEvent>;

    /// The replies this sink gave, one per event, oldest first.
    spec fn verdicts(&self) -> Seq<bool>;

    /// Take note of `e`; reply `false` to abort the surrounding write loop.
    /// The transport is lent to the sink so that it can read back what was
    /// just written; a sink may only observe the chip through it — every
    /// frame it adds is passive — never command a state change.
    fn on_event(&mut self, drive: &mut T, e: WriteEvent) -> (cont: bool)
        ensures
            final(self).events() == old(self).events().push(e),
            final(self).verdicts() == old(self).verdicts().push(cont),
            command_writes(final(drive).log()) == command_writes(old(drive).log()),
            old(drive).log().is_prefix_of(final(drive).log()),
            forall|i: int|
                old(drive).log().len() <= i < final(drive).log().len()
                    ==> crate::protocol::passive_frame(#[trigger] final(drive).log()[i]),
    ;
}

/// The sink used by plain [`SpiFlash::write`]: it never asks for an abort,
/// so every one of its replies is `true`.
pub struct AlwaysContinue {
    pub history: Ghost<Seq<WriteEvent>>,
}

impl AlwaysContinue {
    pub fn new() -> (r: AlwaysContinue)
        ensures
            r.history@ == Seq::<WriteEvent>::empty(),
    {
        AlwaysContinue { history: Ghost(Seq::empty()) }
    }
}

impl<T: SpiDrive> WriteEventSink<T> for AlwaysContinue {
    open spec fn events(&self) -> Seq<WriteEvent> {
        self.history@
    }

    open spec fn verdicts(&self) -> Seq<bool> {
        Seq::new(self.history@.len(), |i: int| true)
    }

    fn on_event(&mut self, _drive: &mut T, e: WriteEvent) -> (cont: bool) {
        proof {
            let ghost before = self.history@;
            self.history@ = self.history@.push(e);
            assert(Seq::new(self.history@.len(), |i: int| true) =~= Seq::new(
                before.len(),
                |i: int| true,
            ).push(true));
            assert(_drive.log().is_prefix_of(_drive.log())) by {
                assert(_drive.log().take(_drive.log().len() as int) =~= _drive.log());
            }
        }
        true
    }
}

/// How many pages a write over `len` bytes programs: one per 256-byte page,
/// the last page possibly shorter.
pub open spec fn n_blocks(len: int) -> int {
    (len + 255) / 256
}

/// The length of the `j`-th page of a write over `len` bytes.
pub open spec fn block_len(len: int, j: int) -> int {
    if len - 256 * j >= 256 {
        256
    } else {
        len - 256 * j
    }
}

/// The `Block` event reported for the `j`-th page of a write over `len` bytes.
pub open spec fn block_event(len: int, j: int) -> WriteEvent {
    WriteEvent::Block((256 * j) as usize, block_len(len, j) as usize)
}

/// The first `n` `Block` events of a write over `len` bytes, in order.
pub open spec fn block_events(len: int, n: int) -> Seq<WriteEvent> {
    Seq::new(n as nat, |j: int| block_event(len, j))
}

/// The flash address the `j`-th page of a write starting at `addr` goes to.
pub open spec fn block_addr(addr: u32, j: int) -> u32 {
    (addr + 256 * j) as u32
}

/// The bytes of `data` that the `j`-th page carries.
pub open spec fn page_payload(data: Seq<u8>, j: int) -> Seq<u8> {
    data.subrange(256 * j, 256 * j + block_len(data.len() as int, j))
}

/// The command frames a write puts on the wire for its first `n` pages: a
/// write-enable followed by a page-program frame, per page, in page order.
pub open spec fn program_frames(addr: u32, data: Seq<u8>, n: int) -> Seq<Seq<u8>>
    decreases n,
{
    if n <= 0 {
        Seq::empty()
    } else {
        program_frames(addr, data, n - 1)
            + seq![
            write_enable_frame(),
            crate::protocol::page_program_frame(block_addr(addr, n - 1), page_payload(data, n - 1)),
        ]
    }
}

/// The frames on the wire after a write that failed or was aborted after `n`
/// fully programmed pages: the frames of those pages, possibly followed by
/// the write-enable alone, or by the whole frame pair, of the page in flight.
pub open spec fn partial_write_frames(
    old_log: Seq<Seq<u8>>,
    new_log: Seq<Seq<u8>>,
    addr: u32,
    data: Seq<u8>,
    n: int,
) -> bool {
    ||| writes_extended(old_log, new_log, program_frames(addr, data, n))
    ||| writes_extended(old_log, new_log, program_frames(addr, data, n) + seq![write_enable_frame()])
    ||| (n < n_blocks(data.len() as int) && writes_extended(
        old_log,
        new_log,
        program_frames(addr, data, n + 1),
    ))
}

/// The log ends with a busy-wait's whole exhausted poll budget: the last
/// `limit` frames are status polls. This is what a `Timeout` leaves behind.
pub open spec fn ends_with_full_poll_budget(lg: Seq<Seq<u8>>, limit: u64) -> bool {
    &&& lg.len() >= limit
    &&& lg.skip(lg.len() - limit as int) == poll_frames(limit as int)
}

/// A run of frames that only observe the chip: status polls and reads.
pub open spec fn passive_run(s: Seq<Seq<u8>>) -> bool {
    forall|i: int| 0 <= i < s.len() ==> crate::protocol::passive_frame(#[trigger] s[i])
}

/// The raw wire traffic of `w.len()` programmed pages, in page order. Page
/// `j` contributes its write-enable and page-program frames, then `w[j].0`
/// status polls (the busy-wait for that page), then `w[j].1`, the passive
/// read-back the progress sink performed.
pub open spec fn paged_log_of(addr: u32, data: Seq<u8>, w: Seq<(int, Seq<Seq<u8>>)>) -> Seq<
    Seq<u8>,
>
    decreases w.len(),
{
    if w.len() == 0 {
        Seq::empty()
    } else {
        paged_log_of(addr, data, w.drop_last()) + seq![
            write_enable_frame(),
            crate::protocol::page_program_frame(
                block_addr(addr, w.len() - 1),
                page_payload(data, w.len() - 1),
            ),
        ] + poll_frames(w.last().0) + w.last().1
    }
}

/// Every page of the witness list was busy-waited at least once, and its
/// sink read-back consists of passive frames only.
pub open spec fn pages_witness_ok(w: Seq<(int, Seq<Seq<u8>>)>) -> bool {
    forall|i: int| 0 <= i < w.len() ==> 1 <= (#[trigger] w[i]).0 && passive_run(w[i].1)
}

/// A write that returned without a transport error, after programming `n`
/// pages: exactly their frames were commanded, and the sink saw their `Block`
/// events in order. Either every page was programmed because the sink
/// replied `true` to every `Block`, and a single `Finish` followed — or the
/// sink's reply to the `n`-th `Block` was `false` and the write stopped
/// there, with no later event and no later page.
pub open spec fn completed_write(
    old_log: Seq<Seq<u8>>,
    new_log: Seq<Seq<u8>>,
    old_events: Seq<WriteEvent>,
    new_events: Seq<WriteEvent>,
    old_verdicts: Seq<bool>,
    new_verdicts: Seq<bool>,
    addr: u32,
    data: Seq<u8>,
    n: int,
) -> bool {
    let len = data.len() as int;
    &&& writes_extended(old_log, new_log, program_frames(addr, data, n))
    &&& old_verdicts.is_prefix_of(new_verdicts)
    &&& {
        ||| (n == n_blocks(len) && new_events == old_events + block_events(len, n_blocks(len)).push(
            WriteEvent::Finish(data.len() as usize),
        ) && new_verdicts.len() == old_verdicts.len() + n + 1 && forall|j: int|
            old_verdicts.len() <= j < old_verdicts.len() + n ==> #[trigger] new_verdicts[j]
                == true)
        ||| (1 <= n && new_events == old_events + block_events(len, n) && new_verdicts.len()
            == old_verdicts.len() + n && new_verdicts.last() == false && forall|j: int|
            old_verdicts.len() <= j < old_verdicts.len() + n - 1 ==> #[trigger] new_verdicts[j]
                == true)
    }
}

/// Law: a paged write that returned without a transport error, and whose
/// sink never replied `false`, programmed every page: its events are the
/// full `Block` partition of the data followed by exactly one `Finish`.
pub proof fn lemma_write_all_accepted_is_complete(
    old_log: Seq<Seq<u8>>,
    new_log: Seq<Seq<u8>>,
    old_events: Seq<WriteEvent>,
    new_events: Seq<WriteEvent>,
    old_verdicts: Seq<bool>,
    new_verdicts: Seq<bool>,
    addr: u32,
    data: Seq<u8>,
    n: int,
)
    requires
        completed_write(
            old_log,
            new_log,
            old_events,
            new_events,
            old_verdicts,
            new_verdicts,
            addr,
            data,
            n,
        ),
        forall|j: int|
            old_verdicts.len() <= j < new_verdicts.len() ==> #[trigger] new_verdicts[j] == true,
    ensures
        n == n_blocks(data.len() as int),
        new_events == old_events + block_events(data.len() as int, n_blocks(data.len() as int)).push(
            WriteEvent::Finish(data.len() as usize),
        ),
        writes_extended(old_log, new_log, program_frames(addr, data, n_blocks(data.len() as int))),
{
}

/// Law: the `Block` events of a completed write over `len` bytes tile
/// `[0, len)` exactly. There are `ceil(len / 256)` of them; block `j` starts
/// at offset `256 * j`, each block ends where the next begins, every block
/// except possibly the last has length 256, and the last one ends at `len`.
pub proof fn lemma_block_events_partition(len: int)
    requires
        0 <= len <= usize::MAX,
    ensures
        block_events(len, n_blocks(len)).len() == n_blocks(len),
        256 * (n_blocks(len) - 1) < len || len == 0,
        256 * n_blocks(len) >= len,
        forall|j: int|
            0 <= j < n_blocks(len) ==> #[trigger] block_events(len, n_blocks(len))[j]
                == WriteEvent::Block((256 * j) as usize, block_len(len, j) as usize),
        forall|j: int| 0 <= j < n_blocks(len) ==> 1 <= #[trigger] block_len(len, j) <= 256,
        forall|j: int|
            0 <= j < n_blocks(len) ==> 256 * j + #[trigger] block_len(len, j) == if j
                == n_blocks(len) - 1 {
                len
            } else {
                256 * (j + 1)
            },
{
}

/// A flash chip behind a byte-exchange transport.
pub struct SpiFlash<T: SpiDrive> {
    pub drive: T,
    /// Busy-polling gives up (with [`FlashError::Timeout`]) after this many
    /// status reads, so a wedged chip cannot hang the caller forever.
    pub poll_limit: u64,
}

impl<T: SpiDrive> SpiFlash<T> {
    pub fn new(drive: T) -> (r: SpiFlash<T>)
        ensures
            r.drive == drive,
            r.poll_limit == DEFAULT_POLL_LIMIT,
    {
        SpiFlash { drive, poll_limit: DEFAULT_POLL_LIMIT }
    }

    /// Bound the number of status polls a busy-wait may issue.
    pub fn set_poll_limit(&mut self, limit: u64)
        ensures
            final(self).poll_limit == limit,
            final(self).drive == old(self).drive,
    {
        self.poll_limit = limit;
    }

    /// Identify the chip: issue the JEDEC-ID command and decode the three
    /// identifier bytes the chip answers with. An unregistered manufacturer
    /// byte and a registered manufacturer with an unrecognized chip are
    /// reported as distinct errors.
    pub fn detect(&mut self) -> (r: Result<Chip, DetectErr>)
        ensures
            final(self).poll_limit == old(self).poll_limit,
            final(self).drive.log() == old(self).drive.log().push(
                crate::protocol::jedec_id_frame(),
            ),
            final(self).drive.results() == old(self).drive.results().push(
                !(r matches Err(DetectErr::Transport(_))),
            ),
            r matches Ok(chip) ==> exists|b: Seq<u8>|
                b.len() == 3 && match #[trigger] crate::model::spec_parse_jedec_id(b) {
                    Some(m) => crate::model::chip_matches(chip, m.0, (m.1, m.2)),
                    None => false,
                },
            r matches Err(e) ==> match e {
                DetectErr::UnknownManufacturer(id) => crate::model::spec_registry_kind(id) is None,
                DetectErr::UnrecognizedChip(id) => crate::model::spec_registry_kind(id) is Some,
                DetectErr::Transport(_) => true,
            },
    {
        let mut wbuf: Vec<u8> = Vec::new();
        wbuf.push(SpiFlashCmd::JedecId.code());
        wbuf.push(0x00);
        wbuf.push(0x00);
        wbuf.push(0x00);
        assert(wbuf@ =~= crate::protocol::jedec_id_frame());

        if self.drive.transfer(&mut wbuf).is_err() {
            return Err(DetectErr::Transport("transfer fail"));
        }

        let manufacturer_id = wbuf[1];
        let memory_type = wbuf[2];
        let capacity_code = wbuf[3];

        let vendor = match crate::model::find_vendor(manufacturer_id) {
            None => {
                return Err(DetectErr::UnknownManufacturer(manufacturer_id));
            },
            Some(v) => v,
        };

        let decoded = match vendor.kind {
            crate::model::VendorKind::EonSilicon => crate::model::eon_silicon::parse_jedec_id(
                vendor,
                (memory_type, capacity_code),
            ),
            crate::model::VendorKind::GigaDevice => crate::model::gigadevice::parse_jedec_id(
                vendor,
                (memory_type, capacity_code),
            ),
            crate::model::VendorKind::Macronix => crate::model::macronix::parse_jedec_id(
                vendor,
                (memory_type, capacity_code),
            ),
            crate::model::VendorKind::Winbond => crate::model::winbond::parse_jedec_id(
                vendor,
                (memory_type, capacity_code),
            ),
        };

        match decoded {
            None => Err(DetectErr::UnrecognizedChip(manufacturer_id)),
            Some(chip) => {
                proof {
                    let b = seq![manufacturer_id, memory_type, capacity_code];
                    assert(b.len() == 3);
                    assert(b[0] == manufacturer_id && b[1] == memory_type && b[2]
                        == capacity_code);
                    assert(match crate::model::spec_parse_jedec_id(b) {
                        Some(m) => crate::model::chip_matches(chip, m.0, (m.1, m.2)),
                        None => false,
                    });
                }
                Ok(chip)
            },
        }
    }

    /// Read the chip's unique ID through the vendor's register table.
    pub fn read_uuid(&mut self, vendor: &Vendor) -> (r: Result<Vec<u8>, &'static str>)
        ensures
            final(self).poll_limit == old(self).poll_limit,
            !crate::model::spec_has_uid(vendor.kind) ==> r is Err && final(self).drive.log()
                == old(self).drive.log(),
            crate::model::spec_has_uid(vendor.kind) ==> final(self).drive.log() == old(self).drive.log().push(crate::model::spec_uid_frame(vendor.kind)),
            r matches Ok(b) ==> crate::model::spec_has_uid(vendor.kind) && b@.len()
                == crate::model::spec_uid_payload_len(vendor.kind),
            !crate::model::spec_has_uid(vendor.kind) ==> final(self).drive.results() == old(self).drive.results(),
            crate::model::spec_has_uid(vendor.kind) ==> final(self).drive.results().len() == old(self).drive.results().len() + 1,
            r is Ok ==> final(self).drive.results().len() > 0 && final(self).drive.results().last() == true,
            crate::model::spec_has_uid(vendor.kind) ==> (r is Ok <==> final(self).drive.results().len() > 0 && final(self).drive.results().last() == true),
    {
        vendor.read_uid(self)
    }

    /// Decoding a vendor-specific status register is not supported yet; the
    /// call always reports so, without touching the transport.
    pub fn read_status_register<S: crate::drive::StatusRegister>(
        &mut self,
        _vendor: &Vendor,
    ) -> (r: Result<S, &'static str>)
        ensures
            r is Err,
            *final(self) == *old(self),
    {
        Err("Not supported")
    }

    /// Read the primary status register once. One status poll goes on the
    /// wire; the returned flags are whatever byte the chip answered with.
    pub fn read_status(&mut self) -> (r: Result<StatusRes, FlashError>)
        ensures
            final(self).drive.log() == old(self).drive.log().push(status_poll_frame()),
            final(self).drive.results() == old(self).drive.results().push(r is Ok),
            writes_extended(old(self).drive.log(), final(self).drive.log(), Seq::empty()),
            final(self).poll_limit == old(self).poll_limit,
            r matches Err(e) ==> e matches FlashError::Transport(_),
    {
        let mut buf: Vec<u8> = Vec::new();
        buf.push(SpiFlashCmd::ReadStatus.code());
        buf.push(0x00);
        assert(buf@ =~= status_poll_frame());

        match self.drive.transfer(&mut buf) {
            Err(_) => {
                assert(command_writes(self.drive.log())
                    =~= command_writes(old(self).drive.log()) + Seq::<Seq<u8>>::empty());
                Err(FlashError::Transport("transfer fail"))
            },
            Ok(()) => {
                assert(command_writes(self.drive.log())
                    =~= command_writes(old(self).drive.log()) + Seq::<Seq<u8>>::empty());
                Ok(StatusRes::from(buf[1]))
            },
        }
    }

    /// Poll the status register until the chip reports not busy, at most
    /// `poll_limit` times, and return the first status whose busy flag is
    /// clear. Exactly `k` status polls go on the wire, all successful but
    /// possibly the last: at least one on success, the full `poll_limit` of
    /// them before a timeout is reported, and on a transport error the
    /// failing poll is the last exchange issued.
    pub fn wait_not_busy(&mut self) -> (r: Result<StatusRes, FlashError>)
        ensures
            writes_extended(old(self).drive.log(), final(self).drive.log(), Seq::empty()),
            final(self).poll_limit == old(self).poll_limit,
            r matches Ok(s) ==> !s.busy,
            r matches Err(e) ==> e matches FlashError::Transport(_) || e == FlashError::Timeout,
            r matches Err(FlashError::Transport(_)) ==> final(self).drive.results().len() > 0
                && final(self).drive.results().last() == false,
            r matches Err(FlashError::Timeout) ==> ends_with_full_poll_budget(
                final(self).drive.log(),
                old(self).poll_limit,
            ),
            exists|k: int|
                #![trigger poll_frames(k)]
                {
                    &&& 0 <= k <= old(self).poll_limit
                    &&& final(self).drive.log() == old(self).drive.log() + poll_frames(k)
                    &&& (r is Ok ==> 1 <= k)
                    &&& (r matches Err(FlashError::Transport(_)) ==> 1 <= k)
                    &&& (r matches Err(FlashError::Timeout) ==> k == old(self).poll_limit)
                    &&& final(self).drive.results() == old(self).drive.results() + (
                    if r matches Err(FlashError::Transport(_)) {
                        ok_results(k - 1).push(false)
                    } else {
                        ok_results(k)
                    })
                },
    {
        let ghost entry_log = self.drive.log();
        let ghost entry_results = self.drive.results();
        let limit = self.poll_limit;
        let mut polls: u64 = 0;
        while polls < limit
            invariant
                entry_log == old(self).drive.log(),
                entry_results == old(self).drive.results(),
                polls <= limit,
                limit == old(self).poll_limit,
                self.poll_limit == old(self).poll_limit,
                self.drive.log() == entry_log + poll_frames(polls as int),
                self.drive.results() == entry_results + ok_results(polls as int),
                command_writes(self.drive.log()) == command_writes(entry_log),
            decreases limit - polls,
        {
            let status = match self.read_status() {
                Err(e) => {
                    proof {
                        assert(command_writes(self.drive.log())
                            =~= command_writes(old(self).drive.log()) + Seq::<Seq<u8>>::empty());
                        assert(self.drive.log() =~= entry_log + poll_frames(polls as int + 1));
                        assert(self.drive.results() =~= entry_results + ok_results(
                            polls as int,
                        ).push(false));
                        assert(ok_results(polls as int + 1 - 1) =~= ok_results(polls as int));
                    }
                    return Err(e);
                },
                Ok(s) => s,
            };

            if !status.busy {
                proof {
                    assert(command_writes(self.drive.log())
                        =~= command_writes(old(self).drive.log()) + Seq::<Seq<u8>>::empty());
                    assert(self.drive.log() =~= entry_log + poll_frames(polls as int + 1));
                    assert(self.drive.results() =~= entry_results + ok_results(polls as int + 1));
                }
                return Ok(status);
            }

            proof {
                assert(self.drive.log() =~= entry_log + poll_frames(polls as int + 1));
                assert(self.drive.results() =~= entry_results + ok_results(polls as int + 1));
            }
            polls = polls + 1;
        }

        proof {
            assert(command_writes(self.drive.log())
                =~= command_writes(old(self).drive.log()) + Seq::<Seq<u8>>::empty());
            assert(self.drive.log().skip(self.drive.log().len() - limit as int) =~= poll_frames(
                limit as int,
            ));
        }
        Err(FlashError::Timeout)
    }

    /// Erase the whole chip to all-ones: wait until not busy, write-enable,
    /// chip-erase, then wait for completion. On success the wire saw, in
    /// order: at least one status poll ending not-busy, the write-enable and
    /// chip-erase frames, then at least one more status poll ending
    /// not-busy, every exchange successful. On failure a prefix of the
    /// write-enable and chip-erase frames was commanded, and a transport
    /// error comes from the last exchange issued.
    pub fn erase_full(&mut self) -> (r: Result<(), FlashError>)
        ensures
            final(self).poll_limit == old(self).poll_limit,
            r is Ok ==> writes_extended(
                old(self).drive.log(),
                final(self).drive.log(),
                seq![write_enable_frame(), chip_erase_frame()],
            ),
            r is Ok ==> exists|k1: int, k2: int|
                #![trigger poll_frames(k1), poll_frames(k2)]
                {
                    &&& 1 <= k1 <= old(self).poll_limit
                    &&& 1 <= k2 <= old(self).poll_limit
                    &&& final(self).drive.log() == old(self).drive.log() + poll_frames(k1) + seq![
                        write_enable_frame(),
                        chip_erase_frame(),
                    ] + poll_frames(k2)
                    &&& final(self).drive.results() == old(self).drive.results() + ok_results(k1)
                        + seq![true, true] + ok_results(k2)
                },
            r is Err ==> {
                ||| writes_extended(old(self).drive.log(), final(self).drive.log(), Seq::empty())
                ||| writes_extended(old(self).drive.log(), final(self).drive.log(), seq![write_enable_frame()])
                ||| writes_extended(
                    old(self).drive.log(),
                    final(self).drive.log(),
                    seq![write_enable_frame(), chip_erase_frame()],
                )
            },
            r matches Err(FlashError::Transport(_)) ==> final(self).drive.results().len() > 0
                && final(self).drive.results().last() == false,
            r matches Err(FlashError::Timeout) ==> ends_with_full_poll_budget(
                final(self).drive.log(),
                old(self).poll_limit,
            ),
    {
        let ghost entry_log = self.drive.log();
        let ghost entry_results = self.drive.results();

        let w1 = self.wait_not_busy();
        if let Err(e) = w1 {
            assert(writes_extended(entry_log, self.drive.log(), Seq::empty()));
            return Err(e);
        }
        let ghost k1 = choose|k: int|
            #![trigger poll_frames(k)]
            {
                &&& 1 <= k <= self.poll_limit
                &&& self.drive.log() == entry_log + poll_frames(k)
                &&& self.drive.results() == entry_results + ok_results(k)
            };

        let mut buf: Vec<u8> = Vec::new();
        buf.push(SpiFlashCmd::WriteEnable.code());
        assert(buf@ =~= write_enable_frame());
        let we_failed = self.drive.transfer(&mut buf).is_err();
        proof {
            assert(write_enable_frame() != status_poll_frame());
            assert(command_writes(self.drive.log())
                =~= command_writes(entry_log) + seq![write_enable_frame()]);
        }
        if we_failed {
            return Err(FlashError::Transport("transfer fail"));
        }

        let mut buf: Vec<u8> = Vec::new();
        buf.push(SpiFlashCmd::ChipErase.code());
        assert(buf@ =~= chip_erase_frame());
        let ce_failed = self.drive.transfer(&mut buf).is_err();
        proof {
            assert(chip_erase_frame() != status_poll_frame());
            assert(command_writes(self.drive.log())
                =~= command_writes(entry_log) + seq![write_enable_frame(), chip_erase_frame()]);
        }
        if ce_failed {
            return Err(FlashError::Transport("transfer fail"));
        }

        let ghost mid_log = self.drive.log();
        let ghost mid_results = self.drive.results();
        proof {
            assert(mid_log =~= entry_log + poll_frames(k1) + seq![
                write_enable_frame(),
                chip_erase_frame(),
            ]);
            assert(mid_results =~= entry_results + ok_results(k1) + seq![true, true]);
        }

        let w2 = self.wait_not_busy();
        match w2 {
            Err(e) => Err(e),
            Ok(_) => {
                proof {
                    let k2 = choose|k: int|
                        #![trigger poll_frames(k)]
                        {
                            &&& 1 <= k <= self.poll_limit
                            &&& self.drive.log() == mid_log + poll_frames(k)
                            &&& self.drive.results() == mid_results + ok_results(k)
                        };
                    assert(self.drive.log() =~= entry_log + poll_frames(k1) + seq![
                        write_enable_frame(),
                        chip_erase_frame(),
                    ] + poll_frames(k2));
                    assert(self.drive.results() =~= entry_results + ok_results(k1) + seq![
                        true,
                        true,
                    ] + ok_results(k2));
                }
                Ok(())
            },
        }
    }

    /// Program `buf` into the chip starting at `addr`, 256 bytes per page,
    /// reporting each programmed page to `cbk` and a final `Finish` event
    /// after the last page. A `false` reply from the sink aborts the loop at
    /// once: no frame for any later page is commanded (the abort still returns
    /// `Ok`, as the write itself did not fail).
    ///
    /// On success the commanded frames are exactly a write-enable plus
    /// page-program frame per reported page; on a transport or timeout error
    /// they are those of the fully programmed pages, plus at most the frames
    /// of the page in flight.
    pub fn write_with_callback<S: WriteEventSink<T>>(
        &mut self,
        cbk: &mut S,
        addr: u32,
        buf: &Vec<u8>,
    ) -> (r: Result<(), FlashError>)
        requires
            addr as int + buf@.len() <= 0x1_0000_0000,
        ensures
            final(self).poll_limit == old(self).poll_limit,
            r is Ok ==> exists|n: int|
                0 <= n <= n_blocks(buf@.len() as int) && #[trigger] completed_write(
                    old(self).drive.log(),
                    final(self).drive.log(),
                    old(cbk).events(),
                    final(cbk).events(),
                    old(cbk).verdicts(),
                    final(cbk).verdicts(),
                    addr,
                    buf@,
                    n,
                ),
            r is Err ==> exists|n: int|
                0 <= n <= n_blocks(buf@.len() as int) && final(cbk).events() == old(cbk).events()
                    + block_events(buf@.len() as int, n) && #[trigger] partial_write_frames(
                    old(self).drive.log(),
                    final(self).drive.log(),
                    addr,
                    buf@,
                    n,
                ),
            r matches Err(FlashError::Transport(_)) ==> final(self).drive.results().len() > 0
                && final(self).drive.results().last() == false,
            r matches Err(FlashError::Timeout) ==> ends_with_full_poll_budget(
                final(self).drive.log(),
                old(self).poll_limit,
            ),
            r is Ok ==> exists|k0: int, w: Seq<(int, Seq<Seq<u8>>)>, tail: Seq<Seq<u8>>|
                #![trigger poll_frames(k0), paged_log_of(addr, buf@, w), passive_run(tail)]
                {
                    &&& 1 <= k0 <= old(self).poll_limit
                    &&& w.len() <= n_blocks(buf@.len() as int)
                    &&& pages_witness_ok(w)
                    &&& passive_run(tail)
                    &&& final(self).drive.log() == old(self).drive.log() + poll_frames(k0)
                        + paged_log_of(addr, buf@, w) + tail
                },
    {
        let ghost entry_log = self.drive.log();
        let ghost entry_events = cbk.events();
        let ghost entry_verdicts = cbk.verdicts();
        let len = buf.len();
        let ghost len_i = buf@.len() as int;
        let ghost nb = n_blocks(len_i);

        if let Err(e) = self.wait_not_busy() {
            proof {
                assert(command_writes(self.drive.log())
                    =~= command_writes(entry_log) + program_frames(addr, buf@, 0));
                assert(block_events(len_i, 0) =~= Seq::<WriteEvent>::empty());
                assert(cbk.events() =~= entry_events + block_events(len_i, 0));
                assert(partial_write_frames(entry_log, self.drive.log(), addr, buf@, 0));
            }
            return Err(e);
        }
        let ghost k0 = choose|kk: int|
            #![trigger poll_frames(kk)]
            {
                &&& 1 <= kk <= self.poll_limit
                &&& self.drive.log() == entry_log + poll_frames(kk)
            };
        let ghost base_log = self.drive.log();
        let ghost mut w: Seq<(int, Seq<Seq<u8>>)> = Seq::empty();
        proof {
            assert(self.drive.log() =~= base_log + paged_log_of(addr, buf@, w));
        }

        let mut i: usize = 0;
        let ghost mut k: int = 0;
        while i < len
            invariant
                len == buf@.len(),
                addr as int + buf@.len() <= 0x1_0000_0000,
                0 <= k <= n_blocks(buf@.len() as int),
                i as int == if 256 * k <= buf@.len() as int {
                    256 * k
                } else {
                    buf@.len() as int
                },
                entry_log == old(self).drive.log(),
                entry_events == old(cbk).events(),
                entry_verdicts == old(cbk).verdicts(),
                self.poll_limit == old(self).poll_limit,
                1 <= k0 <= old(self).poll_limit,
                base_log == entry_log + poll_frames(k0),
                w.len() == k,
                pages_witness_ok(w),
                self.drive.log() == base_log + paged_log_of(addr, buf@, w),
                writes_extended(entry_log, self.drive.log(), program_frames(addr, buf@, k)),
                cbk.events() == entry_events + block_events(buf@.len() as int, k),
                cbk.verdicts().len() == entry_verdicts.len() + k,
                entry_verdicts.is_prefix_of(cbk.verdicts()),
                forall|j: int|
                    entry_verdicts.len() <= j < cbk.verdicts().len() ==> #[trigger] cbk.verdicts()[j]
                        == true,
            decreases len - i,
        {
            proof {
                assert(i as int == 256 * k);
                assert(k < n_blocks(buf@.len() as int));
            }

            let mut wbuf: Vec<u8> = Vec::new();
            wbuf.push(SpiFlashCmd::WriteEnable.code());
            assert(wbuf@ =~= write_enable_frame());
            if self.drive.transfer(&mut wbuf).is_err() {
                proof {
                    assert(command_writes(self.drive.log()) =~= command_writes(entry_log) + (
                    program_frames(addr, buf@, k) + seq![write_enable_frame()]));
                    assert(partial_write_frames(entry_log, self.drive.log(), addr, buf@, k));
                }
                return Err(FlashError::Transport("transfer fail"));
            }

            let chunk = if len - i >= 256 {
                256
            } else {
                len - i
            };
            let a = addr + i as u32;
            proof {
                assert(a == block_addr(addr, k));
                assert(chunk as int == block_len(buf@.len() as int, k));
            }

            let mut pbuf: Vec<u8> = Vec::new();
            pbuf.push(SpiFlashCmd::PageProgram.code());
            pbuf.push(#[verifier::truncate] ((a >> 16) as u8));
            pbuf.push(#[verifier::truncate] ((a >> 8) as u8));
            pbuf.push(#[verifier::truncate] (a as u8));
            let ghost header = pbuf@;
            let mut j: usize = 0;
            while j < chunk
                invariant
                    j <= chunk,
                    i + chunk <= buf@.len(),
                    i + chunk <= usize::MAX,
                    pbuf@ == header + buf@.subrange(i as int, i as int + j as int),
                    header.len() == 4,
                decreases chunk - j,
            {
                let b = buf[i + j];
                pbuf.push(b);
                proof {
                    assert(pbuf@ =~= header + buf@.subrange(i as int, i as int + j as int + 1));
                }
                j = j + 1;
            }
            proof {
                assert(pbuf@ =~= crate::protocol::page_program_frame(a, page_payload(buf@, k)));
                assert(pbuf@ != status_poll_frame());
            }

            let program_failed = self.drive.transfer(&mut pbuf).is_err();
            proof {
                assert(program_frames(addr, buf@, k + 1) =~= program_frames(addr, buf@, k)
                    + seq![
                    write_enable_frame(),
                    crate::protocol::page_program_frame(block_addr(addr, k), page_payload(buf@, k)),
                ]);
                assert(command_writes(self.drive.log())
                    =~= command_writes(entry_log) + program_frames(addr, buf@, k + 1));
                assert(partial_write_frames(entry_log, self.drive.log(), addr, buf@, k));
            }
            if program_failed {
                return Err(FlashError::Transport("transfer fail"));
            }

            let ghost pre_wait_log = self.drive.log();
            if let Err(e) = self.wait_not_busy() {
                proof {
                    assert(partial_write_frames(entry_log, self.drive.log(), addr, buf@, k));
                }
                return Err(e);
            }
            let ghost ki = choose|kk: int|
                #![trigger poll_frames(kk)]
                {
                    &&& 1 <= kk <= self.poll_limit
                    &&& self.drive.log() == pre_wait_log + poll_frames(kk)
                };

            let ghost pre_cbk_log = self.drive.log();
            let ghost pre_cbk_verdicts = cbk.verdicts();
            let cont = cbk.on_event(&mut self.drive, WriteEvent::Block(i, chunk));
            proof {
                assert(entry_verdicts.is_prefix_of(cbk.verdicts())) by {
                    assert(cbk.verdicts().subrange(0, entry_verdicts.len() as int)
                        =~= pre_cbk_verdicts.subrange(0, entry_verdicts.len() as int));
                }
                assert(WriteEvent::Block(i, chunk) == block_event(buf@.len() as int, k));
                assert(block_events(buf@.len() as int, k + 1)
                    =~= block_events(buf@.len() as int, k).push(block_event(buf@.len() as int, k)));
                assert(cbk.events() =~= entry_events + block_events(buf@.len() as int, k + 1));

                let tail = self.drive.log().skip(pre_cbk_log.len() as int);
                assert(self.drive.log() =~= pre_cbk_log + tail);
                assert(passive_run(tail));
                let w2 = w.push((ki, tail));
                assert(w2.drop_last() =~= w);
                assert(w2.last() == (ki, tail));
                assert(paged_log_of(addr, buf@, w2) =~= paged_log_of(addr, buf@, w) + seq![
                    write_enable_frame(),
                    crate::protocol::page_program_frame(block_addr(addr, k), page_payload(buf@, k)),
                ] + poll_frames(ki) + tail);
                assert(self.drive.log() =~= base_log + paged_log_of(addr, buf@, w2));
                assert(pages_witness_ok(w2));
                w = w2;
            }
            if !cont {
                proof {
                    assert(cbk.verdicts().last() == false);
                    assert(completed_write(
                        entry_log,
                        self.drive.log(),
                        entry_events,
                        cbk.events(),
                        entry_verdicts,
                        cbk.verdicts(),
                        addr,
                        buf@,
                        k + 1,
                    ));
                    assert(passive_run(Seq::<Seq<u8>>::empty()));
                    assert(self.drive.log() =~= entry_log + poll_frames(k0) + paged_log_of(
                        addr,
                        buf@,
                        w,
                    ) + Seq::<Seq<u8>>::empty());
                }
                return Ok(());
            }

            i = i + chunk;
            proof {
                k = k + 1;
            }
        }

        proof {
            assert(k == n_blocks(buf@.len() as int));
        }
        let ghost pre_fin_log = self.drive.log();
        let ghost pre_fin_verdicts = cbk.verdicts();
        let _ = cbk.on_event(&mut self.drive, WriteEvent::Finish(len));
        proof {
            assert(cbk.events() =~= entry_events + block_events(buf@.len() as int, nb).push(
                WriteEvent::Finish(buf@.len() as usize),
            ));
            assert(entry_verdicts.is_prefix_of(cbk.verdicts())) by {
                assert(cbk.verdicts().subrange(0, entry_verdicts.len() as int)
                    =~= pre_fin_verdicts.subrange(0, entry_verdicts.len() as int));
            }
            assert(completed_write(
                entry_log,
                self.drive.log(),
                entry_events,
                cbk.events(),
                entry_verdicts,
                cbk.verdicts(),
                addr,
                buf@,
                nb,
            ));
            let fin_tail = self.drive.log().skip(pre_fin_log.len() as int);
            assert(self.drive.log() =~= pre_fin_log + fin_tail);
            assert(passive_run(fin_tail));
            assert(self.drive.log() =~= entry_log + poll_frames(k0) + paged_log_of(addr, buf@, w)
                + fin_tail);
        }
        Ok(())
    }

    /// Program `buf` into the chip starting at `addr` without progress
    /// reporting: every page is written, none is skipped.
    pub fn write(&mut self, addr: u32, buf: &Vec<u8>) -> (r: Result<(), FlashError>)
        requires
            addr as int + buf@.len() <= 0x1_0000_0000,
        ensures
            final(self).poll_limit == old(self).poll_limit,
            r is Ok ==> writes_extended(
                old(self).drive.log(),
                final(self).drive.log(),
                program_frames(addr, buf@, n_blocks(buf@.len() as int)),
            ),
            r is Err ==> exists|n: int|
                0 <= n <= n_blocks(buf@.len() as int) && #[trigger] partial_write_frames(
                    old(self).drive.log(),
                    final(self).drive.log(),
                    addr,
                    buf@,
                    n,
                ),
            r matches Err(FlashError::Transport(_)) ==> final(self).drive.results().len() > 0
                && final(self).drive.results().last() == false,
            r matches Err(FlashError::Timeout) ==> ends_with_full_poll_budget(
                final(self).drive.log(),
                old(self).poll_limit,
            ),
    {
        let mut sink = AlwaysContinue::new();
        proof {
            assert(<AlwaysContinue as WriteEventSink<T>>::verdicts(&sink) =~= Seq::<
                bool,
            >::empty());
        }
        let r = self.write_with_callback(&mut sink, addr, buf);
        proof {
            if r is Ok {
                let n = choose|n: int|
                    0 <= n <= n_blocks(buf@.len() as int) && #[trigger] completed_write(
                        old(self).drive.log(),
                        self.drive.log(),
                        Seq::<WriteEvent>::empty(),
                        sink.history@,
                        Seq::<bool>::empty(),
                        <AlwaysContinue as WriteEventSink<T>>::verdicts(&sink),
                        addr,
                        buf@,
                        n,
                    );
                assert(n == n_blocks(buf@.len() as int));
            }
        }
        r
    }

    /// Read `buf.len()` bytes starting at `addr`: the four-byte read header is
    /// placed in the front of `buf`, the device then overwrites the buffer
    /// with the data it returns. The read only observes the chip; no
    /// state-changing frame is commanded.
    pub fn read(&mut self, addr: u32, buf: &mut Vec<u8>) -> (r: Result<(), FlashError>)
        requires
            4 <= old(buf)@.len(),
            old(buf)@.len() <= u32::MAX,
        ensures
            final(self).poll_limit == old(self).poll_limit,
            final(self).drive.log() == old(self).drive.log().push(read_data_frame(addr)),
            final(self).drive.results() == old(self).drive.results().push(r is Ok),
            writes_extended(old(self).drive.log(), final(self).drive.log(), Seq::empty()),
            final(buf)@.len() == old(buf)@.len(),
            r matches Err(e) ==> e matches FlashError::Transport(_),
    {
        read_from_drive(&mut self.drive, addr, buf)
    }
}

/// Read `buf.len()` bytes starting at `addr` through a bare transport: the
/// read-data header goes into the front of `buf` and the device overwrites
/// the buffer with its reply. This is what a write-verification callback
/// uses while the engine has lent it the transport.
pub fn read_from_drive<T: SpiDrive>(drive: &mut T, addr: u32, buf: &mut Vec<u8>) -> (r: Result<
    (),
    FlashError,
>)
    requires
        4 <= old(buf)@.len(),
        old(buf)@.len() <= u32::MAX,
    ensures
        final(drive).log() == old(drive).log().push(read_data_frame(addr)),
        final(drive).results() == old(drive).results().push(r is Ok),
        writes_extended(old(drive).log(), final(drive).log(), Seq::empty()),
        final(buf)@.len() == old(buf)@.len(),
        r matches Err(e) ==> e matches FlashError::Transport(_),
{
    let ghost entry_log = drive.log();

    buf[0] = SpiFlashCmd::ReadData.code();
    buf[1] = #[verifier::truncate] ((addr >> 16) as u8);
    buf[2] = #[verifier::truncate] ((addr >> 8) as u8);
    buf[3] = #[verifier::truncate] (addr as u8);
    assert(buf@.take(4) =~= read_data_frame(addr));

    let read_len = buf.len() as u32;
    let r = drive.write_after_read(4, read_len, buf);
    proof {
        assert(crate::protocol::passive_frame(read_data_frame(addr)));
        assert(command_writes(drive.log()) =~= command_writes(entry_log) + Seq::<Seq<u8>>::empty());
    }

    match r {
        Err(_) => Err(FlashError::Transport("transfer fail")),
        Ok(()) => Ok(()),
    }
}

} // verus!
