//! Write verification policy: when a just-programmed page completes a
//! 4096-byte block, that block is read back and compared byte for byte
//! against the source, and the first difference aborts the write. The
//! rendering of progress is left to a listener the caller supplies.

use vstd::prelude::*;

use crate::drive::SpiDrive;
use crate::flash::read_from_drive;
use crate::flash::WriteEvent;
use crate::flash::WriteEventSink;

verus! {

/// A progress hook for long write operations. It only renders: it gets told
/// what happened and decides nothing, so implementations carry no proof
/// obligations.
pub trait ProgressListener {
    /// A page of `length` bytes at `offset` (relative to the written data)
    /// was programmed.
    fn block_written(&mut self, offset: usize, length: usize);

    /// The whole write of `total` bytes completed.
    fn finished(&mut self, total: usize);
}

/// A listener that renders nothing.
pub struct SilentProgress {}

impl ProgressListener for SilentProgress {
    fn block_written(&mut self, _offset: usize, _length: usize) {
    }

    fn finished(&mut self, _total: usize) {
    }
}

/// The granularity at which written data is read back and compared.
pub const VERIFY_BLOCK_SIZE: usize = 4096;

/// The condition under which the per-block check must read the chip: the
/// sink is checking, the page at `offset` completes a 4096-byte block, that
/// block lies inside the source, and its flash address fits 32 bits.
pub open spec fn check_due(check: bool, source_len: int, base_addr: u32, offset: int) -> bool {
    &&& check
    &&& offset + 256 <= usize::MAX
    &&& (offset + 256) % 4096 == 0
    &&& offset + 256 <= source_len
    &&& offset + 256 - 4096 <= u32::MAX - base_addr
}

/// After the 256-byte page at `offset` was programmed, should a read-back
/// check run? It should exactly when the page completes a 4096-byte block;
/// the returned value is that block's start offset.
pub fn verify_block_start(offset: usize) -> (r: Option<usize>)
    requires
        offset + 256 <= usize::MAX,
    ensures
        r is Some <==> (offset + 256) % 4096 == 0,
        r matches Some(s) ==> s + 4096 == offset + 256 && s % 4096 == 0,
{
    if (offset + 256) % 4096 != 0 {
        return None;
    }
    Some(offset + 256 - 4096)
}

/// The first index at or after `from` where `a` and `b` differ, or `None`
/// when they agree from `from` on.
pub fn mismatch_after(a: &[u8], b: &[u8], from: usize) -> (r: Option<usize>)
    requires
        a@.len() == b@.len(),
    ensures
        r is None <==> (forall|i: int| from <= i < a@.len() ==> a@[i] == b@[i]),
        r matches Some(i) ==> {
            &&& from <= i < a@.len()
            &&& a@[i as int] != b@[i as int]
            &&& forall|j: int| from <= j < i ==> a@[j] == b@[j]
        },
{
    let n = a.len();
    let mut i: usize = from;
    if i > n {
        return None;
    }
    while i < n
        invariant
            from <= i <= n,
            n == a@.len() == b@.len(),
            forall|j: int| from <= j < i ==> a@[j] == b@[j],
        decreases n - i,
    {
        if a[i] != b[i] {
            return Some(i);
        }
        i = i + 1;
    }
    None
}

/// The position of the first difference between two equally long byte
/// strings, `None` when they are equal.
pub open spec fn spec_first_diff(a: Seq<u8>, b: Seq<u8>) -> Option<int>
    decreases a.len(),
{
    if a.len() == 0 {
        None
    } else if a[0] != b[0] {
        Some(0int)
    } else {
        match spec_first_diff(a.skip(1), b.skip(1)) {
            None => None,
            Some(i) => Some(i + 1),
        }
    }
}

/// What `spec_first_diff` means, spelled out: `None` exactly when the
/// strings agree, and `Some(i)` points at the first disagreement.
pub proof fn lemma_first_diff_char(a: Seq<u8>, b: Seq<u8>)
    requires
        a.len() == b.len(),
    ensures
        spec_first_diff(a, b) is None ==> a == b,
        spec_first_diff(a, b) matches Some(i) ==> {
            &&& 0 <= i < a.len()
            &&& a[i] != b[i]
            &&& forall|j: int| 0 <= j < i ==> a[j] == b[j]
        },
    decreases a.len(),
{
    if a.len() == 0 {
        assert(a =~= b);
    } else if a[0] == b[0] {
        lemma_first_diff_char(a.skip(1), b.skip(1));
        match spec_first_diff(a.skip(1), b.skip(1)) {
            None => {
                assert(a =~= b) by {
                    assert(forall|j: int|
                        1 <= j < a.len() ==> #[trigger] a[j] == a.skip(1)[j - 1]);
                }
            },
            Some(i) => {
                assert(a.skip(1)[i] == a[i + 1]);
                assert(b.skip(1)[i] == b[i + 1]);
                assert(forall|j: int|
                    1 <= j < i + 1 ==> #[trigger] a[j] == a.skip(1)[j - 1] && b[j] == b.skip(1)[j
                        - 1]);
            },
        }
    }
}

/// The first index where `a` and `b` differ, or `None` when they are equal:
/// exactly `spec_first_diff` of the two byte strings.
pub fn first_mismatch(a: &[u8], b: &[u8]) -> (r: Option<usize>)
    requires
        a@.len() == b@.len(),
    ensures
        r is None <==> a@ == b@,
        r matches Some(i) ==> {
            &&& i < a@.len()
            &&& a@[i as int] != b@[i as int]
            &&& forall|j: int| 0 <= j < i ==> a@[j] == b@[j]
        },
        r is None <==> spec_first_diff(a@, b@) is None,
        r matches Some(i) ==> spec_first_diff(a@, b@) == Some(i as int),
{
    let r = mismatch_after(a, b, 0);
    proof {
        lemma_first_diff_char(a@, b@);
        if r is None {
            assert(a@ =~= b@);
            match spec_first_diff(a@, b@) {
                Some(i) => {
                    assert(a@[i] != b@[i]);
                    assert(false);
                },
                None => {},
            }
        } else {
            match spec_first_diff(a@, b@) {
                None => {
                    assert(a@ == b@);
                },
                Some(_) => {},
            }
        }
    }
    r
}

/// The write-progress sink behind `write_with_callback` when inline
/// verification is wanted: it reports every page to its listener and, when
/// checking is on, reads each completed 4096-byte block back through the
/// lent transport and compares it against the source, aborting the write at
/// the first difference. `failed_at` then holds the offset of that
/// difference.
pub struct WriteVerifier<'a, L: ProgressListener> {
    pub source: &'a Vec<u8>,
    pub base_addr: u32,
    pub check: bool,
    pub failed_at: Option<usize>,
    pub listener: L,
    pub history: Ghost<Seq<WriteEvent>>,
    pub replies: Ghost<Seq<bool>>,
}

impl<'a, L: ProgressListener> WriteVerifier<'a, L> {
    /// A sink verifying a write of `source` that starts at flash address
    /// `base_addr`; with `check` off it only reports progress.
    pub fn new(source: &'a Vec<u8>, base_addr: u32, check: bool, listener: L) -> (r: WriteVerifier<
        'a,
        L,
    >)
        ensures
            r.history@ == Seq::<WriteEvent>::empty(),
            r.replies@ == Seq::<bool>::empty(),
            r.failed_at is None,
            r.source == source,
            r.base_addr == base_addr,
            r.check == check,
            r.listener == listener,
    {
        WriteVerifier {
            source,
            base_addr,
            check,
            failed_at: None,
            listener,
            history: Ghost(Seq::empty()),
            replies: Ghost(Seq::empty()),
        }
    }

    /// The per-block verification decision for the just-programmed page at
    /// `offset`, made against the lent transport. With checking off, away
    /// from a 4096-byte boundary, or out of the source's range, nothing is
    /// read and the write may continue. On a boundary the completed block is
    /// read back: the write may continue exactly when no new failure was
    /// recorded, and a recorded failure is the position of the first
    /// difference between the device's reply and the source block — or the
    /// block's start, when the read-back exchange itself failed. The
    /// transport only sees passive frames.
    pub fn check_block<T: SpiDrive>(&mut self, drive: &mut T, offset: usize) -> (cont: bool)
        ensures
            final(self).source == old(self).source,
            final(self).base_addr == old(self).base_addr,
            final(self).check == old(self).check,
            final(self).listener == old(self).listener,
            final(self).history == old(self).history,
            final(self).replies == old(self).replies,
            crate::protocol::command_writes(final(drive).log())
                == crate::protocol::command_writes(old(drive).log()),
            old(drive).log().is_prefix_of(final(drive).log()),
            forall|i: int|
                old(drive).log().len() <= i < final(drive).log().len()
                    ==> crate::protocol::passive_frame(#[trigger] final(drive).log()[i]),
            cont ==> final(self).failed_at == old(self).failed_at,
            old(self).failed_at is None ==> (cont <==> final(self).failed_at is None),
            !old(self).check ==> cont,
            check_due(
                old(self).check,
                old(self).source@.len() as int,
                old(self).base_addr,
                offset as int,
            ) ==> final(drive).log() == old(drive).log().push(
                crate::protocol::read_data_frame(
                    ((old(self).base_addr as int) + (offset + 256 - 4096)) as u32,
                ),
            ),
            !check_due(
                old(self).check,
                old(self).source@.len() as int,
                old(self).base_addr,
                offset as int,
            ) ==> final(drive).log() == old(drive).log() && cont && final(self).failed_at == old(
                self,
            ).failed_at,
            final(self).failed_at != old(self).failed_at ==> ({
                let bs = offset + 256 - 4096;
                &&& old(self).check
                &&& offset + 256 <= usize::MAX
                &&& (offset + 256) % 4096 == 0
                &&& offset + 256 >= 4096
                &&& bs + 4096 <= old(self).source@.len()
                &&& {
                    ||| final(self).failed_at == Some(bs as usize)
                    ||| exists|reply: Seq<u8>|
                        #![trigger spec_first_diff(reply, old(self).source@.subrange(bs, bs + 4096))]
                        {
                            &&& reply.len() == 4096
                            &&& match spec_first_diff(
                                reply,
                                old(self).source@.subrange(bs, bs + 4096),
                            ) {
                                Some(d) => final(self).failed_at == Some((bs + d) as usize),
                                None => false,
                            }
                        }
                }
            }),
    {
        if !self.check || offset > usize::MAX - 256 {
            return true;
        }
        match verify_block_start(offset) {
            None => true,
            Some(bs) => {
                if bs + VERIFY_BLOCK_SIZE > self.source.len() || bs > (u32::MAX - self.base_addr)
                    as usize {
                    true
                } else {
                    let addr = self.base_addr + bs as u32;
                    let mut rbuf: Vec<u8> = Vec::new();
                    let mut i: usize = 0;
                    while i < VERIFY_BLOCK_SIZE
                        invariant
                            rbuf@.len() == i,
                            i <= VERIFY_BLOCK_SIZE,
                        decreases VERIFY_BLOCK_SIZE - i,
                    {
                        rbuf.push(0x00);
                        i = i + 1;
                    }
                    match read_from_drive(drive, addr, &mut rbuf) {
                        Err(_) => {
                            self.failed_at = Some(bs);
                            false
                        },
                        Ok(()) => {
                            let expected = &self.source.as_slice()[bs..bs + VERIFY_BLOCK_SIZE];
                            match first_mismatch(rbuf.as_slice(), expected) {
                                None => true,
                                Some(k) => {
                                    proof {
                                        assert(expected@ =~= self.source@.subrange(
                                            bs as int,
                                            bs as int + 4096,
                                        ));
                                    }
                                    self.failed_at = Some(bs + k);
                                    false
                                },
                            }
                        },
                    }
                }
            },
        }
    }
}

impl<'a, L: ProgressListener, T: SpiDrive> WriteEventSink<T> for WriteVerifier<'a, L> {
    open spec fn events(&self) -> Seq<WriteEvent> {
        self.history@
    }

    open spec fn verdicts(&self) -> Seq<bool> {
        self.replies@
    }

    fn on_event(&mut self, drive: &mut T, e: WriteEvent) -> (cont: bool) {
        let cont = match e {
            WriteEvent::Finish(total) => {
                self.listener.finished(total);
                true
            },
            WriteEvent::Block(offset, length) => {
                self.listener.block_written(offset, length);
                self.check_block(drive, offset)
            },
        };
        proof {
            self.history@ = self.history@.push(e);
            self.replies@ = self.replies@.push(cont);
        }
        cont
    }
}

} // verus!
