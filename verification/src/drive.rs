//! The abstract transport the flash engine is built on.
//!
//! A transport is a full-duplex byte-exchange capability: `transfer` clocks a
//! buffer out and replaces it with the reply, `write_after_read` clocks out a
//! prefix and then clocks a reply back into the same buffer. The concrete USB
//! bridge driver lives outside this library and implements [`SpiDrive`]; the
//! contract below is what every implementation owes its callers.
//!
//! For specification purposes a transport carries a ghost log of the frames it
//! has been asked to write, newest last. Nothing is assumed about the bytes a
//! device sends back: every reply is a fresh, unconstrained value.

use vstd::prelude::*;

verus! {

/// A byte-exchange transport to one SPI device.
pub trait SpiDrive: Sized {
    /// The frames written so far, oldest first. Each `transfer` appends the
    /// buffer it was handed; `write_after_read` appends the prefix it wrote.
    spec fn log(&self) -> Seq<Seq<u8>>;

    /// Whether each exchange succeeded, parallel to `log`: every exchange
    /// appends its own outcome, so an error can be traced to the exact
    /// exchange that failed.
    spec fn results(&self) -> Seq<bool>;

    /// Exchange `iobuf` with the device: the whole buffer is clocked out and
    /// the reply, of the same length, replaces it. The reply bytes are chosen
    /// by the device and are not constrained here.
    fn transfer(&mut self, iobuf: &mut Vec<u8>) -> (r: Result<(), &'static str>)
        ensures
            final(self).log() == old(self).log().push(old(iobuf)@),
            final(self).results() == old(self).results().push(r is Ok),
            final(iobuf)@.len() == old(iobuf)@.len(),
    ;

    /// Write the first `write_len` bytes of `iobuf`, then clock `read_len`
    /// bytes from the device into the front of `iobuf`.
    fn write_after_read(
        &mut self,
        write_len: u32,
        read_len: u32,
        iobuf: &mut Vec<u8>,
    ) -> (r: Result<(), &'static str>)
        requires
            write_len as int <= old(iobuf)@.len(),
            read_len as int <= old(iobuf)@.len(),
        ensures
            final(self).log() == old(self).log().push(old(iobuf)@.take(write_len as int)),
            final(self).results() == old(self).results().push(r is Ok),
            final(iobuf)@.len() == old(iobuf)@.len(),
    ;
}

/// A raw byte-exchange transport, as a concrete driver provides it: the same
/// two operations as [`SpiDrive`], with nothing assumed about them. Drivers
/// implement this; the library wraps such a transport in [`TrackedDrive`],
/// which carries the ghost log the engine's contracts are stated over.
pub trait RawSpiTransport {
    fn transfer(&mut self, iobuf: &mut Vec<u8>) -> Result<(), &'static str>;

    fn write_after_read(
        &mut self,
        write_len: u32,
        read_len: u32,
        iobuf: &mut Vec<u8>,
    ) -> Result<(), &'static str>;
}

/// A raw transport together with the ghost log of the frames handed to it.
/// This is the only [`SpiDrive`] implementation: whatever the raw driver
/// does, the log records exactly what it was asked to write, and the buffer
/// keeps its length.
pub struct TrackedDrive<R: RawSpiTransport> {
    pub raw: R,
    pub history: Ghost<Seq<Seq<u8>>>,
    pub outcomes: Ghost<Seq<bool>>,
}

impl<R: RawSpiTransport> TrackedDrive<R> {
    pub fn new(raw: R) -> (r: TrackedDrive<R>)
        ensures
            r.history@ == Seq::<Seq<u8>>::empty(),
            r.outcomes@ == Seq::<bool>::empty(),
    {
        TrackedDrive { raw, history: Ghost(Seq::empty()), outcomes: Ghost(Seq::empty()) }
    }
}

/// Bring `buf` back to exactly `n` bytes, padding with zeros.
fn restore_len(buf: &mut Vec<u8>, n: usize)
    ensures
        final(buf)@.len() == n,
{
    while buf.len() > n
        invariant
            true,
        decreases buf@.len(),
    {
        let _ = buf.pop();
    }
    while buf.len() < n
        invariant
            buf@.len() <= n,
        decreases n - buf@.len(),
    {
        buf.push(0x00);
    }
}

impl<R: RawSpiTransport> SpiDrive for TrackedDrive<R> {
    open spec fn log(&self) -> Seq<Seq<u8>> {
        self.history@
    }

    open spec fn results(&self) -> Seq<bool> {
        self.outcomes@
    }

    fn transfer(&mut self, iobuf: &mut Vec<u8>) -> (r: Result<(), &'static str>) {
        let n = iobuf.len();
        let ghost frame = iobuf@;
        let r = self.raw.transfer(iobuf);
        restore_len(iobuf, n);
        proof {
            self.history@ = self.history@.push(frame);
            self.outcomes@ = self.outcomes@.push(r is Ok);
        }
        r
    }

    fn write_after_read(
        &mut self,
        write_len: u32,
        read_len: u32,
        iobuf: &mut Vec<u8>,
    ) -> (r: Result<(), &'static str>) {
        let n = iobuf.len();
        let ghost frame = iobuf@.take(write_len as int);
        let r = self.raw.write_after_read(write_len, read_len, iobuf);
        restore_len(iobuf, n);
        proof {
            self.history@ = self.history@.push(frame);
            self.outcomes@ = self.outcomes@.push(r is Ok);
        }
        r
    }
}

/// A vendor-specific decoded status register. The engine does not support
/// building one yet; the trait is the extension point its users implement.
pub trait StatusRegister: Sized {
    fn from_drive<T: SpiDrive>(flash: &mut crate::flash::SpiFlash<T>) -> Result<
        Self,
        &'static str,
    >;
}

} // verus!
