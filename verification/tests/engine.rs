//! Tests for the flash engine against a simulated chip behind the
//! byte-exchange transport.

use ch347_rs::drive::RawSpiTransport;
use ch347_rs::drive::TrackedDrive;
use ch347_rs::flash::SpiFlash;
use ch347_rs::model::VendorKind;
use ch347_rs::protocol::StatusRes;
use ch347_rs::verify::ProgressListener;
use ch347_rs::verify::SilentProgress;
use ch347_rs::verify::WriteVerifier;

/// A simulated SPI NOR flash chip: a memory array, a status byte, and a
/// JEDEC identity, driven by the same wire commands as the real thing. It
/// records every frame it is asked to write.
struct SimChip {
    memory: Vec<u8>,
    status: u8,
    jedec: [u8; 3],
    uid: Vec<u8>,
    frames: Vec<Vec<u8>>,
    program_count: usize,
    reg_writes: Vec<(u8, u8)>,
    corrupt_at: Option<usize>,
}

impl SimChip {
    fn new(capacity: usize, jedec: [u8; 3]) -> SimChip {
        SimChip {
            memory: vec![0u8; capacity],
            status: 0,
            jedec,
            uid: vec![0xA5; 8],
            frames: Vec::new(),
            program_count: 0,
            reg_writes: Vec::new(),
            corrupt_at: None,
        }
    }

    fn flash(self) -> SpiFlash<TrackedDrive<SimChip>> {
        SpiFlash::new(TrackedDrive::new(self))
    }

    fn addr_of(frame: &[u8]) -> usize {
        ((frame[1] as usize) << 16) | ((frame[2] as usize) << 8) | frame[3] as usize
    }
}

impl RawSpiTransport for SimChip {
    fn transfer(&mut self, iobuf: &mut Vec<u8>) -> Result<(), &'static str> {
        self.frames.push(iobuf.clone());
        match iobuf[0] {
            0x9F => {
                for k in 0..3 {
                    if 1 + k < iobuf.len() {
                        iobuf[1 + k] = self.jedec[k];
                    }
                }
            }
            0x05 => {
                if iobuf.len() > 1 {
                    iobuf[1] = self.status;
                }
            }
            0x06 => {
                self.status |= 0x02;
            }
            0x04 => {
                self.status &= !0x02;
            }
            0xC7 => {
                if self.status & 0x02 != 0 {
                    for b in self.memory.iter_mut() {
                        *b = 0xFF;
                    }
                }
            }
            0x02 => {
                self.program_count += 1;
                let addr = SimChip::addr_of(iobuf);
                for (k, d) in iobuf[4..].iter().enumerate() {
                    self.memory[addr + k] = if self.corrupt_at == Some(addr + k) {
                        !*d
                    } else {
                        *d
                    };
                }
            }
            0x4B => {
                for k in 0..iobuf.len().saturating_sub(5) {
                    iobuf[5 + k] = self.uid[k % self.uid.len()];
                }
            }
            0x01 | 0x31 | 0x11 | 0xC5 => {
                self.reg_writes.push((iobuf[0], iobuf[1]));
            }
            _ => {}
        }
        Ok(())
    }

    fn write_after_read(
        &mut self,
        write_len: u32,
        read_len: u32,
        iobuf: &mut Vec<u8>,
    ) -> Result<(), &'static str> {
        self.frames.push(iobuf[..write_len as usize].to_vec());
        if iobuf[0] == 0x03 {
            let addr = SimChip::addr_of(iobuf);
            for k in 0..read_len as usize {
                iobuf[k] = self.memory[addr + k];
            }
        }
        Ok(())
    }
}

/// A listener that records the reported progress events.
#[derive(Default)]
struct RecordListener {
    blocks: Vec<(usize, usize)>,
    finishes: Vec<usize>,
}

impl ProgressListener for RecordListener {
    fn block_written(&mut self, offset: usize, length: usize) {
        self.blocks.push((offset, length));
    }

    fn finished(&mut self, total: usize) {
        self.finishes.push(total);
    }
}

#[test]
fn detect_simulated_w25q32() {
    let mut flash = SimChip::new(64, [0xEF, 0x40, 0x16]).flash();
    let chip = flash.detect().unwrap();
    assert_eq!(chip.name, "W25Q32");
    assert_eq!(chip.capacity.byte_count(), 4194304);
    assert_eq!(chip.capacity.display_str(), "4 MB");
    assert_eq!(chip.vendor.kind, VendorKind::Winbond);
}

#[test]
fn detect_unknown_manufacturer() {
    let mut flash = SimChip::new(64, [0x77, 0x40, 0x16]).flash();
    match flash.detect() {
        Err(ch347_rs::flash::DetectErr::UnknownManufacturer(id)) => assert_eq!(id, 0x77),
        other => panic!("unexpected: {:?}", other),
    }
}

#[test]
fn detect_unrecognized_chip() {
    let mut flash = SimChip::new(64, [0xEF, 0x40, 0x1B]).flash();
    match flash.detect() {
        Err(ch347_rs::flash::DetectErr::UnrecognizedChip(id)) => assert_eq!(id, 0xEF),
        other => panic!("unexpected: {:?}", other),
    }
}

#[test]
fn read_status_parses_busy_and_wel() {
    let mut flash = SimChip::new(16, [0xEF, 0x40, 0x15]).flash();
    flash.drive.raw.status = 0b0000_0011;
    let s = flash.read_status().unwrap();
    assert!(s.busy);
    assert!(s.write_enable);

    let direct = StatusRes::from(0b0000_0011);
    assert!(direct.busy);
    assert!(direct.write_enable);
    let direct = StatusRes::from(0b0000_0010);
    assert!(!direct.busy);
    assert!(direct.write_enable);
}

#[test]
fn erase_full_then_read_all_ones() {
    let capacity = 64 * 1024;
    let mut flash = SimChip::new(capacity, [0xEF, 0x40, 0x10]).flash();
    for (i, b) in flash.drive.raw.memory.iter_mut().enumerate() {
        *b = (i % 251) as u8;
    }
    flash.erase_full().unwrap();

    let mut buf = vec![0u8; capacity];
    flash.read(0, &mut buf).unwrap();
    assert!(buf.iter().all(|&b| b == 0xFF));
}

#[test]
fn write_events_partition_data() {
    let mut flash = SimChip::new(64 * 1024, [0xEF, 0x40, 0x10]).flash();
    let data: Vec<u8> = (0..700u32).map(|i| (i % 256) as u8).collect();
    let mut sink = WriteVerifier::new(&data, 0x100, false, RecordListener::default());
    flash.write_with_callback(&mut sink, 0x100, &data).unwrap();

    assert_eq!(
        sink.listener.blocks,
        vec![(0, 256), (256, 256), (512, 188)]
    );
    assert_eq!(sink.listener.finishes, vec![700]);
    assert!(sink.failed_at.is_none());

    // ceil(L / 256) blocks, tiling [0, L) without gaps.
    let l = 700usize;
    assert_eq!(sink.listener.blocks.len(), (l + 255) / 256);
    let mut next = 0usize;
    for (o, n) in &sink.listener.blocks {
        assert_eq!(*o, next);
        next = o + n;
    }
    assert_eq!(next, l);

    // The data actually landed at the target address.
    let mut rbuf = vec![0u8; 700 + 4];
    flash.read(0x100, &mut rbuf).unwrap();
    assert_eq!(&rbuf[..700], &data[..]);
}

#[test]
fn write_verify_mismatch_stops_programming() {
    let mut flash = SimChip::new(64 * 1024, [0xEF, 0x40, 0x10]).flash();
    for b in flash.drive.raw.memory.iter_mut() {
        *b = 0xFF;
    }
    // The chip corrupts the byte at address 100, so the read-back of the
    // first 4096-byte block must fail and the write must stop there.
    flash.drive.raw.corrupt_at = Some(100);
    let data = vec![0x5Au8; 8192];
    let mut sink = WriteVerifier::new(&data, 0, true, RecordListener::default());
    flash.write_with_callback(&mut sink, 0, &data).unwrap();

    assert_eq!(sink.failed_at, Some(100));
    // The first verification runs after the 16th page completes the first
    // 4096-byte block; nothing is programmed past that point.
    assert_eq!(sink.listener.blocks.len(), 16);
    assert_eq!(sink.listener.finishes, Vec::<usize>::new());
    assert_eq!(flash.drive.raw.program_count, 16);
    assert!(flash.drive.raw.memory[4096..8192].iter().all(|&b| b == 0xFF));
}

#[test]
fn plain_write_round_trip() {
    let mut flash = SimChip::new(4096, [0xEF, 0x40, 0x10]).flash();
    let data: Vec<u8> = (0..300u32).map(|i| (i * 7 % 256) as u8).collect();
    flash.write(16, &data).unwrap();

    let mut rbuf = vec![0u8; 300];
    flash.read(16, &mut rbuf).unwrap();
    assert_eq!(rbuf, data);
}

#[test]
fn wait_not_busy_times_out() {
    let mut flash = SimChip::new(16, [0xEF, 0x40, 0x10]).flash();
    flash.drive.raw.status = 0x01;
    flash.set_poll_limit(10);
    match flash.wait_not_busy() {
        Err(ch347_rs::flash::FlashError::Timeout) => {}
        other => panic!("unexpected: {:?}", other),
    }
}

#[test]
fn read_uuid_through_vendor_table() {
    let mut flash = SimChip::new(16, [0xEF, 0x40, 0x16]).flash();
    let vendor = ch347_rs::model::vendor_of(VendorKind::Winbond);
    let uid = flash.read_uuid(&vendor).unwrap();
    assert_eq!(uid.len(), 8);
    assert!(uid.iter().all(|&b| b == 0xA5));

    let macronix = ch347_rs::model::vendor_of(VendorKind::Macronix);
    assert!(flash.read_uuid(&macronix).is_err());
}

#[test]
fn register_write_sequence_on_wire() {
    let mut flash = SimChip::new(16, [0xEF, 0x40, 0x16]).flash();
    let regs = ch347_rs::model::winbond::register_defines();
    let status_1 = &regs[0];

    status_1.write(&mut flash, 0x42).unwrap();
    assert_eq!(flash.drive.raw.reg_writes, vec![(0x01, 0x42)]);

    // The wire saw write-enable, the write frame, then write-disable, with
    // only status polls in between.
    let non_poll: Vec<Vec<u8>> = flash
        .drive
        .raw
        .frames
        .iter()
        .filter(|f| f.as_slice() != [0x05, 0x00])
        .cloned()
        .collect();
    assert_eq!(non_poll, vec![vec![0x06], vec![0x01, 0x42], vec![0x04]]);

    // A register without a writer is rejected before any exchange.
    let uid_reg = &regs[3];
    let frames_before = flash.drive.raw.frames.len();
    assert!(matches!(
        uid_reg.write(&mut flash, 1),
        Err(ch347_rs::registers::RegWriteError::NotWritable)
    ));
    assert_eq!(flash.drive.raw.frames.len(), frames_before);
}

#[test]
fn register_read_shapes() {
    let mut flash = SimChip::new(16, [0xEF, 0x40, 0x16]).flash();
    flash.drive.raw.status = 0x03;
    let regs = ch347_rs::model::winbond::register_defines();

    match regs[0].read(&mut flash).unwrap() {
        ch347_rs::registers::RegReadRet::One(v) => assert_eq!(v, 0x03),
        other => panic!("unexpected: {:?}", other),
    }

    match regs[3].read(&mut flash).unwrap() {
        ch347_rs::registers::RegReadRet::Multi(v) => assert_eq!(v.len(), 8),
        other => panic!("unexpected: {:?}", other),
    }
}

#[test]
fn write_item_injects_field_on_wire() {
    let mut flash = SimChip::new(16, [0xEF, 0x40, 0x16]).flash();
    flash.drive.raw.status = 0b1000_0000;
    let regs = ch347_rs::model::winbond::register_defines();
    let status_1 = &regs[0];

    // block_protect is the 4-bit field at bits 2..6 of status_1.
    status_1.write_item(&mut flash, 2, 0b0110).unwrap();
    assert_eq!(flash.drive.raw.reg_writes, vec![(0x01, 0b1001_1000)]);

    // The busy flag is read-only; the attempt is rejected before any
    // exchange.
    let frames_before = flash.drive.raw.frames.len();
    assert!(matches!(
        status_1.write_item(&mut flash, 0, 1),
        Err(ch347_rs::registers::RegWriteError::ReadOnlyItem)
    ));
    assert_eq!(flash.drive.raw.frames.len(), frames_before);
}

#[test]
fn write_with_verification_passes_on_clean_chip() {
    let mut flash = SimChip::new(64 * 1024, [0xEF, 0x40, 0x10]).flash();
    let data: Vec<u8> = (0..8192u32).map(|i| (i * 31 % 256) as u8).collect();
    let mut sink = WriteVerifier::new(&data, 0, true, SilentProgress {});
    flash.write_with_callback(&mut sink, 0, &data).unwrap();

    assert!(sink.failed_at.is_none());
    let mut rbuf = vec![0u8; 8192];
    flash.read(0, &mut rbuf).unwrap();
    assert_eq!(rbuf, data);
}
