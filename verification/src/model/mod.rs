//! The vendor registry and JEDEC decoder: a static table of known flash
//! vendors, each of which decodes a (memory-type, capacity-code) byte pair
//! into a chip descriptor.

pub mod eon_silicon;
pub mod gigadevice;
pub mod macronix;
pub mod winbond;

use vstd::prelude::*;
use vstd::string::StringExecFns;

verus! {

/// The closed set of flash vendors this library can decode chips for.
#[derive(Debug, Clone, Copy, PartialEq, Eq, Structural)]
pub enum VendorKind {
    EonSilicon,
    GigaDevice,
    Macronix,
    Winbond,
}

/// A flash vendor: its display name, its JEDEC manufacturer ID byte, and the
/// tag that selects its decode function and register table.
#[derive(Debug, Clone, Copy)]
pub struct Vendor {
    pub name: &'static str,
    pub id: u8,
    pub kind: VendorKind,
}

/// The JEDEC manufacturer ID byte of each vendor.
pub open spec fn spec_vendor_id(k: VendorKind) -> u8 {
    match k {
        VendorKind::EonSilicon => 0x1C,
        VendorKind::GigaDevice => 0xC8,
        VendorKind::Macronix => 0xC2,
        VendorKind::Winbond => 0xEF,
    }
}

/// The display name of each vendor.
pub open spec fn spec_vendor_name(k: VendorKind) -> Seq<char> {
    match k {
        VendorKind::EonSilicon => "Eon Silicon"@,
        VendorKind::GigaDevice => "GigaDevice"@,
        VendorKind::Macronix => "Macronix (MX)"@,
        VendorKind::Winbond => "Winbond (ex Nexcom) serial flashes"@,
    }
}

/// A vendor value is well formed when its ID byte and name are the ones its
/// kind prescribes.
pub open spec fn vendor_wf(v: Vendor) -> bool {
    &&& v.id == spec_vendor_id(v.kind)
    &&& v.name@ == spec_vendor_name(v.kind)
}

/// The descriptor of vendor `k`.
pub fn vendor_of(k: VendorKind) -> (v: Vendor)
    ensures
        vendor_wf(v),
        v.kind == k,
{
    match k {
        VendorKind::EonSilicon => Vendor { name: "Eon Silicon", id: 0x1C, kind: k },
        VendorKind::GigaDevice => Vendor { name: "GigaDevice", id: 0xC8, kind: k },
        VendorKind::Macronix => Vendor { name: "Macronix (MX)", id: 0xC2, kind: k },
        VendorKind::Winbond => Vendor { name: "Winbond (ex Nexcom) serial flashes", id: 0xEF, kind: k },
    }
}

/// Does this vendor's register table have a unique-ID register?
pub open spec fn spec_has_uid(k: VendorKind) -> bool {
    k != VendorKind::Macronix
}

/// How many unique-ID payload bytes this vendor's chips return.
pub open spec fn spec_uid_payload_len(k: VendorKind) -> int {
    match k {
        VendorKind::EonSilicon => 12,
        VendorKind::GigaDevice => 16,
        VendorKind::Macronix => 0,
        VendorKind::Winbond => 8,
    }
}

/// The full exchange a unique-ID read puts on the wire: the vendor's command
/// and dummy prefix, padded with zeros for the payload.
pub open spec fn spec_uid_frame(k: VendorKind) -> Seq<u8> {
    match k {
        VendorKind::EonSilicon => seq![0x5Au8, 0u8, 0u8, 0x80u8, 0u8] + Seq::new(
            12nat,
            |i: int| 0u8,
        ),
        VendorKind::GigaDevice => seq![0x4Bu8, 0u8, 0u8, 0u8, 0u8] + Seq::new(16nat, |i: int| 0u8),
        VendorKind::Macronix => Seq::empty(),
        VendorKind::Winbond => seq![0x4Bu8, 0u8, 0u8, 0u8, 0u8] + Seq::new(8nat, |i: int| 0u8),
    }
}

impl Vendor {
    /// The vendor's register table, with its exact content pinned by the
    /// vendor module's `table_sig`.
    pub fn reg_defines(&self) -> (r: Option<Vec<crate::registers::Register>>)
        ensures
            r matches Some(t) ==> crate::registers::table_wf(t@),
            r is Some,
            r matches Some(t) ==> match self.kind {
                VendorKind::EonSilicon => eon_silicon::table_sig(t@),
                VendorKind::GigaDevice => gigadevice::table_sig(t@),
                VendorKind::Macronix => macronix::table_sig(t@),
                VendorKind::Winbond => winbond::table_sig(t@),
            },
    {
        match self.kind {
            VendorKind::EonSilicon => Some(eon_silicon::register_defines()),
            VendorKind::GigaDevice => Some(gigadevice::register_defines()),
            VendorKind::Macronix => Some(macronix::register_defines()),
            VendorKind::Winbond => Some(winbond::register_defines()),
        }
    }

    /// Read the chip's unique ID through this vendor's unique-ID register.
    /// A vendor without one is rejected before anything touches the
    /// transport; otherwise exactly the unique-ID exchange goes on the wire,
    /// and a successful read returns the vendor's full payload.
    pub fn read_uid<T: crate::drive::SpiDrive>(
        &self,
        flash: &mut crate::flash::SpiFlash<T>,
    ) -> (r: Result<Vec<u8>, &'static str>)
        ensures
            final(flash).poll_limit == old(flash).poll_limit,
            !spec_has_uid(self.kind) ==> r is Err && final(flash).drive.log() == old(flash).drive.log(),
            spec_has_uid(self.kind) ==> final(flash).drive.log() == old(flash).drive.log().push(
                spec_uid_frame(self.kind),
            ),
            r matches Ok(b) ==> spec_has_uid(self.kind) && b@.len() == spec_uid_payload_len(
                self.kind,
            ),
            !spec_has_uid(self.kind) ==> final(flash).drive.results() == old(flash).drive.results(),
            spec_has_uid(self.kind) ==> final(flash).drive.results().len() == old(flash).drive.results().len() + 1,
            spec_has_uid(self.kind) ==> (r is Ok <==> final(flash).drive.results().len() > 0
                && final(flash).drive.results().last() == true),
            r is Ok ==> final(flash).drive.results().len() > 0 && final(flash).drive.results().last() == true,
    {
        let reg = match self.kind {
            VendorKind::Macronix => {
                return Err("Not support Unique ID");
            },
            VendorKind::EonSilicon => eon_silicon::uid_register(),
            VendorKind::GigaDevice => gigadevice::uid_register(),
            VendorKind::Winbond => winbond::uid_register(),
        };
        proof {
            assert(crate::registers::spec_read_frame(reg.reader) =~= spec_uid_frame(self.kind));
        }
        match reg.read(flash) {
            Err(_) => Err("transfer fail"),
            Ok(crate::registers::RegReadRet::One(_)) => Err("Not support Unique ID"),
            Ok(crate::registers::RegReadRet::Multi(b)) => Ok(b),
        }
    }
}

/// The JEDEC-documented sizes of the chips in this library's domain. Keeping
/// capacity as a closed set (rather than an arbitrary integer) makes the
/// byte-count and display conversions exhaustive.
#[derive(Debug, Clone, Copy, PartialEq, Eq, Structural)]
pub enum Capacity {
    C05,
    C10,
    C20,
    C40,
    C80,
    C16,
    C32,
    C64,
    C128,
    C256,
}

impl Capacity {
    /// The exact size in bytes.
    pub open spec fn spec_byte_count(&self) -> int {
        match self {
            Capacity::C05 => 1024int * 64,
            Capacity::C10 => 1024int * 128,
            Capacity::C20 => 1024int * 256,
            Capacity::C40 => 1024int * 512,
            Capacity::C80 => 1024int * 1024 * 1,
            Capacity::C16 => 1024int * 1024 * 2,
            Capacity::C32 => 1024int * 1024 * 4,
            Capacity::C64 => 1024int * 1024 * 8,
            Capacity::C128 => 1024int * 1024 * 16,
            Capacity::C256 => 1024int * 1024 * 32,
        }
    }

    pub fn byte_count(&self) -> (r: usize)
        ensures
            r == self.spec_byte_count(),
    {
        match self {
            Capacity::C05 => 1024 * 64,
            Capacity::C10 => 1024 * 128,
            Capacity::C20 => 1024 * 256,
            Capacity::C40 => 1024 * 512,
            Capacity::C80 => 1024 * 1024,
            Capacity::C16 => 1024 * 1024 * 2,
            Capacity::C32 => 1024 * 1024 * 4,
            Capacity::C64 => 1024 * 1024 * 8,
            Capacity::C128 => 1024 * 1024 * 16,
            Capacity::C256 => 1024 * 1024 * 32,
        }
    }

    /// The human-readable size string.
    pub open spec fn spec_display(&self) -> Seq<char> {
        match self {
            Capacity::C05 => "64 KB"@,
            Capacity::C10 => "128 KB"@,
            Capacity::C20 => "256 KB"@,
            Capacity::C40 => "512 KB"@,
            Capacity::C80 => "1 MB"@,
            Capacity::C16 => "2 MB"@,
            Capacity::C32 => "4 MB"@,
            Capacity::C64 => "8 MB"@,
            Capacity::C128 => "16 MB"@,
            Capacity::C256 => "32 MB"@,
        }
    }

    pub fn display_str(&self) -> (r: &'static str)
        ensures
            r@ == self.spec_display(),
    {
        match self {
            Capacity::C05 => "64 KB",
            Capacity::C10 => "128 KB",
            Capacity::C20 => "256 KB",
            Capacity::C40 => "512 KB",
            Capacity::C80 => "1 MB",
            Capacity::C16 => "2 MB",
            Capacity::C32 => "4 MB",
            Capacity::C64 => "8 MB",
            Capacity::C128 => "16 MB",
            Capacity::C256 => "32 MB",
        }
    }
}

/// A detected chip: its model name, the vendor it belongs to, and its size.
#[derive(Debug)]
pub struct Chip {
    pub name: String,
    pub vendor: Vendor,
    pub capacity: Capacity,
}

/// What a decoded chip must look like for a decode result `m`.
pub open spec fn chip_matches(chip: Chip, k: VendorKind, m: (Seq<char>, Capacity)) -> bool {
    &&& chip.vendor.kind == k
    &&& vendor_wf(chip.vendor)
    &&& chip.name@ == m.0
    &&& chip.capacity == m.1
}

/// The model a vendor's decode function assigns to a (memory-type,
/// capacity-code) byte pair.
pub open spec fn spec_vendor_chip(k: VendorKind, t: u8, c: u8) -> Option<(Seq<char>, Capacity)> {
    match k {
        VendorKind::EonSilicon => eon_silicon::spec_chip(t, c),
        VendorKind::GigaDevice => gigadevice::spec_chip(t, c),
        VendorKind::Macronix => macronix::spec_chip(t, c),
        VendorKind::Winbond => winbond::spec_chip(t, c),
    }
}

/// The vendor the registry assigns to a manufacturer ID byte. GigaDevice has
/// a decode function and a register table but is not registered, so its ID
/// byte is not recognized here.
pub open spec fn spec_registry_kind(id: u8) -> Option<VendorKind> {
    if id == 0x1C {
        Some(VendorKind::EonSilicon)
    } else if id == 0xC2 {
        Some(VendorKind::Macronix)
    } else if id == 0xEF {
        Some(VendorKind::Winbond)
    } else {
        None
    }
}

/// What `parse_jedec_id` decodes a byte string to: the registered vendor of
/// the first byte, and that vendor's model for the next two. Byte strings
/// shorter than three bytes decode to nothing.
pub open spec fn spec_parse_jedec_id(buf: Seq<u8>) -> Option<(VendorKind, Seq<char>, Capacity)> {
    if buf.len() < 3 {
        None
    } else {
        match spec_registry_kind(buf[0]) {
            None => None,
            Some(k) => match spec_vendor_chip(k, buf[1], buf[2]) {
                None => None,
                Some(m) => Some((k, m.0, m.1)),
            },
        }
    }
}

/// The vendor registry: every vendor `parse_jedec_id` can recognize, with
/// pairwise distinct manufacturer IDs (at most one vendor per ID byte).
pub fn vendor_list() -> (r: Vec<Vendor>)
    ensures
        r@.len() == 3,
        forall|i: int| 0 <= i < r@.len() ==> vendor_wf(#[trigger] r@[i]),
        forall|i: int|
            0 <= i < r@.len() ==> spec_registry_kind(#[trigger] r@[i].id) == Some(r@[i].kind),
        forall|i: int, j: int| 0 <= i < j < r@.len() ==> #[trigger] r@[i].id != #[trigger] r@[j].id,
{
    let mut r: Vec<Vendor> = Vec::new();
    r.push(vendor_of(VendorKind::EonSilicon));
    r.push(vendor_of(VendorKind::Macronix));
    r.push(vendor_of(VendorKind::Winbond));
    r
}

/// Look a manufacturer ID byte up in the registry.
pub fn find_vendor(id: u8) -> (r: Option<Vendor>)
    ensures
        match r {
            Some(v) => {
                &&& vendor_wf(v)
                &&& v.id == id
                &&& spec_registry_kind(id) == Some(v.kind)
            },
            None => spec_registry_kind(id) is None,
        },
{
    let list = vendor_list();
    let mut i: usize = 0;
    while i < list.len()
        invariant
            i <= list@.len(),
            list@.len() == 3,
            forall|n: int| 0 <= n < list@.len() ==> vendor_wf(#[trigger] list@[n]),
            forall|n: int|
                0 <= n < list@.len() ==> spec_registry_kind(#[trigger] list@[n].id) == Some(
                    list@[n].kind,
                ),
            forall|n: int| 0 <= n < i ==> #[trigger] list@[n].id != id,
        decreases list@.len() - i,
    {
        if list[i].id == id {
            return Some(list[i]);
        }
        i = i + 1;
    }
    proof {
        assert(list@[0].id != id && list@[1].id != id && list@[2].id != id);
        assert(spec_registry_kind(id) is None);
    }
    None
}

/// Decode a JEDEC identifier `[manufacturer, memory_type, capacity_code]`
/// into a chip descriptor. Returns `None`, never fails harder, when fewer
/// than three bytes are supplied, when the manufacturer is not in the
/// registry, or when the vendor does not recognize the remaining two bytes.
pub fn parse_jedec_id(buf: &[u8]) -> (r: Option<Chip>)
    ensures
        match (r, spec_parse_jedec_id(buf@)) {
            (Some(chip), Some(m)) => chip_matches(chip, m.0, (m.1, m.2)),
            (None, None) => true,
            _ => false,
        },
{
    if buf.len() < 3 {
        return None;
    }

    let vendor = match find_vendor(buf[0]) {
        None => {
            return None;
        },
        Some(v) => v,
    };

    match vendor.kind {
        VendorKind::EonSilicon => eon_silicon::parse_jedec_id(vendor, (buf[1], buf[2])),
        VendorKind::GigaDevice => gigadevice::parse_jedec_id(vendor, (buf[1], buf[2])),
        VendorKind::Macronix => macronix::parse_jedec_id(vendor, (buf[1], buf[2])),
        VendorKind::Winbond => winbond::parse_jedec_id(vendor, (buf[1], buf[2])),
    }
}

} // verus!
