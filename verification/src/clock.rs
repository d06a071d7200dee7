//! The SPI clock rates the USB bridge can be configured with, and the
//! decoding of the rate-selection byte a caller passes on the command line.

use vstd::prelude::*;

verus! {

/// The bridge's SPI clock rates, fastest first; the wire encoding is the
/// variant's position.
#[derive(Debug, Clone, Copy, PartialEq, Eq, Structural)]
pub enum SpiClockLevel {
    S60M,
    S30M,
    S15M,
    S7_5M,
    S3_75M,
    S1_875M,
    S937_5K,
    S468_75K,
}

/// The clock level a rate-selection byte picks, if any.
pub open spec fn spec_clock_from_byte(data: u8) -> Option<SpiClockLevel> {
    match data {
        0u8 => Some(SpiClockLevel::S60M),
        1u8 => Some(SpiClockLevel::S30M),
        2u8 => Some(SpiClockLevel::S15M),
        3u8 => Some(SpiClockLevel::S7_5M),
        4u8 => Some(SpiClockLevel::S3_75M),
        5u8 => Some(SpiClockLevel::S1_875M),
        6u8 => Some(SpiClockLevel::S937_5K),
        7u8 => Some(SpiClockLevel::S468_75K),
        _ => None,
    }
}

impl SpiClockLevel {
    /// Decode a rate-selection byte; bytes above 7 select nothing.
    pub fn from_byte(data: u8) -> (r: Option<SpiClockLevel>)
        ensures
            r == spec_clock_from_byte(data),
    {
        match data {
            0 => Some(SpiClockLevel::S60M),
            1 => Some(SpiClockLevel::S30M),
            2 => Some(SpiClockLevel::S15M),
            3 => Some(SpiClockLevel::S7_5M),
            4 => Some(SpiClockLevel::S3_75M),
            5 => Some(SpiClockLevel::S1_875M),
            6 => Some(SpiClockLevel::S937_5K),
            7 => Some(SpiClockLevel::S468_75K),
            _ => None,
        }
    }

    /// The human-readable clock rate.
    pub open spec fn spec_description(&self) -> Seq<char> {
        match self {
            SpiClockLevel::S60M => "60MHz"@,
            SpiClockLevel::S30M => "30MHz"@,
            SpiClockLevel::S15M => "15MHz"@,
            SpiClockLevel::S7_5M => "7.5MHz"@,
            SpiClockLevel::S3_75M => "3.75MHz"@,
            SpiClockLevel::S1_875M => "1.875MHz"@,
            SpiClockLevel::S937_5K => "937kHz"@,
            SpiClockLevel::S468_75K => "468.75kHz"@,
        }
    }

    pub fn description(&self) -> (r: &'static str)
        ensures
            r@ == self.spec_description(),
    {
        match self {
            SpiClockLevel::S60M => "60MHz",
            SpiClockLevel::S30M => "30MHz",
            SpiClockLevel::S15M => "15MHz",
            SpiClockLevel::S7_5M => "7.5MHz",
            SpiClockLevel::S3_75M => "3.75MHz",
            SpiClockLevel::S1_875M => "1.875MHz",
            SpiClockLevel::S937_5K => "937kHz",
            SpiClockLevel::S468_75K => "468.75kHz",
        }
    }
}

} // verus!
