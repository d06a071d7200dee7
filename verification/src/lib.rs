//! A verified core for an SPI NOR flash programming tool.
//!
//! The library identifies a flash chip from its JEDEC identifier, models the
//! vendor-specific status registers as declarative bitfield tables, and drives
//! chip erase, paged programming and bulk reads over an abstract byte-exchange
//! transport supplied by the caller.

pub mod clock;
pub mod drive;
pub mod flash;
pub mod model;
pub mod protocol;
pub mod registers;
pub mod utils;
pub mod verify;
