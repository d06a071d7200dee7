//! Tests for the text helpers and the command-line number parser.

use ch347_rs::clock::SpiClockLevel;
use ch347_rs::utils::display_u8_hex;
use ch347_rs::utils::format_byte_unit;
use ch347_rs::utils::parse_cli_arg_number;
use ch347_rs::utils::ParseNumError;
use ch347_rs::verify::first_mismatch;
use ch347_rs::verify::mismatch_after;
use ch347_rs::verify::verify_block_start;

#[test]
fn format_byte_unit_cases() {
    assert_eq!(format_byte_unit(0), "0B");
    assert_eq!(format_byte_unit(1), "1B");
    assert_eq!(format_byte_unit(1023), "1023B");
    assert_eq!(format_byte_unit(1024), "1KB");
    assert_eq!(format_byte_unit(1536), "1KB 512B");
    assert_eq!(format_byte_unit(1024 * 1024), "1MB");
    assert_eq!(format_byte_unit(2 * 1024 * 1024 + 3 * 1024 + 5), "2MB 3KB 5B");
    assert_eq!(format_byte_unit(4 * 1024 * 1024), "4MB");
}

#[test]
fn display_u8_hex_cases() {
    assert_eq!(display_u8_hex(0x4A), "0x4A(0b0100_1010)");
    assert_eq!(display_u8_hex(0x00), "0x00(0b0000_0000)");
    assert_eq!(display_u8_hex(0xFF), "0xFF(0b1111_1111)");
    assert_eq!(display_u8_hex(0x03), "0x03(0b0000_0011)");
}

#[test]
fn parse_cli_arg_number_booleans() {
    assert_eq!(parse_cli_arg_number("true", true), Ok(1));
    assert_eq!(parse_cli_arg_number("T", true), Ok(1));
    assert_eq!(parse_cli_arg_number("False", true), Ok(0));
    assert_eq!(parse_cli_arg_number("f", true), Ok(0));
    // Keywords are only keywords when a boolean is expected.
    assert_eq!(parse_cli_arg_number("true", false), Err(ParseNumError::NotANumber));
}

#[test]
fn parse_cli_arg_number_binary_and_hex() {
    assert_eq!(parse_cli_arg_number("0b11", false), Ok(3));
    assert_eq!(parse_cli_arg_number("0B1010-1010", false), Ok(0xAA));
    assert_eq!(parse_cli_arg_number("0x2a", false), Ok(42));
    assert_eq!(parse_cli_arg_number("0XFF", false), Ok(255));
    assert_eq!(parse_cli_arg_number("0x00", false), Ok(0));
}

#[test]
fn parse_cli_arg_number_errors() {
    assert_eq!(parse_cli_arg_number("12", false), Err(ParseNumError::NotANumber));
    assert_eq!(parse_cli_arg_number("", false), Err(ParseNumError::NotANumber));
    assert_eq!(parse_cli_arg_number("0x", false), Err(ParseNumError::Empty));
    assert_eq!(parse_cli_arg_number("0b", false), Err(ParseNumError::Empty));
    assert_eq!(parse_cli_arg_number("0xzz", false), Err(ParseNumError::InvalidDigit));
    assert_eq!(parse_cli_arg_number("0b102", false), Err(ParseNumError::InvalidDigit));
    assert_eq!(parse_cli_arg_number("0x100", false), Err(ParseNumError::TooLarge));
    assert_eq!(parse_cli_arg_number("0b1_0000_0000", false), Err(ParseNumError::InvalidDigit));
}

#[test]
fn spi_clock_level_from_byte() {
    assert_eq!(SpiClockLevel::from_byte(0), Some(SpiClockLevel::S60M));
    assert_eq!(SpiClockLevel::from_byte(2), Some(SpiClockLevel::S15M));
    assert_eq!(SpiClockLevel::from_byte(7), Some(SpiClockLevel::S468_75K));
    assert_eq!(SpiClockLevel::from_byte(8), None);
    assert_eq!(SpiClockLevel::from_byte(2).unwrap().description(), "15MHz");
}

#[test]
fn verify_block_boundaries() {
    assert_eq!(verify_block_start(0), None);
    assert_eq!(verify_block_start(256), None);
    assert_eq!(verify_block_start(3840), Some(0));
    assert_eq!(verify_block_start(4096), None);
    assert_eq!(verify_block_start(8192 - 256), Some(4096));
}

#[test]
fn mismatch_detection() {
    let a = [1u8, 2, 3, 4];
    let b = [1u8, 2, 9, 4];
    assert_eq!(first_mismatch(&a, &b), Some(2));
    assert_eq!(first_mismatch(&a, &a), None);
    assert_eq!(mismatch_after(&a, &b, 3), None);
    assert_eq!(mismatch_after(&a, &b, 1), Some(2));
}
