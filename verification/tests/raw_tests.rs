//! Byte readers and the sfnt table locator.

use piston_truetype::raw::{
    be_i16, be_u16, be_u32, find_required_table_offset, find_table_offset, prefix_is_tag,
    read_i16_from_raw_data, read_u16_from_raw_data,
};
use piston_truetype::Error;

#[test]
fn test_prefix_is_tag() {
    assert!(prefix_is_tag(b"abcde", b"abcd"));
    assert!(!prefix_is_tag(b"abc", b"abcd"));
    assert!(!prefix_is_tag(b"abcc", b"abcd"));
}

#[test]
fn test_read_u16_from_raw_data() {
    let data: &[u8] = &[0, 1, 0, 3];
    assert_eq!(read_u16_from_raw_data(data, 0), Some(1));
    assert_eq!(read_u16_from_raw_data(data, 1), Some(3));
    assert_eq!(read_u16_from_raw_data(data, 2), None);
}

#[test]
fn test_read_i16_from_raw_data() {
    let data: &[u8] = &[0xFF, 0xFF, 0x00, 0x02];
    assert_eq!(read_i16_from_raw_data(data, 0), Some(-1));
    assert_eq!(read_i16_from_raw_data(data, 1), Some(2));
    assert_eq!(read_i16_from_raw_data(data, 2), None);
}

#[test]
fn big_endian_reads() {
    let data: &[u8] = &[0x12, 0x34, 0x56, 0x78];
    assert_eq!(be_u16(data, 0), 0x1234);
    assert_eq!(be_u16(data, 2), 0x5678);
    assert_eq!(be_u32(data, 0), 0x12345678);
    assert_eq!(be_i16(&[0xFF, 0xFE], 0), -2);
    assert_eq!(be_i16(&[0x7F, 0xFF], 0), 0x7FFF);
}

fn directory_with(tag: &[u8; 4], offset: u32) -> Vec<u8> {
    // An sfnt with one directory entry.
    let mut d = vec![0u8, 1, 0, 0]; // version 1.0
    d.extend_from_slice(&[0, 1]); // numTables
    d.extend_from_slice(&[0; 6]); // searchRange, entrySelector, rangeShift
    d.extend_from_slice(tag);
    d.extend_from_slice(&[0; 4]); // checksum
    d.extend_from_slice(&offset.to_be_bytes());
    d.extend_from_slice(&[0, 0, 0, 4]); // length
    d.extend_from_slice(&[0xAA; 8]); // some table bytes
    d
}

#[test]
fn find_table_present_and_absent() {
    let d = directory_with(b"cmap", 28);
    assert_eq!(find_table_offset(&d, 0, b"cmap"), Ok(Some(28)));
    assert_eq!(find_table_offset(&d, 0, b"glyf"), Ok(None));
    assert_eq!(find_required_table_offset(&d, 0, b"cmap"), Ok(28));
    assert_eq!(find_required_table_offset(&d, 0, b"glyf"), Err(Error::MissingTable));
}

#[test]
fn find_table_short_directory_is_malformed() {
    // The 12-byte directory header itself does not fit.
    let d = vec![0u8, 1, 0, 0, 0, 0, 0, 0, 0, 0];
    assert_eq!(find_table_offset(&d, 0, b"cmap"), Err(Error::Malformed));
    // A declared entry count that overflows the remaining bytes is
    // malformed, even when the wanted entry lies inside them.
    let mut d = vec![0u8, 1, 0, 0];
    d.extend_from_slice(&[0, 9]); // declares nine entries
    d.extend_from_slice(&[0; 6]);
    d.extend_from_slice(b"loca");
    d.extend_from_slice(&[0; 4]);
    d.extend_from_slice(&[0, 0, 0, 40]);
    d.extend_from_slice(&[0, 0, 0, 2]);
    assert_eq!(find_table_offset(&d, 0, b"loca"), Err(Error::Malformed));
    assert_eq!(find_table_offset(&d, 0, b"cmap"), Err(Error::Malformed));
}
