//! The `loca` table in both entry formats.

use piston_truetype::tables::LOCA;
use piston_truetype::types::LocationFormat;
use piston_truetype::Error;

#[test]
fn loca_format_short() {
    let data = &[0, 50, 0, 100, 0, 200];
    let loca = LOCA::from_data(data, 0, 2, LocationFormat::Short).unwrap();
    assert_eq!(loca.bytes(), data);
    assert_eq!(loca.offsets, [50 * 2, 100 * 2, 200 * 2]);
}

#[test]
fn loca_format_long() {
    let data = &[0, 0, 0, 50, 0, 0, 0, 100, 0, 0, 0, 200];
    let loca = LOCA::from_data(data, 0, 2, LocationFormat::Long).unwrap();
    assert_eq!(loca.bytes(), data);
    assert_eq!(loca.offsets, [50, 100, 200]);
}

#[test]
fn loca_too_short_is_malformed() {
    let data = &[0, 50, 0, 100];
    assert_eq!(LOCA::from_data(data, 0, 2, LocationFormat::Short), Err(Error::Malformed));
    assert_eq!(LOCA::from_data(data, 4, 0, LocationFormat::Short), Err(Error::Malformed));
}

#[test]
fn loca_glyf_size() {
    let data = &[0, 50, 0, 100, 0, 200];
    let loca = LOCA::from_data(data, 0, 2, LocationFormat::Short).unwrap();
    assert_eq!(loca.size_of_glyf_table(), 400);
    assert_eq!(loca.format.entry_size(), 2);
    assert_eq!(LocationFormat::Long.entry_size(), 4);
}
