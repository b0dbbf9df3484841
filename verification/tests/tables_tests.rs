//! The fixed-layout tables: head, hhea, maxp, hmtx and glyf.

use piston_truetype::tables::glyf::GLYF;
use piston_truetype::tables::{HEAD, HHEA, HMTX, LongHorizontalMetric, MAXP};
use piston_truetype::types::{BBox, LocationFormat};
use piston_truetype::Error;

fn head_bytes(version: u32, index_to_loc: i16) -> Vec<u8> {
    let mut t = Vec::new();
    t.extend_from_slice(&version.to_be_bytes());
    t.extend_from_slice(&7u32.to_be_bytes()); // fontRevision
    t.extend_from_slice(&0u32.to_be_bytes());
    t.extend_from_slice(&0x5F0F3CF5u32.to_be_bytes());
    t.extend_from_slice(&0u16.to_be_bytes());
    t.extend_from_slice(&2048u16.to_be_bytes()); // unitsPerEm
    t.extend_from_slice(&0u64.to_be_bytes());
    t.extend_from_slice(&0u64.to_be_bytes());
    t.extend_from_slice(&(-11i16).to_be_bytes());
    t.extend_from_slice(&(-22i16).to_be_bytes());
    t.extend_from_slice(&33i16.to_be_bytes());
    t.extend_from_slice(&44i16.to_be_bytes());
    t.extend_from_slice(&0u16.to_be_bytes());
    t.extend_from_slice(&9u16.to_be_bytes());
    t.extend_from_slice(&0i16.to_be_bytes());
    t.extend_from_slice(&index_to_loc.to_be_bytes());
    t.extend_from_slice(&0i16.to_be_bytes());
    t
}

#[test]
fn head_parses_fields() {
    let t = head_bytes(0x00010000, 1);
    let head = HEAD::from_data(&t, 0).unwrap();
    assert_eq!(head.units_per_em(), 2048);
    assert_eq!(head.bounding_box(), BBox { x0: -11, y0: -22, x1: 33, y1: 44 });
    assert_eq!(head.index_to_loc_format(), 1);
    assert_eq!(head.location_format(), Ok(LocationFormat::Long));
    assert_eq!(head.magic_number, 0x5F0F3CF5);
}

#[test]
fn head_version_and_bounds() {
    let bad = head_bytes(0x00020000, 0);
    assert_eq!(HEAD::from_data(&bad, 0), Err(Error::HEADVersionIsNotSupported));
    let good = head_bytes(0x00010000, 0);
    assert_eq!(HEAD::from_data(&good[..40], 0), Err(Error::Malformed));
    assert_eq!(HEAD::from_data(&good, good.len()), Err(Error::Malformed));
}

#[test]
fn head_location_formats() {
    assert_eq!(
        HEAD::from_data(&head_bytes(0x00010000, 0), 0).unwrap().location_format(),
        Ok(LocationFormat::Short),
    );
    assert_eq!(
        HEAD::from_data(&head_bytes(0x00010000, 2), 0).unwrap().location_format(),
        Err(Error::UnknownLocationFormat),
    );
}

fn hhea_bytes(version: u32) -> Vec<u8> {
    let mut t = Vec::new();
    t.extend_from_slice(&version.to_be_bytes());
    t.extend_from_slice(&900i16.to_be_bytes()); // ascent
    t.extend_from_slice(&(-300i16).to_be_bytes()); // descent
    t.extend_from_slice(&77i16.to_be_bytes()); // lineGap
    t.extend_from_slice(&600u16.to_be_bytes()); // advanceWidthMax
    for _ in 0..11 {
        t.extend_from_slice(&0i16.to_be_bytes()); // bearings through metricDataFormat
    }
    t.extend_from_slice(&4u16.to_be_bytes()); // numOfLongHorMetrics
    t
}

#[test]
fn hhea_parses_fields() {
    let t = hhea_bytes(0x00010000);
    let hhea = HHEA::from_data(&t, 0).unwrap();
    assert_eq!(hhea.ascent(), 900);
    assert_eq!(hhea.descent(), -300);
    assert_eq!(hhea.line_gap(), 77);
    assert_eq!(hhea.num_of_long_hor_metrics(), 4);
}

#[test]
fn hhea_version_and_bounds() {
    assert_eq!(HHEA::from_data(&hhea_bytes(0x00020000), 0), Err(Error::HHEAVersionIsNotSupported));
    let good = hhea_bytes(0x00010000);
    assert_eq!(HHEA::from_data(&good[..30], 0), Err(Error::Malformed));
    assert_eq!(HHEA::from_data(&good, good.len()), Err(Error::Malformed));
}

#[test]
fn maxp_versions() {
    let mut t = Vec::new();
    t.extend_from_slice(&0x00010000u32.to_be_bytes());
    t.extend_from_slice(&258u16.to_be_bytes());
    let maxp = MAXP::from_data(&t, 0).unwrap();
    assert_eq!(maxp.num_glyphs(), 258);

    let mut half = Vec::new();
    half.extend_from_slice(&0x00005000u32.to_be_bytes());
    half.extend_from_slice(&9u16.to_be_bytes());
    assert_eq!(MAXP::from_data(&half, 0).unwrap().num_glyphs(), 9);

    let mut bad = Vec::new();
    bad.extend_from_slice(&0x00030000u32.to_be_bytes());
    bad.extend_from_slice(&9u16.to_be_bytes());
    assert_eq!(MAXP::from_data(&bad, 0), Err(Error::MAXPVersionIsNotSupported));
    assert_eq!(MAXP::from_data(&t, t.len()), Err(Error::Malformed));
}

#[test]
fn hmtx_parses_metrics_and_bearings() {
    let mut t = Vec::new();
    t.extend_from_slice(&500u16.to_be_bytes());
    t.extend_from_slice(&(-3i16).to_be_bytes());
    t.extend_from_slice(&410u16.to_be_bytes());
    t.extend_from_slice(&12i16.to_be_bytes());
    t.extend_from_slice(&(-8i16).to_be_bytes());
    let hmtx = HMTX::from_data(&t, 0, 2, 3).unwrap();
    assert_eq!(hmtx.metrics, vec![
        LongHorizontalMetric { advance_width: 500, left_side_bearing: -3 },
        LongHorizontalMetric { advance_width: 410, left_side_bearing: 12 },
    ]);
    assert_eq!(hmtx.left_side_bearings, vec![-8]);
}

#[test]
fn hmtx_rejects_bad_counts() {
    let t = vec![0u8; 10];
    assert_eq!(HMTX::from_data(&t, 0, 1, 0), Err(Error::Malformed));
    assert_eq!(HMTX::from_data(&t, 10, 1, 1), Err(Error::Malformed));
    assert_eq!(HMTX::from_data(&t, 0, 3, 3), Err(Error::Malformed));
}

#[test]
fn glyf_records() {
    // A single record: 1 contour, a bounding box, nothing else read here.
    let mut rec = Vec::new();
    rec.extend_from_slice(&1i16.to_be_bytes());
    rec.extend_from_slice(&(-1i16).to_be_bytes());
    rec.extend_from_slice(&(-2i16).to_be_bytes());
    rec.extend_from_slice(&3i16.to_be_bytes());
    rec.extend_from_slice(&4i16.to_be_bytes());
    let mut data = vec![0xFFu8; 4]; // unrelated leading bytes
    data.extend_from_slice(&rec);
    let glyf = GLYF::from_data(&data, 4, rec.len()).unwrap();
    let g = glyf.glyph_data(0);
    assert_eq!(g.number_of_contours(), 1);
    assert!(!g.is_empty());
    assert_eq!(g.bounding_box(), Some(BBox { x0: -1, y0: -2, x1: 3, y1: 4 }));
    assert_eq!(GLYF::from_data(&data, 4, rec.len() + 1), Err(Error::Malformed));
    // An offset past the table falls back to the table's start.
    let g2 = glyf.glyph_data(rec.len() + 5);
    assert_eq!(g2.number_of_contours(), 1);
}
