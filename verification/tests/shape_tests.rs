//! The conversion of point records into vertex commands: curves, runs of
//! off-curve points, and contours that start off-curve.

use piston_truetype::font::FontInfo;
use piston_truetype::shape::{get_glyph_shape, Cmd, GlyphShape, Vertex};
use piston_truetype::Error;

fn vertex(type_: Cmd, x: i16, y: i16, cx: i16, cy: i16) -> Vertex {
    Vertex { x, y, cx, cy, type_, flags: 0 }
}

/// Wraps one glyph record in a two-entry short `loca` so glyph 0 decodes
/// to it.
fn font_of_record(record: &[u8]) -> Vec<u8> {
    assert!(record.len() % 2 == 0);
    let mut data = Vec::new();
    data.extend_from_slice(&0u16.to_be_bytes()); // loca[0]
    data.extend_from_slice(&((record.len() / 2) as u16).to_be_bytes()); // loca[1]
    data.extend_from_slice(record);
    data
}

fn info_for<'a>(data: &'a [u8]) -> FontInfo<'a> {
    FontInfo {
        data,
        fontstart: 0,
        num_glyphs: 1,
        loca: 0,
        head: 0,
        glyf: 4,
        hhea: 0,
        hmtx: 0,
        kern: 0,
        index_map: 0,
        index_to_loc_format: 0,
    }
}

fn record_header(n_contours: i16) -> Vec<u8> {
    let mut g = Vec::new();
    g.extend_from_slice(&n_contours.to_be_bytes());
    g.extend_from_slice(&[0; 8]); // bounding box, unread by the decoder
    g
}

#[test]
fn decode_quadratic_curve() {
    // On-curve (0,0), off-curve (10,20), on-curve (20,0).
    let mut g = record_header(1);
    g.extend_from_slice(&2u16.to_be_bytes()); // endPtsOfContours[0]
    g.extend_from_slice(&0u16.to_be_bytes()); // instructionLength
    g.push(0x31); // on-curve, x and y unchanged
    g.push(0x36); // off-curve, byte x (positive), byte y (positive)
    g.push(0x17); // on-curve, byte x (positive), byte y (negative)
    g.push(10); // p1 x delta
    g.push(10); // p2 x delta
    g.push(20); // p1 y delta
    g.push(20); // p2 y delta (negative)
    g.push(0); // padding to an even length
    let data = font_of_record(&g);
    let info = info_for(&data);
    match get_glyph_shape(&info, 0).unwrap() {
        GlyphShape::Simple(vs) => assert_eq!(vs, vec![
            vertex(Cmd::Move, 0, 0, 0, 0),
            vertex(Cmd::Curve, 20, 0, 10, 20),
            vertex(Cmd::Line, 0, 0, 0, 0),
        ]),
        other => panic!("expected a simple outline, got {:?}", other),
    }
}

#[test]
fn decode_off_curve_start() {
    // Off-curve (0,10), off-curve (10,10), on-curve (10,0): the contour
    // start is synthesized at the midpoint of the two off-curve points.
    let mut g = record_header(1);
    g.extend_from_slice(&2u16.to_be_bytes());
    g.extend_from_slice(&0u16.to_be_bytes());
    g.push(0x34); // off-curve, x unchanged, byte y (positive)
    g.push(0x32); // off-curve, byte x (positive), y unchanged
    g.push(0x15); // on-curve, x unchanged, byte y (negative)
    g.push(10); // p1 x delta
    g.push(10); // p0 y delta
    g.push(10); // p2 y delta (negative)
    let data = font_of_record(&g);
    let info = info_for(&data);
    match get_glyph_shape(&info, 0).unwrap() {
        GlyphShape::Simple(vs) => assert_eq!(vs, vec![
            vertex(Cmd::Move, 5, 10, 0, 0),
            vertex(Cmd::Curve, 10, 0, 10, 10),
            vertex(Cmd::Curve, 5, 10, 0, 10),
        ]),
        other => panic!("expected a simple outline, got {:?}", other),
    }
}

#[test]
fn decode_consecutive_off_curve_points() {
    // On (0,0), off (10,10), off (30,10), on (40,0): two off-curve points
    // in a row synthesize an on-curve midpoint between them.
    let mut g = record_header(1);
    g.extend_from_slice(&3u16.to_be_bytes());
    g.extend_from_slice(&0u16.to_be_bytes());
    g.push(0x31); // on, x and y unchanged
    g.push(0x36); // off, byte x, byte y
    g.push(0x32); // off, byte x, y unchanged
    g.push(0x17); // on, byte x, byte y negative
    g.push(10); // p1 x
    g.push(20); // p2 x
    g.push(10); // p3 x
    g.push(10); // p1 y
    g.push(10); // p3 y (negative)
    g.push(0); // padding
    let data = font_of_record(&g);
    let info = info_for(&data);
    match get_glyph_shape(&info, 0).unwrap() {
        GlyphShape::Simple(vs) => assert_eq!(vs, vec![
            vertex(Cmd::Move, 0, 0, 0, 0),
            vertex(Cmd::Curve, 20, 10, 10, 10),
            vertex(Cmd::Curve, 40, 0, 30, 10),
            vertex(Cmd::Line, 0, 0, 0, 0),
        ]),
        other => panic!("expected a simple outline, got {:?}", other),
    }
}

#[test]
fn decode_flag_repeats() {
    // The flag byte with bit 3 set repeats for the following count.
    let mut g = record_header(1);
    g.extend_from_slice(&3u16.to_be_bytes());
    g.extend_from_slice(&0u16.to_be_bytes());
    g.push(0x37 | 0x08); // on, byte x, byte y, repeated...
    g.push(3); // ...three more times
    g.push(1); // x deltas
    g.push(1);
    g.push(1);
    g.push(1);
    g.push(2); // y deltas
    g.push(2);
    g.push(2);
    g.push(2);
    let data = font_of_record(&g);
    let info = info_for(&data);
    match get_glyph_shape(&info, 0).unwrap() {
        GlyphShape::Simple(vs) => assert_eq!(vs, vec![
            vertex(Cmd::Move, 1, 2, 0, 0),
            vertex(Cmd::Line, 2, 4, 0, 0),
            vertex(Cmd::Line, 3, 6, 0, 0),
            vertex(Cmd::Line, 4, 8, 0, 0),
            vertex(Cmd::Line, 1, 2, 0, 0),
        ]),
        other => panic!("expected a simple outline, got {:?}", other),
    }
}

#[test]
fn decode_truncated_record_is_malformed() {
    // The flags declare more points than the record holds bytes for.
    let mut g = record_header(1);
    g.extend_from_slice(&9u16.to_be_bytes()); // ten points claimed
    g.extend_from_slice(&0u16.to_be_bytes());
    g.push(0x37);
    g.push(0x37); // only two flag bytes present
    let data = font_of_record(&g);
    let info = info_for(&data);
    assert_eq!(get_glyph_shape(&info, 0).err(), Some(Error::Malformed));
}

#[test]
fn decode_unsupported_contour_count_is_malformed() {
    let mut g = record_header(-2); // only -1 marks a composite
    g.extend_from_slice(&[0, 0]);
    let data = font_of_record(&g);
    let info = info_for(&data);
    assert_eq!(get_glyph_shape(&info, 0).err(), Some(Error::Malformed));
}

#[test]
fn decode_zero_contours_is_empty() {
    let g = record_header(0);
    let data = font_of_record(&g);
    let info = info_for(&data);
    assert_eq!(get_glyph_shape(&info, 0).unwrap(), GlyphShape::Empty);
}
