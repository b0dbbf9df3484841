//! End-to-end decoding of a small synthetic font: loading the view,
//! codepoint lookup, simple and composite glyph decoding, metrics and
//! kerning.

use piston_truetype::codepoint::{
    get_codepoint_box, get_codepoint_hmetrics, get_codepoint_kern_advance, get_codepoint_shape,
};
use piston_truetype::font::FontInfo;
use piston_truetype::glyph_index::find_glyph_index;
use piston_truetype::metrics::{
    get_font_bounding_box, get_font_offset_for_index, get_font_vmetrics, get_glyph_hmetrics,
    get_glyph_kern_advance, isfont,
};
use piston_truetype::shape::{
    close_shape, get_glyph_box, get_glyph_offset, get_glyph_shape, is_glyph_empty,
    resolve_identity_component, stbtt_setvertex, translate_vertices, Cmd, GlyphShape, Vertex,
};
use piston_truetype::types::BBox;
use piston_truetype::Error;

fn vertex(type_: Cmd, x: i16, y: i16, cx: i16, cy: i16) -> Vertex {
    Vertex { x, y, cx, cy, type_, flags: 0 }
}

fn head_table() -> Vec<u8> {
    let mut t = Vec::new();
    t.extend_from_slice(&0x00010000u32.to_be_bytes()); // version
    t.extend_from_slice(&0u32.to_be_bytes()); // fontRevision
    t.extend_from_slice(&0u32.to_be_bytes()); // checkSumAdjustment
    t.extend_from_slice(&0x5F0F3CF5u32.to_be_bytes()); // magicNumber
    t.extend_from_slice(&0u16.to_be_bytes()); // flags
    t.extend_from_slice(&1000u16.to_be_bytes()); // unitsPerEm
    t.extend_from_slice(&0u64.to_be_bytes()); // created
    t.extend_from_slice(&0u64.to_be_bytes()); // modified
    t.extend_from_slice(&(-50i16).to_be_bytes()); // xMin
    t.extend_from_slice(&(-40i16).to_be_bytes()); // yMin
    t.extend_from_slice(&60i16.to_be_bytes()); // xMax
    t.extend_from_slice(&70i16.to_be_bytes()); // yMax
    t.extend_from_slice(&0u16.to_be_bytes()); // macStyle
    t.extend_from_slice(&0u16.to_be_bytes()); // lowestRecPPEM
    t.extend_from_slice(&0i16.to_be_bytes()); // fontDirectionHint
    t.extend_from_slice(&0i16.to_be_bytes()); // indexToLocFormat: short
    t.extend_from_slice(&0i16.to_be_bytes()); // glyphDataFormat
    t
}

fn hhea_table() -> Vec<u8> {
    let mut t = Vec::new();
    t.extend_from_slice(&0x00010000u32.to_be_bytes()); // version
    t.extend_from_slice(&800i16.to_be_bytes()); // ascent
    t.extend_from_slice(&(-200i16).to_be_bytes()); // descent
    t.extend_from_slice(&50i16.to_be_bytes()); // lineGap
    t.extend_from_slice(&500u16.to_be_bytes()); // advanceWidthMax
    for _ in 0..11 {
        t.extend_from_slice(&0i16.to_be_bytes()); // bearings through metricDataFormat
    }
    t.extend_from_slice(&2u16.to_be_bytes()); // numOfLongHorMetrics
    t
}

fn maxp_table() -> Vec<u8> {
    let mut t = Vec::new();
    t.extend_from_slice(&0x00010000u32.to_be_bytes());
    t.extend_from_slice(&3u16.to_be_bytes()); // numGlyphs
    t
}

fn hmtx_table() -> Vec<u8> {
    let mut t = Vec::new();
    t.extend_from_slice(&500u16.to_be_bytes());
    t.extend_from_slice(&10i16.to_be_bytes());
    t.extend_from_slice(&400u16.to_be_bytes());
    t.extend_from_slice(&20i16.to_be_bytes());
    t.extend_from_slice(&30i16.to_be_bytes()); // bearing of glyph 2
    t
}

fn cmap_table() -> Vec<u8> {
    // One Microsoft UCS-2 record pointing at a format 4 subtable that maps
    // 'A' (and only 'A') to glyph 1.
    let mut t = Vec::new();
    t.extend_from_slice(&0u16.to_be_bytes()); // version
    t.extend_from_slice(&1u16.to_be_bytes()); // numTables
    t.extend_from_slice(&3u16.to_be_bytes()); // platformID
    t.extend_from_slice(&1u16.to_be_bytes()); // encodingID
    t.extend_from_slice(&12u32.to_be_bytes()); // subtable offset
    t.extend_from_slice(&4u16.to_be_bytes()); // format
    t.extend_from_slice(&32u16.to_be_bytes()); // length
    t.extend_from_slice(&0u16.to_be_bytes()); // language
    t.extend_from_slice(&4u16.to_be_bytes()); // segCountX2
    t.extend_from_slice(&0u16.to_be_bytes());
    t.extend_from_slice(&0u16.to_be_bytes());
    t.extend_from_slice(&0u16.to_be_bytes());
    t.extend_from_slice(&65u16.to_be_bytes()); // endCode[0]
    t.extend_from_slice(&0xFFFFu16.to_be_bytes());
    t.extend_from_slice(&0u16.to_be_bytes()); // reservedPad
    t.extend_from_slice(&65u16.to_be_bytes()); // startCode[0]
    t.extend_from_slice(&0xFFFFu16.to_be_bytes());
    t.extend_from_slice(&(-64i16).to_be_bytes()); // idDelta[0]: 'A' -> 1
    t.extend_from_slice(&1i16.to_be_bytes());
    t.extend_from_slice(&0u16.to_be_bytes()); // idRangeOffset[0]
    t.extend_from_slice(&0u16.to_be_bytes());
    t
}

fn simple_glyph() -> Vec<u8> {
    // One contour, three on-curve points: (10,20), (40,20), (40,45),
    // with byte-coded deltas; padded to an even length.
    let mut g = Vec::new();
    g.extend_from_slice(&1i16.to_be_bytes()); // numberOfContours
    g.extend_from_slice(&(-50i16).to_be_bytes()); // xMin
    g.extend_from_slice(&(-40i16).to_be_bytes()); // yMin
    g.extend_from_slice(&60i16.to_be_bytes()); // xMax
    g.extend_from_slice(&70i16.to_be_bytes()); // yMax
    g.extend_from_slice(&2u16.to_be_bytes()); // endPtsOfContours[0]
    g.extend_from_slice(&0u16.to_be_bytes()); // instructionLength
    g.push(0x37); // on-curve, byte x (positive), byte y (positive)
    g.push(0x33); // on-curve, byte x (positive), y unchanged
    g.push(0x35); // on-curve, x unchanged, byte y (positive)
    g.push(10); // x delta of point 0
    g.push(30); // x delta of point 1
    g.push(20); // y delta of point 0
    g.push(25); // y delta of point 2
    g.push(0); // padding to an even length
    g
}

fn compound_glyph() -> Vec<u8> {
    // One component: glyph 1 with word offsets (100, -30) and no scale.
    let mut g = Vec::new();
    g.extend_from_slice(&(-1i16).to_be_bytes()); // numberOfContours
    g.extend_from_slice(&(-50i16).to_be_bytes());
    g.extend_from_slice(&(-40i16).to_be_bytes());
    g.extend_from_slice(&60i16.to_be_bytes());
    g.extend_from_slice(&70i16.to_be_bytes());
    g.extend_from_slice(&3u16.to_be_bytes()); // ARGS_ARE_WORDS | ARGS_ARE_XY
    g.extend_from_slice(&1u16.to_be_bytes()); // component glyph index
    g.extend_from_slice(&100i16.to_be_bytes()); // dx
    g.extend_from_slice(&(-30i16).to_be_bytes()); // dy
    g
}

fn build_font() -> Vec<u8> {
    let g0 = simple_glyph();
    let g1 = simple_glyph();
    let g2 = compound_glyph();
    let mut glyf = Vec::new();
    glyf.extend_from_slice(&g0);
    glyf.extend_from_slice(&g1);
    glyf.extend_from_slice(&g2);
    // Short loca entries store half the byte offset.
    let o1 = g0.len() as u16 / 2;
    let o2 = (g0.len() + g1.len()) as u16 / 2;
    let o3 = (g0.len() + g1.len() + g2.len()) as u16 / 2;
    let mut loca = Vec::new();
    for o in [0u16, o1, o2, o3] {
        loca.extend_from_slice(&o.to_be_bytes());
    }
    let mut kern = Vec::new();
    kern.extend_from_slice(&0u16.to_be_bytes()); // version
    kern.extend_from_slice(&1u16.to_be_bytes()); // nTables
    kern.extend_from_slice(&0u16.to_be_bytes()); // subtable version
    kern.extend_from_slice(&0u16.to_be_bytes()); // subtable length
    kern.extend_from_slice(&1u16.to_be_bytes()); // coverage: horizontal
    kern.extend_from_slice(&1u16.to_be_bytes()); // nPairs
    kern.extend_from_slice(&0u16.to_be_bytes()); // searchRange
    kern.extend_from_slice(&0u16.to_be_bytes()); // entrySelector
    kern.extend_from_slice(&0u16.to_be_bytes()); // rangeShift
    kern.extend_from_slice(&0x00010002u32.to_be_bytes()); // glyph pair (1, 2)
    kern.extend_from_slice(&(-15i16).to_be_bytes()); // adjustment

    let tables: Vec<(&[u8; 4], Vec<u8>)> = vec![
        (b"cmap", cmap_table()),
        (b"glyf", glyf),
        (b"head", head_table()),
        (b"hhea", hhea_table()),
        (b"hmtx", hmtx_table()),
        (b"kern", kern),
        (b"loca", loca),
        (b"maxp", maxp_table()),
    ];
    let n = tables.len();
    let mut font = Vec::new();
    font.extend_from_slice(&[0, 1, 0, 0]); // sfnt version 1.0
    font.extend_from_slice(&(n as u16).to_be_bytes());
    font.extend_from_slice(&[0; 6]);
    let mut offset = 12 + 16 * n;
    let mut body = Vec::new();
    for (tag, bytes) in &tables {
        font.extend_from_slice(*tag);
        font.extend_from_slice(&[0; 4]); // checksum, unread
        font.extend_from_slice(&(offset as u32).to_be_bytes());
        font.extend_from_slice(&(bytes.len() as u32).to_be_bytes());
        offset += bytes.len();
        body.extend_from_slice(bytes);
    }
    font.extend_from_slice(&body);
    font
}

fn expected_triangle() -> Vec<Vertex> {
    vec![
        vertex(Cmd::Move, 10, 20, 0, 0),
        vertex(Cmd::Line, 40, 20, 0, 0),
        vertex(Cmd::Line, 40, 45, 0, 0),
        vertex(Cmd::Line, 10, 20, 0, 0),
    ]
}

#[test]
fn load_font_view() {
    let font = build_font();
    assert!(isfont(&font));
    let info = FontInfo::new_with_offset(&font, 0).unwrap();
    assert_eq!(info.num_glyphs, 3);
    assert_eq!(info.index_to_loc_format, 0);
    assert!(info.kern != 0);
    assert_eq!(get_font_offset_for_index(&font, 0), 0);
    assert_eq!(get_font_offset_for_index(&font, 1), -1);
}

#[test]
fn missing_required_table() {
    let font = build_font();
    // Damage the hmtx tag in the directory so the table goes missing.
    let mut broken = font.clone();
    let pos = broken.windows(4).position(|w| w == b"hmtx").unwrap();
    broken[pos] = b'z';
    assert_eq!(FontInfo::new_with_offset(&broken, 0).err(), Some(Error::MissingTable));
    let tiny = vec![0u8; 8];
    assert_eq!(FontInfo::new_with_offset(&tiny, 0).err(), Some(Error::Malformed));
}

#[test]
fn find_glyph_for_codepoint() {
    let font = build_font();
    let info = FontInfo::new_with_offset(&font, 0).unwrap();
    assert_eq!(find_glyph_index(&info, 'A' as u32), Ok(1));
    assert_eq!(find_glyph_index(&info, 'B' as u32), Ok(0));
}

#[test]
fn decode_simple_glyph_shape() {
    let font = build_font();
    let info = FontInfo::new_with_offset(&font, 0).unwrap();
    match get_glyph_shape(&info, 1).unwrap() {
        GlyphShape::Simple(vs) => assert_eq!(vs, expected_triangle()),
        other => panic!("expected a simple outline, got {:?}", other),
    }
    match get_codepoint_shape(&info, 'A' as u32).unwrap() {
        GlyphShape::Simple(vs) => assert_eq!(vs, expected_triangle()),
        other => panic!("expected a simple outline, got {:?}", other),
    }
}

#[test]
fn composite_identity_translates() {
    let font = build_font();
    let info = FontInfo::new_with_offset(&font, 0).unwrap();
    let comps = match get_glyph_shape(&info, 2).unwrap() {
        GlyphShape::Compound(cs) => cs,
        other => panic!("expected a composite, got {:?}", other),
    };
    assert_eq!(comps.len(), 1);
    let c = &comps[0];
    assert_eq!(c.glyph_index, 1);
    assert_eq!((c.dx, c.dy), (100, -30));
    assert_eq!((c.a, c.b, c.c, c.d), (0x4000, 0, 0, 0x4000));
    let resolved = resolve_identity_component(&info, c).unwrap().unwrap();
    let expected: Vec<Vertex> = vec![
        vertex(Cmd::Move, 110, -10, 100, -30),
        vertex(Cmd::Line, 140, -10, 100, -30),
        vertex(Cmd::Line, 140, 15, 100, -30),
        vertex(Cmd::Line, 110, -10, 100, -30),
    ];
    assert_eq!(resolved, expected);
    // The same translation applied by hand agrees.
    assert_eq!(resolved, translate_vertices(&expected_triangle(), 100, -30));
}

#[test]
fn glyph_boxes_and_offsets() {
    let font = build_font();
    let info = FontInfo::new_with_offset(&font, 0).unwrap();
    let expected = BBox { x0: -50, y0: -40, x1: 60, y1: 70 };
    assert_eq!(get_glyph_box(&info, 1), Ok(Some(expected)));
    assert_eq!(get_codepoint_box(&info, 'A' as u32), Ok(Some(expected)));
    // An out-of-range glyph index has no outline.
    assert_eq!(get_glyph_box(&info, 9), Ok(None));
    assert_eq!(get_glyph_offset(&info, 9), Ok(None));
    assert_eq!(is_glyph_empty(&info, 9), Ok(true));
    assert_eq!(is_glyph_empty(&info, 1), Ok(false));
}

#[test]
fn font_and_glyph_metrics() {
    let font = build_font();
    let info = FontInfo::new_with_offset(&font, 0).unwrap();
    assert_eq!(get_font_vmetrics(&info), Ok((800, -200, 50)));
    assert_eq!(get_font_bounding_box(&info), Ok(BBox { x0: -50, y0: -40, x1: 60, y1: 70 }));
    assert_eq!(get_glyph_hmetrics(&info, 0), Ok((500, 10)));
    assert_eq!(get_glyph_hmetrics(&info, 1), Ok((400, 20)));
    // Past numberOfHMetrics: the last advance with the listed bearing.
    assert_eq!(get_glyph_hmetrics(&info, 2), Ok((400, 30)));
    assert_eq!(get_codepoint_hmetrics(&info, 'A' as u32), Ok((400, 20)));
}

#[test]
fn kerning_pairs() {
    let font = build_font();
    let info = FontInfo::new_with_offset(&font, 0).unwrap();
    assert_eq!(get_glyph_kern_advance(&info, 1, 2), Ok(-15));
    assert_eq!(get_glyph_kern_advance(&info, 2, 1), Ok(0));
    assert_eq!(get_codepoint_kern_advance(&info, 'A' as u32, 'A' as u32), Ok(0));
    let mut no_kern = info;
    no_kern.kern = 0;
    assert_eq!(get_glyph_kern_advance(&no_kern, 1, 2), Ok(0));
}

#[test]
fn scale_identity_for_pixel_height() {
    // scale_for_pixel_height(h) * (ascent - descent) stays h.
    let font = build_font();
    let info = FontInfo::new_with_offset(&font, 0).unwrap();
    let (ascent, descent, _) = get_font_vmetrics(&info).unwrap();
    for h in [1.0f32, 12.0, 20.0, 333.5] {
        let scale = h / (ascent as f32 - descent as f32);
        assert!((scale * (ascent as f32 - descent as f32) - h).abs() < 1e-5);
    }
}

#[test]
fn setvertex_and_close_shape() {
    let mut v = vertex(Cmd::Move, 0, 0, 0, 0);
    stbtt_setvertex(&mut v, Cmd::Curve, 5, -6, 7, 8);
    assert_eq!(v, vertex(Cmd::Curve, 5, -6, 7, 8));
    let mut vs: Vec<Vertex> = Vec::new();
    close_shape(&mut vs, false, false, 10, 20, 0, 0, 0, 0);
    assert_eq!(vs, vec![vertex(Cmd::Line, 10, 20, 0, 0)]);
    let mut vs: Vec<Vertex> = Vec::new();
    close_shape(&mut vs, true, true, 1, 2, 3, 4, 5, 6);
    assert_eq!(vs, vec![vertex(Cmd::Curve, 4, 5, 5, 6), vertex(Cmd::Curve, 1, 2, 3, 4)]);
}

#[test]
fn collection_offsets() {
    let font = build_font();
    let mut ttc = Vec::new();
    ttc.extend_from_slice(b"ttcf");
    ttc.extend_from_slice(&0x00010000u32.to_be_bytes());
    ttc.extend_from_slice(&2u32.to_be_bytes()); // two fonts
    let base = 12 + 8;
    ttc.extend_from_slice(&(base as u32).to_be_bytes());
    ttc.extend_from_slice(&(base as u32).to_be_bytes());
    ttc.extend_from_slice(&font);
    assert_eq!(get_font_offset_for_index(&ttc, 0), base as i32);
    assert_eq!(get_font_offset_for_index(&ttc, 1), base as i32);
    assert_eq!(get_font_offset_for_index(&ttc, 2), -1);
    // The embedded directory's table offsets are file-absolute in a real
    // collection; this synthetic one only exercises the offset lookup.
    assert!(!isfont(&ttc));
}
