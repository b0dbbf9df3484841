//! Codepoint lookup across the supported cmap subtable formats: each
//! synthetic single-format table returns its literal mapped value, and 0
//! for codepoints outside any mapped range.

use piston_truetype::font::FontInfo;
use piston_truetype::glyph_index::find_glyph_index;
use piston_truetype::tables::cmap::{Format0, Format1213, Format4, Format6, CMAP, Format};
use piston_truetype::Error;

fn info_with_map<'a>(data: &'a [u8], index_map: usize) -> FontInfo<'a> {
    FontInfo {
        data,
        fontstart: 0,
        num_glyphs: 0,
        loca: 0,
        head: 0,
        glyf: 0,
        hhea: 0,
        hmtx: 0,
        kern: 0,
        index_map,
        index_to_loc_format: 0,
    }
}

fn format0_table() -> Vec<u8> {
    let mut t = Vec::new();
    t.extend_from_slice(&0u16.to_be_bytes()); // format
    t.extend_from_slice(&262u16.to_be_bytes()); // length
    t.extend_from_slice(&0u16.to_be_bytes()); // language
    for i in 0..256u32 {
        t.push((i % 7) as u8);
    }
    t
}

#[test]
fn format0_lookup() {
    let t = format0_table();
    let info = info_with_map(&t, 0);
    assert_eq!(find_glyph_index(&info, 65), Ok(65 % 7));
    assert_eq!(find_glyph_index(&info, 255), Ok(255 % 7));
    assert_eq!(find_glyph_index(&info, 256), Ok(0));
    assert_eq!(find_glyph_index(&info, 100_000), Ok(0));
}

#[test]
fn format0_struct_lookup() {
    let t = format0_table();
    let f = Format0::from_data(&t, 0).unwrap();
    assert_eq!(f.length, 262);
    assert_eq!(f.index_for_code(65), Some((65 % 7) as usize));
    assert_eq!(f.index_for_code(256), None);
    assert_eq!(Format0::from_data(&t[..100], 0), Err(Error::Malformed));
}

fn format4_table() -> Vec<u8> {
    // Two segments: [65, 90] maps directly with idDelta so that 'A' is
    // glyph 1 ('B' glyph 2, and so on), and the required final segment
    // [0xFFFF, 0xFFFF] maps to 0 by wrap-around.
    let mut t = Vec::new();
    t.extend_from_slice(&4u16.to_be_bytes()); // format
    t.extend_from_slice(&32u16.to_be_bytes()); // length
    t.extend_from_slice(&0u16.to_be_bytes()); // language
    t.extend_from_slice(&4u16.to_be_bytes()); // segCountX2
    t.extend_from_slice(&0u16.to_be_bytes()); // searchRange
    t.extend_from_slice(&0u16.to_be_bytes()); // entrySelector
    t.extend_from_slice(&0u16.to_be_bytes()); // rangeShift
    t.extend_from_slice(&65u16.to_be_bytes()); // endCode[0]
    t.extend_from_slice(&0xFFFFu16.to_be_bytes()); // endCode[1]
    t.extend_from_slice(&0u16.to_be_bytes()); // reservedPad
    t.extend_from_slice(&65u16.to_be_bytes()); // startCode[0]
    t.extend_from_slice(&0xFFFFu16.to_be_bytes()); // startCode[1]
    t.extend_from_slice(&(-64i16).to_be_bytes()); // idDelta[0]
    t.extend_from_slice(&1i16.to_be_bytes()); // idDelta[1]
    t.extend_from_slice(&0u16.to_be_bytes()); // idRangeOffset[0]
    t.extend_from_slice(&0u16.to_be_bytes()); // idRangeOffset[1]
    t
}

#[test]
fn format4_direct_lookup() {
    let t = format4_table();
    let info = info_with_map(&t, 0);
    assert_eq!(find_glyph_index(&info, 65), Ok(1));
    // Below the segment's start code: unmapped.
    assert_eq!(find_glyph_index(&info, 64), Ok(0));
    // Between the segments: the candidate's start code rejects it.
    assert_eq!(find_glyph_index(&info, 66), Ok(0));
    // Beyond the 16-bit range: unmapped.
    assert_eq!(find_glyph_index(&info, 0x10000), Ok(0));
}

fn format4_indirect_table() -> Vec<u8> {
    // One mapped segment [10, 12] looked up through the glyphIdArray, and
    // the final [0xFFFF, 0xFFFF] segment. The glyphIdArray holds the
    // values 77, 88, 99, 111; with idRangeOffset 2 the lookup index is
    // 1 + (code - 10).
    let mut t = Vec::new();
    t.extend_from_slice(&4u16.to_be_bytes());
    t.extend_from_slice(&40u16.to_be_bytes()); // length: 32 + 8 array bytes
    t.extend_from_slice(&0u16.to_be_bytes());
    t.extend_from_slice(&4u16.to_be_bytes()); // segCountX2
    t.extend_from_slice(&0u16.to_be_bytes());
    t.extend_from_slice(&0u16.to_be_bytes());
    t.extend_from_slice(&0u16.to_be_bytes());
    t.extend_from_slice(&12u16.to_be_bytes()); // endCode[0]
    t.extend_from_slice(&0xFFFFu16.to_be_bytes());
    t.extend_from_slice(&0u16.to_be_bytes()); // reservedPad
    t.extend_from_slice(&10u16.to_be_bytes()); // startCode[0]
    t.extend_from_slice(&0xFFFFu16.to_be_bytes());
    t.extend_from_slice(&0i16.to_be_bytes()); // idDelta[0]
    t.extend_from_slice(&1i16.to_be_bytes());
    t.extend_from_slice(&2u16.to_be_bytes()); // idRangeOffset[0]
    t.extend_from_slice(&0u16.to_be_bytes());
    for g in [77u16, 88, 99, 111] {
        t.extend_from_slice(&g.to_be_bytes());
    }
    t
}

#[test]
fn format4_indirect_lookup() {
    let t = format4_indirect_table();
    let info = info_with_map(&t, 0);
    assert_eq!(find_glyph_index(&info, 10), Ok(88));
    assert_eq!(find_glyph_index(&info, 11), Ok(99));
    assert_eq!(find_glyph_index(&info, 12), Ok(111));
    assert_eq!(find_glyph_index(&info, 13), Ok(0));
    let f = Format4::from_data(&t, 0).unwrap();
    assert_eq!(f.index_for_code(10), Some(88));
    assert_eq!(f.index_for_code(13), None);
    let seg = f.segment_at_index(0).unwrap();
    assert_eq!(seg.start_code, 10);
    assert_eq!(seg.end_code, 12);
    assert_eq!(seg.id_range_offset, 2);
}

fn format6_table() -> Vec<u8> {
    let mut t = Vec::new();
    t.extend_from_slice(&6u16.to_be_bytes()); // format
    t.extend_from_slice(&16u16.to_be_bytes()); // length
    t.extend_from_slice(&0u16.to_be_bytes()); // language
    t.extend_from_slice(&100u16.to_be_bytes()); // firstCode
    t.extend_from_slice(&3u16.to_be_bytes()); // entryCount
    for g in [5u16, 6, 7] {
        t.extend_from_slice(&g.to_be_bytes());
    }
    t
}

#[test]
fn format6_lookup() {
    let t = format6_table();
    let info = info_with_map(&t, 0);
    assert_eq!(find_glyph_index(&info, 100), Ok(5));
    assert_eq!(find_glyph_index(&info, 102), Ok(7));
    assert_eq!(find_glyph_index(&info, 99), Ok(0));
    assert_eq!(find_glyph_index(&info, 103), Ok(0));
    let f = Format6::from_data(&t, 0).unwrap();
    assert_eq!(f.index_for_code(101), Some(6));
    assert_eq!(f.index_for_code(99), None);
}

fn format12_table(format: u16) -> Vec<u8> {
    // Two sorted groups: [100, 110] starting at glyph 50, and the single
    // code 200 at glyph 99.
    let mut t = Vec::new();
    t.extend_from_slice(&format.to_be_bytes());
    t.extend_from_slice(&0u16.to_be_bytes()); // reserved
    t.extend_from_slice(&40u32.to_be_bytes()); // length
    t.extend_from_slice(&0u32.to_be_bytes()); // language
    t.extend_from_slice(&2u32.to_be_bytes()); // nGroups
    for (s, e, g) in [(100u32, 110u32, 50u32), (200, 200, 99)] {
        t.extend_from_slice(&s.to_be_bytes());
        t.extend_from_slice(&e.to_be_bytes());
        t.extend_from_slice(&g.to_be_bytes());
    }
    t
}

#[test]
fn format12_lookup() {
    let t = format12_table(12);
    let info = info_with_map(&t, 0);
    assert_eq!(find_glyph_index(&info, 100), Ok(50));
    assert_eq!(find_glyph_index(&info, 105), Ok(55));
    assert_eq!(find_glyph_index(&info, 200), Ok(99));
    assert_eq!(find_glyph_index(&info, 150), Ok(0));
    assert_eq!(find_glyph_index(&info, 99), Ok(0));
    assert_eq!(find_glyph_index(&info, 201), Ok(0));
}

#[test]
fn format13_lookup() {
    // Format 13: the whole group maps to the constant start glyph.
    let t = format12_table(13);
    let info = info_with_map(&t, 0);
    assert_eq!(find_glyph_index(&info, 100), Ok(50));
    assert_eq!(find_glyph_index(&info, 105), Ok(50));
    assert_eq!(find_glyph_index(&info, 200), Ok(99));
    assert_eq!(find_glyph_index(&info, 150), Ok(0));
}

#[test]
fn format1213_struct_lookup() {
    let t = format12_table(12);
    let f = Format1213::from_data(&t, 0).unwrap();
    assert_eq!(f.n_groups, 2);
    assert_eq!(f.index_for_code(105), Some(55));
    assert_eq!(f.index_for_code(150), None);
}

#[test]
fn format2_is_unsupported() {
    let t = vec![0u8, 2, 0, 10, 0, 0, 0, 0, 0, 0];
    let info = info_with_map(&t, 0);
    assert_eq!(find_glyph_index(&info, 65), Err(Error::CMAPFormatIsNotSupported));
}

#[test]
fn truncated_subtable_is_malformed() {
    // A format 12 header that declares more groups than the bytes hold.
    let mut t = format12_table(12);
    t.truncate(20);
    let info = info_with_map(&t, 0);
    assert_eq!(find_glyph_index(&info, 100), Err(Error::Malformed));
    // An index map past the end of the buffer.
    let info = info_with_map(&t, 1000);
    assert_eq!(find_glyph_index(&info, 100), Err(Error::Malformed));
}

fn cmap_with_records(records: &[(u16, u16, u32)], subtables: &[Vec<u8>]) -> Vec<u8> {
    let mut t = Vec::new();
    t.extend_from_slice(&0u16.to_be_bytes()); // version
    t.extend_from_slice(&(records.len() as u16).to_be_bytes());
    for (pid, eid, off) in records {
        t.extend_from_slice(&pid.to_be_bytes());
        t.extend_from_slice(&eid.to_be_bytes());
        t.extend_from_slice(&off.to_be_bytes());
    }
    for sub in subtables {
        t.extend_from_slice(sub);
    }
    t
}

#[test]
fn cmap_selects_by_priority() {
    // A Microsoft UCS-2 record first, a full Unicode 2.0 record second:
    // the Unicode record wins despite coming later.
    let sub_ms = format6_table();
    let sub_uni = {
        let mut t = format6_table();
        // Same shape, different first code so the choice is observable.
        t[6] = 0;
        t[7] = 10;
        t
    };
    let first_off = 4 + 2 * 8;
    let records = [
        (3u16, 1u16, first_off as u32),
        (0u16, 4u16, (first_off + sub_ms.len()) as u32),
    ];
    let data = cmap_with_records(&records, &[sub_ms, sub_uni]);
    let cmap = CMAP::from_data(&data, 0).unwrap();
    assert_eq!(cmap.index_map(), first_off + 16);
    match cmap.format {
        Format::F6(f) => {
            assert_eq!(f.first_code, 10);
            assert_eq!(f.index_for_code(10), Some(5));
        },
        _ => panic!("wrong subtable format selected"),
    }
}

#[test]
fn cmap_truncated_records_are_malformed() {
    // The declared subtable count exceeds the available bytes.
    let data = cmap_with_records(&[(3, 1, 20)], &[]);
    let mut short = data.clone();
    short.truncate(8);
    assert_eq!(CMAP::from_data(&short, 0), Err(Error::Malformed));
    let tiny = vec![0u8, 0, 0];
    assert_eq!(CMAP::from_data(&tiny, 0), Err(Error::Malformed));
}

#[test]
fn cmap_without_recognized_encoding() {
    // One record with an unrecognized platform id.
    let data = cmap_with_records(&[(1, 0, 20)], &[format6_table()]);
    assert_eq!(CMAP::from_data(&data, 0), Err(Error::CMAPEncodingSubtableIsNotSupported));
}
