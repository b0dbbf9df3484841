//! Big-endian scalar reads out of a byte slice, and the sfnt table
//! directory walk. Every read is bounds-checked; the specification
//! functions say exactly which integer each read denotes.

use vstd::prelude::*;
use crate::Error;

verus! {

/// The big-endian 16-bit unsigned integer at byte offset `i`.
pub open spec fn u16_at(d: Seq<u8>, i: int) -> int {
    d[i] as int * 0x100 + d[i + 1] as int
}

/// The big-endian 16-bit signed integer at byte offset `i`.
pub open spec fn i16_at(d: Seq<u8>, i: int) -> int {
    if u16_at(d, i) >= 0x8000 {
        u16_at(d, i) - 0x10000
    } else {
        u16_at(d, i)
    }
}

/// The big-endian 32-bit unsigned integer at byte offset `i`.
pub open spec fn u32_at(d: Seq<u8>, i: int) -> int {
    d[i] as int * 0x100_0000 + d[i + 1] as int * 0x1_0000 + d[i + 2] as int * 0x100 + d[i + 3] as int
}

/// The big-endian 32-bit signed integer at byte offset `i`.
pub open spec fn i32_at(d: Seq<u8>, i: int) -> int {
    if u32_at(d, i) >= 0x8000_0000 {
        u32_at(d, i) - 0x1_0000_0000
    } else {
        u32_at(d, i)
    }
}

/// The big-endian 64-bit unsigned integer at byte offset `i`.
pub open spec fn u64_at(d: Seq<u8>, i: int) -> int {
    u32_at(d, i) * 0x1_0000_0000 + u32_at(d, i + 4)
}

/// The big-endian 64-bit signed integer at byte offset `i`.
pub open spec fn i64_at(d: Seq<u8>, i: int) -> int {
    if u64_at(d, i) >= 0x8000_0000_0000_0000 {
        u64_at(d, i) - 0x1_0000_0000_0000_0000
    } else {
        u64_at(d, i)
    }
}

pub fn be_u16(data: &[u8], i: usize) -> (r: u16)
    requires
        i + 2 <= data.len(),
    ensures
        r as int == u16_at(data@, i as int),
{
    data[i] as u16 * 0x100 + data[i + 1] as u16
}

pub fn be_i16(data: &[u8], i: usize) -> (r: i16)
    requires
        i + 2 <= data.len(),
    ensures
        r as int == i16_at(data@, i as int),
{
    let u: u16 = be_u16(data, i);
    if u >= 0x8000 {
        let v: i32 = u as i32 - 0x10000;
        v as i16
    } else {
        u as i16
    }
}

pub fn be_u32(data: &[u8], i: usize) -> (r: u32)
    requires
        i + 4 <= data.len(),
    ensures
        r as int == u32_at(data@, i as int),
{
    data[i] as u32 * 0x100_0000 + data[i + 1] as u32 * 0x1_0000 + data[i + 2] as u32 * 0x100
        + data[i + 3] as u32
}

pub fn be_u64(data: &[u8], i: usize) -> (r: u64)
    requires
        i + 8 <= data.len(),
    ensures
        r as int == u64_at(data@, i as int),
{
    be_u32(data, i) as u64 * 0x1_0000_0000 + be_u32(data, i + 4) as u64
}

pub fn be_i64(data: &[u8], i: usize) -> (r: i64)
    requires
        i + 8 <= data.len(),
    ensures
        r as int == i64_at(data@, i as int),
{
    let u: u64 = be_u64(data, i);
    if u >= 0x8000_0000_0000_0000 {
        let v: i128 = u as i128 - 0x1_0000_0000_0000_0000;
        v as i64
    } else {
        u as i64
    }
}

pub fn be_i32(data: &[u8], i: usize) -> (r: i32)
    requires
        i + 4 <= data.len(),
    ensures
        r as int == i32_at(data@, i as int),
{
    let u: u32 = be_u32(data, i);
    if u >= 0x8000_0000 {
        let v: i64 = u as i64 - 0x1_0000_0000;
        v as i32
    } else {
        u as i32
    }
}

/// The 16-bit unsigned integer at index `index` (in 16-bit units), or
/// `None` when either of its two bytes lies past the end of the data.
pub open spec fn spec_u16_from_raw(d: Seq<u8>, index: int) -> Option<u16> {
    if 2 * index + 2 <= d.len() {
        Some(u16_at(d, 2 * index) as u16)
    } else {
        None
    }
}

/// The 16-bit signed integer at index `index` (in 16-bit units).
pub open spec fn spec_i16_from_raw(d: Seq<u8>, index: int) -> Option<i16> {
    if 2 * index + 2 <= d.len() {
        Some(i16_at(d, 2 * index) as i16)
    } else {
        None
    }
}

pub fn read_u16_from_raw_data(data: &[u8], index: usize) -> (r: Option<u16>)
    ensures
        r == spec_u16_from_raw(data@, index as int),
{
    if data.len() >= 2 && index <= (data.len() - 2) / 2 {
        Some(be_u16(data, 2 * index))
    } else {
        None
    }
}

pub fn read_i16_from_raw_data(data: &[u8], index: usize) -> (r: Option<i16>)
    ensures
        r == spec_i16_from_raw(data@, index as int),
{
    if data.len() >= 2 && index <= (data.len() - 2) / 2 {
        Some(be_i16(data, 2 * index))
    } else {
        None
    }
}

/// The first four bytes of `bs` equal `tag`.
pub open spec fn spec_prefix_is_tag(bs: Seq<u8>, tag: Seq<u8>) -> bool {
    bs.len() >= 4 && bs[0] == tag[0] && bs[1] == tag[1] && bs[2] == tag[2] && bs[3] == tag[3]
}

/// Checks that the prefix of `bs` is equal to `tag`.
pub fn prefix_is_tag(bs: &[u8], tag: &[u8; 4]) -> (r: bool)
    ensures
        r == spec_prefix_is_tag(bs@, tag@),
{
    bs.len() >= 4 && bs[0] == tag[0] && bs[1] == tag[1] && bs[2] == tag[2] && bs[3] == tag[3]
}

/// The sfnt directory entry `j` (16 bytes at `fontstart + 12 + 16 j`) lies
/// inside the buffer and its tag field equals `tag`.
pub open spec fn entry_matches(d: Seq<u8>, fontstart: int, j: int, tag: Seq<u8>) -> bool {
    let e = fontstart + 12 + 16 * j;
    &&& e + 16 <= d.len()
    &&& d[e] == tag[0]
    &&& d[e + 1] == tag[1]
    &&& d[e + 2] == tag[2]
    &&& d[e + 3] == tag[3]
}

/// The declared entry count of the sfnt directory at `fontstart`.
pub open spec fn spec_num_tables(d: Seq<u8>, fontstart: int) -> int {
    u16_at(d, fontstart + 4)
}

/// The offset recorded by the first directory entry whose tag is `tag`,
/// walking entries `from..num_tables` in order. An entry cut short by the
/// end of the buffer ends the walk; the locator rejects such directories
/// before the walk begins.
pub open spec fn find_table_from(d: Seq<u8>, fontstart: int, tag: Seq<u8>, from: int) -> Option<int>
    decreases spec_num_tables(d, fontstart) - from,
{
    if from >= spec_num_tables(d, fontstart) || fontstart + 12 + 16 * from + 16 > d.len() {
        None
    } else if entry_matches(d, fontstart, from, tag) {
        Some(u32_at(d, fontstart + 12 + 16 * from + 8))
    } else {
        find_table_from(d, fontstart, tag, from + 1)
    }
}

/// What the table locator returns: `Malformed` when the directory header
/// itself does not fit or the declared entry count overflows the remaining
/// bytes, else the offset of the first entry tagged `tag`.
pub open spec fn spec_find_table(d: Seq<u8>, fontstart: int, tag: Seq<u8>) -> Result<Option<int>, Error> {
    if fontstart + 12 >= d.len() {
        Err(Error::Malformed)
    } else if fontstart + 12 + 16 * spec_num_tables(d, fontstart) > d.len() {
        Err(Error::Malformed)
    } else {
        Ok(find_table_from(d, fontstart, tag, 0))
    }
}

/// Attempts to find the table offset in `data` for a font table `tag`
/// starting from a `fontstart` offset.
pub fn find_table_offset(data: &[u8], fontstart: usize, tag: &[u8; 4]) -> (r: Result<Option<usize>, Error>)
    ensures
        match r {
            Ok(Some(off)) => spec_find_table(data@, fontstart as int, tag@) == Ok::<Option<int>, Error>(Some(off as int)),
            Ok(None) => spec_find_table(data@, fontstart as int, tag@) == Ok::<Option<int>, Error>(None),
            Err(e) => spec_find_table(data@, fontstart as int, tag@) == Err::<Option<int>, Error>(e),
        },
{
    if fontstart >= data.len() || data.len() - fontstart <= 12 {
        return Err(Error::Malformed);
    }
    let num_tables: usize = be_u16(data, fontstart + 4) as usize;
    let tabledir: usize = fontstart + 12;
    if (data.len() - tabledir) / 16 < num_tables {
        // The declared entry count overflows the remaining bytes.
        return Err(Error::Malformed);
    }
    let mut j: usize = 0;
    while j < num_tables
        invariant
            fontstart + 12 < data.len(),
            tabledir == fontstart + 12,
            num_tables == spec_num_tables(data@, fontstart as int),
            num_tables <= 0xFFFF,
            tabledir + 16 * num_tables <= data.len(),
            0 <= j <= num_tables,
            find_table_from(data@, fontstart as int, tag@, 0)
                == find_table_from(data@, fontstart as int, tag@, j as int),
        decreases num_tables - j,
    {
        let e = tabledir + 16 * j;
        if prefix_is_tag(slice_range(data, e, e + 16), tag) {
            let off = be_u32(data, e + 8);
            return Ok(Some(off as usize));
        }
        j = j + 1;
    }
    Ok(None)
}

/// The subslice `data[lo..hi]`.
pub fn slice_range(data: &[u8], lo: usize, hi: usize) -> (r: &[u8])
    requires
        lo <= hi <= data.len(),
    ensures
        r@ == data@.subrange(lo as int, hi as int),
{
    &data[lo..hi]
}

/// Attempts to find the table offset in `data` for a required font table
/// `tag` starting from a `fontstart` offset.
pub fn find_required_table_offset(data: &[u8], fontstart: usize, tag: &[u8; 4]) -> (r: Result<usize, Error>)
    ensures
        match r {
            Ok(off) => spec_find_table(data@, fontstart as int, tag@) == Ok::<Option<int>, Error>(Some(off as int)),
            Err(Error::MissingTable) => spec_find_table(data@, fontstart as int, tag@)
                == Ok::<Option<int>, Error>(None),
            Err(e) => spec_find_table(data@, fontstart as int, tag@) == Err::<Option<int>, Error>(e),
        },
{
    match find_table_offset(data, fontstart, tag) {
        Ok(Some(offset)) => Ok(offset),
        Ok(None) => Err(Error::MissingTable),
        Err(e) => Err(e),
    }
}

} // verus!
