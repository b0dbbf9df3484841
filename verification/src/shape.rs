//! Glyph outline decoding: `loca` offsets, glyph bounding boxes, and the
//! decoding of simple and composite glyph records into vertex commands.

use vstd::prelude::*;
use crate::Error;
use crate::raw::{u16_at, i16_at, u32_at, be_u16, be_i16, be_u32};
use crate::types::BBox;
use crate::font::FontInfo;

verus! {

/// The kind of one vertex command.
#[derive(Debug, PartialEq, Eq, Clone, Copy, Structural)]
pub enum Cmd {
    Move,
    Line,
    Curve,
}

/// One vertex command in font design units: the endpoint, and for a curve
/// the quadratic control point.
#[derive(Debug, PartialEq, Eq, Clone, Copy, Structural)]
pub struct Vertex {
    pub x: i16,
    pub y: i16,
    pub cx: i16,
    pub cy: i16,
    pub type_: Cmd,
    pub flags: u8,
}

/// The 16-bit truncation of `x`, as storing a wider coordinate into a
/// vertex demands.
pub open spec fn as_i16(x: int) -> i16 {
    x as i16
}

/// The floor of `(a + b) / 2`, as the arithmetic right shift computes it.
pub open spec fn mid(a: int, b: int) -> int {
    (a + b) / 2
}

/// The signed byte at offset `i`.
pub open spec fn i8_at(d: Seq<u8>, i: int) -> int {
    if d[i] >= 0x80 {
        d[i] - 0x100
    } else {
        d[i] as int
    }
}

pub fn stbtt_setvertex(v: &mut Vertex, type_: Cmd, x: i32, y: i32, cx: i32, cy: i32)
    ensures
        *final(v) == (Vertex {
            type_,
            x: as_i16(x as int),
            y: as_i16(y as int),
            cx: as_i16(cx as int),
            cy: as_i16(cy as int),
            flags: old(v).flags,
        }),
{
    v.type_ = type_;
    v.x = #[verifier::truncate] (x as i16);
    v.y = #[verifier::truncate] (y as i16);
    v.cx = #[verifier::truncate] (cx as i16);
    v.cy = #[verifier::truncate] (cy as i16);
}

/// The midpoint of two 16-bit coordinates, rounded toward negative
/// infinity as an arithmetic right shift would round it.
fn mid16(a: i16, b: i16) -> (r: i16)
    ensures
        r as int == mid(a as int, b as int),
{
    let s: i32 = a as i32 + b as i32;
    let u: u32 = (s + 0x10000) as u32;
    let h: i32 = (u / 2) as i32 - 0x8000;
    proof {
        assert((s + 0x10000) / 2 == s / 2 + 0x8000) by (nonlinear_arith);
    }
    h as i16
}

/// The flag bytes of a simple glyph: one flag per point, with bit 3
/// marking a repeat count byte. `None` when a read runs past the buffer.
/// Returns the flags together with the position after them.
pub open spec fn flags_from(
    d: Seq<u8>,
    pos: int,
    remaining: int,
    flagcount: int,
    cur: u8,
    acc: Seq<u8>,
) -> Option<(Seq<u8>, int)>
    decreases remaining,
{
    if remaining <= 0 {
        Some((acc, pos))
    } else if flagcount > 0 {
        flags_from(d, pos, remaining - 1, flagcount - 1, cur, acc.push(cur))
    } else if pos + 1 > d.len() {
        None
    } else {
        let f = d[pos];
        if f & 8 != 0 {
            if pos + 2 > d.len() {
                None
            } else {
                flags_from(d, pos + 2, remaining - 1, d[pos + 1] as int, f, acc.push(f))
            }
        } else {
            flags_from(d, pos + 1, remaining - 1, 0, f, acc.push(f))
        }
    }
}

/// The x coordinates of a simple glyph: delta-decoded by the flag bits
/// (bit 1: one unsigned byte whose sign is flag bit 4; else, unless bit 4
/// says "same as previous", a signed 16-bit delta). Each stored value is
/// the running sum truncated to 16 bits. Returns the coordinates together
/// with the position after them.
pub open spec fn xs_from(
    d: Seq<u8>,
    pos: int,
    flags: Seq<u8>,
    i: int,
    x: int,
    acc: Seq<i16>,
) -> Option<(Seq<i16>, int)>
    decreases flags.len() - i,
{
    if i >= flags.len() {
        Some((acc, pos))
    } else {
        let f = flags[i];
        if f & 2 != 0 {
            if pos + 1 > d.len() {
                None
            } else {
                let nx = if f & 16 != 0 {
                    x + d[pos]
                } else {
                    x - d[pos]
                };
                xs_from(d, pos + 1, flags, i + 1, nx, acc.push(as_i16(nx)))
            }
        } else if f & 16 == 0 {
            if pos + 2 > d.len() {
                None
            } else {
                let nx = x + i16_at(d, pos);
                xs_from(d, pos + 2, flags, i + 1, nx, acc.push(as_i16(nx)))
            }
        } else {
            xs_from(d, pos, flags, i + 1, x, acc.push(as_i16(x)))
        }
    }
}

/// The y coordinates: as the x coordinates, with flag bits 2 and 5.
pub open spec fn ys_from(
    d: Seq<u8>,
    pos: int,
    flags: Seq<u8>,
    i: int,
    y: int,
    acc: Seq<i16>,
) -> Option<(Seq<i16>, int)>
    decreases flags.len() - i,
{
    if i >= flags.len() {
        Some((acc, pos))
    } else {
        let f = flags[i];
        if f & 4 != 0 {
            if pos + 1 > d.len() {
                None
            } else {
                let ny = if f & 32 != 0 {
                    y + d[pos]
                } else {
                    y - d[pos]
                };
                ys_from(d, pos + 1, flags, i + 1, ny, acc.push(as_i16(ny)))
            }
        } else if f & 32 == 0 {
            if pos + 2 > d.len() {
                None
            } else {
                let ny = y + i16_at(d, pos);
                ys_from(d, pos + 2, flags, i + 1, ny, acc.push(as_i16(ny)))
            }
        } else {
            ys_from(d, pos, flags, i + 1, y, acc.push(as_i16(y)))
        }
    }
}

/// A vertex built from wide coordinates, each truncated to 16 bits.
pub open spec fn vert(type_: Cmd, x: int, y: int, cx: int, cy: int) -> Vertex {
    Vertex { type_, x: as_i16(x), y: as_i16(y), cx: as_i16(cx), cy: as_i16(cy), flags: 0 }
}

/// What closing a contour appends: replay the off-curve/on-curve
/// resolution back to the (possibly synthesized) start point.
pub open spec fn spec_close_shape(
    acc: Seq<Vertex>,
    was_off: bool,
    start_off: bool,
    sx: int,
    sy: int,
    scx: int,
    scy: int,
    cx: int,
    cy: int,
) -> Seq<Vertex> {
    if start_off {
        let acc1 = if was_off {
            acc.push(vert(Cmd::Curve, mid(cx, scx), mid(cy, scy), cx, cy))
        } else {
            acc
        };
        acc1.push(vert(Cmd::Curve, sx, sy, scx, scy))
    } else {
        if was_off {
            acc.push(vert(Cmd::Curve, sx, sy, cx, cy))
        } else {
            acc.push(vert(Cmd::Line, sx, sy, 0, 0))
        }
    }
}

/// Closes a contour: appends the vertex commands that lead back to the
/// contour's start point.
pub fn close_shape(
    vertices: &mut Vec<Vertex>,
    was_off: bool,
    start_off: bool,
    sx: i16,
    sy: i16,
    scx: i16,
    scy: i16,
    cx: i16,
    cy: i16,
)
    ensures
        final(vertices)@ == spec_close_shape(
            old(vertices)@, was_off, start_off,
            sx as int, sy as int, scx as int, scy as int, cx as int, cy as int,
        ),
{
    if start_off {
        if was_off {
            let mx = mid16(cx, scx);
            let my = mid16(cy, scy);
            vertices.push(Vertex { type_: Cmd::Curve, x: mx, y: my, cx, cy, flags: 0 });
        }
        vertices.push(Vertex { type_: Cmd::Curve, x: sx, y: sy, cx: scx, cy: scy, flags: 0 });
    } else {
        if was_off {
            vertices.push(Vertex { type_: Cmd::Curve, x: sx, y: sy, cx, cy, flags: 0 });
        } else {
            vertices.push(Vertex { type_: Cmd::Line, x: sx, y: sy, cx: 0, cy: 0, flags: 0 });
        }
    }
}

/// The conversion automaton's state: the point index, where the current
/// contour ends, the contour count so far, the pending off-curve control
/// point, the contour's (possibly synthesized) start point, and the
/// vertices emitted so far.
pub ghost struct ConvState {
    pub i: int,
    pub next_move: int,
    pub j: int,
    pub was_off: bool,
    pub start_off: bool,
    pub sx: int,
    pub sy: int,
    pub scx: int,
    pub scy: int,
    pub cx: int,
    pub cy: int,
    pub acc: Seq<Vertex>,
}

/// The vertex commands that the point records `f[st.i..]`, `xs`, `ys`
/// yield from state `st`: a contour starts at each recorded end boundary
/// (an off-curve first point gets a synthesized on-curve start), runs of
/// off-curve points synthesize on-curve midpoints, and the last contour is
/// closed at the end. `None` when the records are inconsistent: more
/// contours than recorded ends, or a contour starting off-curve at the
/// very last point.
pub open spec fn conv_from(
    f: Seq<u8>,
    xs: Seq<i16>,
    ys: Seq<i16>,
    ends: Seq<u16>,
    st: ConvState,
) -> Option<Seq<Vertex>>
    decreases f.len() - st.i,
{
    if st.i >= f.len() {
        Some(spec_close_shape(
            st.acc, st.was_off, st.start_off, st.sx, st.sy, st.scx, st.scy, st.cx, st.cy,
        ))
    } else {
        let fl = f[st.i];
        let x = xs[st.i] as int;
        let y = ys[st.i] as int;
        if st.next_move == st.i {
            if st.j >= ends.len() {
                None
            } else {
                let acc0 = if st.i != 0 {
                    spec_close_shape(
                        st.acc, st.was_off, st.start_off, st.sx, st.sy, st.scx, st.scy, st.cx,
                        st.cy,
                    )
                } else {
                    st.acc
                };
                let start_off = fl & 1 == 0;
                if start_off {
                    if st.i + 1 >= f.len() {
                        None
                    } else {
                        let next_on = f[st.i + 1] & 1 != 0;
                        let sx = if next_on { xs[st.i + 1] as int } else { mid(x, xs[st.i + 1] as int) };
                        let sy = if next_on { ys[st.i + 1] as int } else { mid(y, ys[st.i + 1] as int) };
                        conv_from(f, xs, ys, ends, ConvState {
                            i: st.i + if next_on { 2int } else { 1int },
                            next_move: 1 + ends[st.j] as int,
                            j: st.j + 1,
                            was_off: false,
                            start_off,
                            sx,
                            sy,
                            scx: x,
                            scy: y,
                            cx: st.cx,
                            cy: st.cy,
                            acc: acc0.push(vert(Cmd::Move, sx, sy, 0, 0)),
                        })
                    }
                } else {
                    conv_from(f, xs, ys, ends, ConvState {
                        i: st.i + 1,
                        next_move: 1 + ends[st.j] as int,
                        j: st.j + 1,
                        was_off: false,
                        start_off,
                        sx: x,
                        sy: y,
                        scx: st.scx,
                        scy: st.scy,
                        cx: st.cx,
                        cy: st.cy,
                        acc: acc0.push(vert(Cmd::Move, x, y, 0, 0)),
                    })
                }
            }
        } else {
            if fl & 1 == 0 {
                let acc1 = if st.was_off {
                    st.acc.push(vert(Cmd::Curve, mid(st.cx, x), mid(st.cy, y), st.cx, st.cy))
                } else {
                    st.acc
                };
                conv_from(f, xs, ys, ends, ConvState {
                    i: st.i + 1,
                    cx: x,
                    cy: y,
                    was_off: true,
                    acc: acc1,
                    ..st
                })
            } else {
                let acc1 = if st.was_off {
                    st.acc.push(vert(Cmd::Curve, x, y, st.cx, st.cy))
                } else {
                    st.acc.push(vert(Cmd::Line, x, y, 0, 0))
                };
                conv_from(f, xs, ys, ends, ConvState {
                    i: st.i + 1,
                    was_off: false,
                    acc: acc1,
                    ..st
                })
            }
        }
    }
}

/// The state every simple-glyph conversion starts from.
pub open spec fn conv_init() -> ConvState {
    ConvState {
        i: 0,
        next_move: 0,
        j: 0,
        was_off: false,
        start_off: false,
        sx: 0,
        sy: 0,
        scx: 0,
        scy: 0,
        cx: 0,
        cy: 0,
        acc: Seq::empty(),
    }
}

/// The vertex commands of the simple glyph record at `g` (whose contour
/// count `i16_at(d, g)` is positive): contour end indices, instruction
/// bytes skipped, run-length flag decoding, delta-coded x then y
/// coordinates, then the conversion automaton. `None` when any read runs
/// past the buffer or the records are inconsistent.
pub open spec fn spec_simple_glyph(d: Seq<u8>, g: int) -> Option<Seq<Vertex>> {
    let nc = i16_at(d, g);
    if g + 10 + 2 * nc + 2 > d.len() {
        None
    } else {
        let n_points = 1 + u16_at(d, g + 10 + 2 * (nc - 1));
        let ins = u16_at(d, g + 10 + 2 * nc);
        let p0 = g + 10 + 2 * nc + 2 + ins;
        let ends = Seq::new(nc as nat, |k: int| u16_at(d, g + 10 + 2 * k) as u16);
        match flags_from(d, p0, n_points, 0, 0, Seq::empty()) {
            None => None,
            Some(fr) => match xs_from(d, fr.1, fr.0, 0, 0, Seq::empty()) {
                None => None,
                Some(xr) => match ys_from(d, xr.1, fr.0, 0, 0, Seq::empty()) {
                    None => None,
                    Some(yr) => conv_from(fr.0, xr.0, yr.0, ends, conv_init()),
                },
            },
        }
    }
}

/// One component of a composite glyph: the referenced glyph, the x and y
/// offsets in font units, and the 2x2 transform as raw F2Dot14 values
/// (16384 stands for one).
#[derive(Debug, PartialEq, Eq, Clone, Copy, Structural)]
pub struct Component {
    pub flags: u16,
    pub glyph_index: u16,
    pub dx: i32,
    pub dy: i32,
    pub a: i32,
    pub b: i32,
    pub c: i32,
    pub d: i32,
}

/// The component records of a composite glyph starting at `pos`: a flags
/// word and glyph index, word or byte offsets (point-matching components,
/// with flag bit 1 clear, are unsupported and malformed), an optional
/// scale (uniform, separate x/y, or a full 2x2 matrix, each entry raw
/// F2Dot14), repeated while the more-components bit is set. `None` when a
/// read runs past the buffer or a component matches points.
pub open spec fn comps_from(d: Seq<u8>, pos: int, acc: Seq<Component>) -> Option<Seq<Component>>
    decreases d.len() - pos,
{
    if pos + 4 > d.len() {
        None
    } else {
        let flags = u16_at(d, pos);
        let gidx = u16_at(d, pos + 2);
        let cur = pos + 4;
        if flags % 4 < 2 {
            None
        } else {
            let off = if flags % 2 == 1 {
                if cur + 4 > d.len() {
                    None
                } else {
                    Some((i16_at(d, cur) as int, i16_at(d, cur + 2) as int, cur + 4))
                }
            } else {
                if cur + 2 > d.len() {
                    None
                } else {
                    Some((i8_at(d, cur), i8_at(d, cur + 1), cur + 2))
                }
            };
            match off {
                None => None,
                Some(o) => {
                    let cur = o.2;
                    let sc = if flags / 8 % 2 == 1 {
                        if cur + 2 > d.len() {
                            None
                        } else {
                            Some((i16_at(d, cur), 0int, 0int, i16_at(d, cur), cur + 2))
                        }
                    } else if flags / 0x40 % 2 == 1 {
                        if cur + 4 > d.len() {
                            None
                        } else {
                            Some((i16_at(d, cur), 0int, 0int, i16_at(d, cur + 2), cur + 4))
                        }
                    } else if flags / 0x80 % 2 == 1 {
                        if cur + 8 > d.len() {
                            None
                        } else {
                            Some((
                                i16_at(d, cur),
                                i16_at(d, cur + 2),
                                i16_at(d, cur + 4),
                                i16_at(d, cur + 6),
                                cur + 8,
                            ))
                        }
                    } else {
                        Some((0x4000int, 0int, 0int, 0x4000int, cur))
                    };
                    match sc {
                        None => None,
                        Some(s) => {
                            let acc1 = acc.push(Component {
                                flags: u16_at(d, pos) as u16,
                                glyph_index: u16_at(d, pos + 2) as u16,
                                dx: o.0 as i32,
                                dy: o.1 as i32,
                                a: s.0 as i32,
                                b: s.1 as i32,
                                c: s.2 as i32,
                                d: s.3 as i32,
                            });
                            if flags / 0x20 % 2 == 1 {
                                comps_from(d, s.4, acc1)
                            } else {
                                Some(acc1)
                            }
                        },
                    }
                },
            }
        }
    }
}

/// A lone component record with word offsets and none of the scale bits
/// decodes to exactly one component: the referenced glyph with the stored
/// offsets under the identity transform. Together with the contract of
/// `resolve_identity_component`, such a composite resolves to the
/// referenced outline translated by its offsets.
pub proof fn lemma_scale_free_component_is_identity(d: Seq<u8>, pos: int)
    requires
        0 <= pos,
        pos + 8 <= d.len(),
        u16_at(d, pos) % 2 == 1,  // offsets are words
        u16_at(d, pos) % 4 >= 2,  // offsets are x and y values
        u16_at(d, pos) / 8 % 2 == 0,  // no uniform scale
        u16_at(d, pos) / 0x40 % 2 == 0,  // no separate x/y scale
        u16_at(d, pos) / 0x80 % 2 == 0,  // no 2x2 matrix
        u16_at(d, pos) / 0x20 % 2 == 0,  // no further components
    ensures
        comps_from(d, pos, Seq::empty()) == Some(seq![Component {
            flags: u16_at(d, pos) as u16,
            glyph_index: u16_at(d, pos + 2) as u16,
            dx: i16_at(d, pos + 4) as i32,
            dy: i16_at(d, pos + 6) as i32,
            a: 0x4000,
            b: 0,
            c: 0,
            d: 0x4000,
        }]),
        comps_from(d, pos, Seq::empty()) matches Some(cs) && cs.len() == 1
            && is_identity_transform(cs[0]),
{
    assert(Seq::<Component>::empty().push(Component {
        flags: u16_at(d, pos) as u16,
        glyph_index: u16_at(d, pos + 2) as u16,
        dx: i16_at(d, pos + 4) as i32,
        dy: i16_at(d, pos + 6) as i32,
        a: 0x4000,
        b: 0,
        c: 0,
        d: 0x4000,
    }) =~= seq![Component {
        flags: u16_at(d, pos) as u16,
        glyph_index: u16_at(d, pos + 2) as u16,
        dx: i16_at(d, pos + 4) as i32,
        dy: i16_at(d, pos + 6) as i32,
        a: 0x4000,
        b: 0,
        c: 0,
        d: 0x4000,
    }]);
}

/// The byte offset of a glyph's record inside the buffer: `None` for an
/// out-of-range index, an unknown loca entry format, or a zero-length
/// record (all drawn as whitespace); `Malformed` when the loca entry
/// itself lies past the buffer.
pub open spec fn spec_glyph_offset(
    d: Seq<u8>,
    loca: int,
    glyf: int,
    num_glyphs: int,
    ilf: int,
    gi: int,
) -> Result<Option<int>, Error> {
    if gi >= num_glyphs {
        Ok(None)
    } else if ilf == 0 {
        if loca + 2 * gi + 4 > d.len() {
            Err(Error::Malformed)
        } else {
            let o1 = 2 * u16_at(d, loca + 2 * gi);
            let o2 = 2 * u16_at(d, loca + 2 * gi + 2);
            if o1 == o2 {
                Ok(None)
            } else if glyf + o1 > usize::MAX as int {
                Err(Error::Malformed)
            } else {
                Ok(Some(glyf + o1))
            }
        }
    } else if ilf == 1 {
        if loca + 4 * gi + 8 > d.len() {
            Err(Error::Malformed)
        } else {
            let o1 = u32_at(d, loca + 4 * gi);
            let o2 = u32_at(d, loca + 4 * gi + 4);
            if o1 == o2 {
                Ok(None)
            } else if glyf + o1 > usize::MAX as int {
                Err(Error::Malformed)
            } else {
                Ok(Some(glyf + o1))
            }
        }
    } else {
        Ok(None)
    }
}

/// Resolves a glyph index through `loca` to the byte offset of its record;
/// `None` stands for a glyph with no outline.
pub fn get_glyph_offset(info: &FontInfo, glyph_index: usize) -> (r: Result<Option<usize>, Error>)
    ensures
        match r {
            Ok(Some(g)) => spec_glyph_offset(
                info.data@, info.loca as int, info.glyf as int, info.num_glyphs as int,
                info.index_to_loc_format as int, glyph_index as int,
            ) == Ok::<Option<int>, Error>(Some(g as int)),
            Ok(None) => spec_glyph_offset(
                info.data@, info.loca as int, info.glyf as int, info.num_glyphs as int,
                info.index_to_loc_format as int, glyph_index as int,
            ) == Ok::<Option<int>, Error>(None),
            Err(e) => spec_glyph_offset(
                info.data@, info.loca as int, info.glyf as int, info.num_glyphs as int,
                info.index_to_loc_format as int, glyph_index as int,
            ) == Err::<Option<int>, Error>(e),
        },
{
    let d = info.data;
    if glyph_index >= info.num_glyphs {
        return Ok(None);
    }
    if info.index_to_loc_format == 0 {
        if info.loca > d.len()
            || d.len() - info.loca < 4 || (d.len() - info.loca - 4) / 2 < glyph_index {
            return Err(Error::Malformed);
        }
        let o1 = 2 * be_u16(d, info.loca + 2 * glyph_index) as usize;
        let o2 = 2 * be_u16(d, info.loca + 2 * glyph_index + 2) as usize;
        if o1 == o2 {
            Ok(None)
        } else {
            match info.glyf.checked_add(o1) {
                Some(g) => Ok(Some(g)),
                None => Err(Error::Malformed),
            }
        }
    } else if info.index_to_loc_format == 1 {
        if info.loca > d.len()
            || d.len() - info.loca < 8 || (d.len() - info.loca - 8) / 4 < glyph_index {
            return Err(Error::Malformed);
        }
        let o1 = be_u32(d, info.loca + 4 * glyph_index) as usize;
        let o2 = be_u32(d, info.loca + 4 * glyph_index + 4) as usize;
        if o1 == o2 {
            Ok(None)
        } else {
            match info.glyf.checked_add(o1) {
                Some(g) => Ok(Some(g)),
                None => Err(Error::Malformed),
            }
        }
    } else {
        Ok(None)
    }
}

/// The bounding box stored in a glyph record: `None` for a glyph with no
/// outline, `Malformed` when the four box fields lie past the buffer.
pub open spec fn spec_glyph_box(
    d: Seq<u8>,
    loca: int,
    glyf: int,
    num_glyphs: int,
    ilf: int,
    gi: int,
) -> Result<Option<BBox>, Error> {
    match spec_glyph_offset(d, loca, glyf, num_glyphs, ilf, gi) {
        Err(e) => Err(e),
        Ok(None) => Ok(None),
        Ok(Some(g)) => if g + 10 <= d.len() {
            Ok(Some(BBox {
                x0: i16_at(d, g + 2) as i32,
                y0: i16_at(d, g + 4) as i32,
                x1: i16_at(d, g + 6) as i32,
                y1: i16_at(d, g + 8) as i32,
            }))
        } else {
            Err(Error::Malformed)
        },
    }
}

/// Gets the bounding box of the visible part of the glyph, in unscaled
/// coordinates; `None` for a glyph with no outline.
pub fn get_glyph_box(info: &FontInfo, glyph_index: usize) -> (r: Result<Option<BBox>, Error>)
    ensures
        r == spec_glyph_box(
            info.data@, info.loca as int, info.glyf as int, info.num_glyphs as int,
            info.index_to_loc_format as int, glyph_index as int,
        ),
{
    let d = info.data;
    match get_glyph_offset(info, glyph_index) {
        Err(e) => Err(e),
        Ok(None) => Ok(None),
        Ok(Some(g)) => {
            if g <= d.len() && d.len() - g >= 10 {
                Ok(Some(BBox {
                    x0: be_i16(d, g + 2) as i32,
                    y0: be_i16(d, g + 4) as i32,
                    x1: be_i16(d, g + 6) as i32,
                    y1: be_i16(d, g + 8) as i32,
                }))
            } else {
                Err(Error::Malformed)
            }
        },
    }
}

/// Whether nothing is drawn for this glyph: no record, or a record with
/// zero contours.
pub fn is_glyph_empty(info: &FontInfo, glyph_index: usize) -> (r: Result<bool, Error>)
    ensures
        match r {
            Ok(b) => match spec_glyph_offset(
                info.data@, info.loca as int, info.glyf as int, info.num_glyphs as int,
                info.index_to_loc_format as int, glyph_index as int,
            ) {
                Ok(None) => b == true,
                Ok(Some(g)) => g + 2 <= info.data@.len() && b == (i16_at(info.data@, g) == 0),
                Err(_) => false,
            },
            Err(e) => match spec_glyph_offset(
                info.data@, info.loca as int, info.glyf as int, info.num_glyphs as int,
                info.index_to_loc_format as int, glyph_index as int,
            ) {
                Ok(None) => false,
                Ok(Some(g)) => e == Error::Malformed && g + 2 > info.data@.len(),
                Err(e2) => e == e2,
            },
        },
{
    let d = info.data;
    match get_glyph_offset(info, glyph_index) {
        Err(e) => Err(e),
        Ok(None) => Ok(true),
        Ok(Some(g)) => {
            if g <= d.len() && d.len() - g >= 2 {
                Ok(be_i16(d, g) == 0)
            } else {
                Err(Error::Malformed)
            }
        },
    }
}

/// A decoded glyph record: no outline at all, a simple outline as vertex
/// commands, or a composite built of transformed references to other
/// glyphs, which the caller resolves.
#[derive(Debug, PartialEq, Eq, Clone)]
pub enum GlyphShape {
    Empty,
    Simple(Vec<Vertex>),
    Compound(Vec<Component>),
}

/// The mathematical model of a decoded glyph record.
pub ghost enum ShapeModel {
    Empty,
    Simple(Seq<Vertex>),
    Compound(Seq<Component>),
}

/// The decoded form of the glyph record at `g`: empty for zero contours,
/// the vertex commands for a positive contour count, the component records
/// for the composite marker -1; any other negative count is malformed.
pub open spec fn spec_glyph_shape_at(d: Seq<u8>, g: int) -> Result<ShapeModel, Error> {
    if g + 2 > d.len() {
        Err(Error::Malformed)
    } else {
        let nc = i16_at(d, g);
        if nc == 0 {
            Ok(ShapeModel::Empty)
        } else if nc > 0 {
            match spec_simple_glyph(d, g) {
                None => Err(Error::Malformed),
                Some(vs) => Ok(ShapeModel::Simple(vs)),
            }
        } else if nc == -1 {
            match comps_from(d, g + 10, Seq::empty()) {
                None => Err(Error::Malformed),
                Some(cs) => Ok(ShapeModel::Compound(cs)),
            }
        } else {
            Err(Error::Malformed)
        }
    }
}

/// What decoding a glyph index yields: the decoded record, or the empty
/// shape where `loca` records no outline.
pub open spec fn spec_glyph_shape(
    d: Seq<u8>,
    loca: int,
    glyf: int,
    num_glyphs: int,
    ilf: int,
    gi: int,
) -> Result<ShapeModel, Error> {
    match spec_glyph_offset(d, loca, glyf, num_glyphs, ilf, gi) {
        Err(e) => Err(e),
        Ok(None) => Ok(ShapeModel::Empty),
        Ok(Some(g)) => spec_glyph_shape_at(d, g),
    }
}

/// The decoded shape agrees with the model: same kind, same contents.
pub open spec fn shape_matches(s: GlyphShape, m: ShapeModel) -> bool {
    match s {
        GlyphShape::Empty => m is Empty,
        GlyphShape::Simple(vs) => m matches ShapeModel::Simple(sm) && vs@ == sm,
        GlyphShape::Compound(cs) => m matches ShapeModel::Compound(cm) && cs@ == cm,
    }
}


/// Decodes the simple glyph record at `g` (positive contour count) into
/// vertex commands.
#[verifier::rlimit(80)]
fn decode_simple(d: &[u8], g: usize) -> (r: Result<Vec<Vertex>, Error>)
    requires
        g + 2 <= d.len(),
        i16_at(d@, g as int) > 0,
    ensures
        match r {
            Ok(vs) => spec_simple_glyph(d@, g as int) == Some(vs@),
            Err(e) => e == Error::Malformed && spec_simple_glyph(d@, g as int) is None,
        },
{
    let nc: usize = be_i16(d, g) as usize;
    if d.len() - g < 12 || (d.len() - g - 12) / 2 < nc {
        return Err(Error::Malformed);
    }

    // Contour end indices.
    let mut ends: Vec<u16> = Vec::new();
    let mut k: usize = 0;
    while k < nc
        invariant
            0 <= k <= nc,
            nc <= 0x7FFF,
            g + 12 + 2 * nc <= d.len(),
            ends@.len() == k,
            forall|t: int| 0 <= t < k ==> ends@[t] as int == u16_at(d@, g + 10 + 2 * t),
        decreases nc - k,
    {
        ends.push(be_u16(d, g + 10 + 2 * k));
        k = k + 1;
    }
    proof {
        assert(ends@ =~= Seq::new(nc as nat, |t: int| u16_at(d@, g + 10 + 2 * t) as u16));
    }

    let n_points: usize = 1 + be_u16(d, g + 10 + 2 * (nc - 1)) as usize;
    let ins: usize = be_u16(d, g + 10 + 2 * nc) as usize;
    let after_ins: usize = g + 12 + 2 * nc;
    if ins >= d.len() - after_ins {
        // The first flag byte would already lie past the buffer.
        return Err(Error::Malformed);
    }
    let p0: usize = after_ins + ins;

    let ghost gflags = flags_from(d@, p0 as int, n_points as int, 0, 0, Seq::empty());

    // Flag bytes, with run-length repeats.
    let mut flags: Vec<u8> = Vec::new();
    let mut pos: usize = p0;
    let mut flagcount: u8 = 0;
    let mut cur: u8 = 0;
    while flags.len() < n_points
        invariant
            pos <= d.len(),
            flags@.len() <= n_points,
            flags_from(d@, pos as int, n_points - flags@.len(), flagcount as int, cur, flags@)
                == gflags,
        decreases n_points - flags@.len(),
    {
        if flagcount > 0 {
            flagcount = flagcount - 1;
            flags.push(cur);
        } else {
            if pos >= d.len() {
                return Err(Error::Malformed);
            }
            let f = d[pos];
            if f & 8 != 0 {
                if d.len() - pos < 2 {
                    return Err(Error::Malformed);
                }
                flagcount = d[pos + 1];
                cur = f;
                pos = pos + 2;
                flags.push(f);
            } else {
                cur = f;
                pos = pos + 1;
                flags.push(f);
            }
        }
    }
    assert(gflags == Some((flags@, pos as int)));

    // X coordinates, delta-decoded.
    let ghost gxs = xs_from(d@, pos as int, flags@, 0, 0, Seq::empty());
    let mut xs: Vec<i16> = Vec::new();
    let mut i: usize = 0;
    let mut x: i32 = 0;
    while i < n_points
        invariant
            pos <= d.len(),
            flags@.len() == n_points,
            n_points <= 0x10000,
            0 <= i <= n_points,
            xs@.len() == i,
            -32768 * i <= x as int <= 32767 * i,
            xs_from(d@, pos as int, flags@, i as int, x as int, xs@) == gxs,
        decreases n_points - i,
    {
        let f = flags[i];
        if f & 2 != 0 {
            if pos >= d.len() {
                return Err(Error::Malformed);
            }
            let dv = d[pos] as i32;
            x = if f & 16 != 0 { x + dv } else { x - dv };
            pos = pos + 1;
        } else if f & 16 == 0 {
            if d.len() - pos < 2 {
                return Err(Error::Malformed);
            }
            x = x + be_i16(d, pos) as i32;
            pos = pos + 2;
        }
        xs.push(#[verifier::truncate] (x as i16));
        i = i + 1;
    }
    assert(gxs == Some((xs@, pos as int)));

    // Y coordinates, delta-decoded.
    let ghost gys = ys_from(d@, pos as int, flags@, 0, 0, Seq::empty());
    let mut ys: Vec<i16> = Vec::new();
    let mut iy: usize = 0;
    let mut y: i32 = 0;
    while iy < n_points
        invariant
            pos <= d.len(),
            flags@.len() == n_points,
            n_points <= 0x10000,
            0 <= iy <= n_points,
            ys@.len() == iy,
            -32768 * iy <= y as int <= 32767 * iy,
            ys_from(d@, pos as int, flags@, iy as int, y as int, ys@) == gys,
        decreases n_points - iy,
    {
        let f = flags[iy];
        if f & 4 != 0 {
            if pos >= d.len() {
                return Err(Error::Malformed);
            }
            let dv = d[pos] as i32;
            y = if f & 32 != 0 { y + dv } else { y - dv };
            pos = pos + 1;
        } else if f & 32 == 0 {
            if d.len() - pos < 2 {
                return Err(Error::Malformed);
            }
            y = y + be_i16(d, pos) as i32;
            pos = pos + 2;
        }
        ys.push(#[verifier::truncate] (y as i16));
        iy = iy + 1;
    }
    assert(gys == Some((ys@, pos as int)));

    // Convert the point records into vertex commands per contour.
    let ghost target = conv_from(flags@, xs@, ys@, ends@, conv_init());
    let mut out: Vec<Vertex> = Vec::new();
    let mut ci: usize = 0;
    let mut next_move: usize = 0;
    let mut j: usize = 0;
    let mut was_off: bool = false;
    let mut start_off: bool = false;
    let mut sx: i16 = 0;
    let mut sy: i16 = 0;
    let mut scx: i16 = 0;
    let mut scy: i16 = 0;
    let mut cx: i16 = 0;
    let mut cy: i16 = 0;
    while ci < n_points
        invariant
            flags@.len() == n_points,
            xs@.len() == n_points,
            ys@.len() == n_points,
            0 <= ci <= n_points,
            conv_from(flags@, xs@, ys@, ends@, ConvState {
                i: ci as int,
                next_move: next_move as int,
                j: j as int,
                was_off,
                start_off,
                sx: sx as int,
                sy: sy as int,
                scx: scx as int,
                scy: scy as int,
                cx: cx as int,
                cy: cy as int,
                acc: out@,
            }) == target,
        decreases n_points - ci,
    {
        let f = flags[ci];
        let px = xs[ci];
        let py = ys[ci];
        if next_move == ci {
            if j >= ends.len() {
                return Err(Error::Malformed);
            }
            if ci != 0 {
                close_shape(&mut out, was_off, start_off, sx, sy, scx, scy, cx, cy);
            }
            start_off = f & 1 == 0;
            if start_off {
                if ci + 1 >= n_points {
                    return Err(Error::Malformed);
                }
                scx = px;
                scy = py;
                let nf = flags[ci + 1];
                let skip2 = nf & 1 != 0;
                if skip2 {
                    sx = xs[ci + 1];
                    sy = ys[ci + 1];
                } else {
                    sx = mid16(px, xs[ci + 1]);
                    sy = mid16(py, ys[ci + 1]);
                }
                out.push(Vertex { type_: Cmd::Move, x: sx, y: sy, cx: 0, cy: 0, flags: 0 });
                was_off = false;
                next_move = 1 + ends[j] as usize;
                j = j + 1;
                ci = ci + if skip2 { 2 } else { 1 };
            } else {
                sx = px;
                sy = py;
                out.push(Vertex { type_: Cmd::Move, x: px, y: py, cx: 0, cy: 0, flags: 0 });
                was_off = false;
                next_move = 1 + ends[j] as usize;
                j = j + 1;
                ci = ci + 1;
            }
        } else {
            if f & 1 == 0 {
                if was_off {
                    let mx = mid16(cx, px);
                    let my = mid16(cy, py);
                    out.push(Vertex { type_: Cmd::Curve, x: mx, y: my, cx, cy, flags: 0 });
                }
                cx = px;
                cy = py;
                was_off = true;
                ci = ci + 1;
            } else {
                if was_off {
                    out.push(Vertex { type_: Cmd::Curve, x: px, y: py, cx, cy, flags: 0 });
                } else {
                    out.push(Vertex { type_: Cmd::Line, x: px, y: py, cx: 0, cy: 0, flags: 0 });
                }
                was_off = false;
                ci = ci + 1;
            }
        }
    }
    close_shape(&mut out, was_off, start_off, sx, sy, scx, scy, cx, cy);
    Ok(out)
}

/// Decodes the component records of the composite glyph record at `g`.
#[verifier::rlimit(80)]
fn decode_compound(data: &[u8], g: usize) -> (r: Result<Vec<Component>, Error>)
    requires
        g + 2 <= data.len(),
    ensures
        match r {
            Ok(cs) => comps_from(data@, g + 10, Seq::empty()) == Some(cs@),
            Err(e) => e == Error::Malformed && comps_from(data@, g + 10, Seq::empty()) is None,
        },
{
    let ghost target = comps_from(data@, g + 10, Seq::empty());
    let mut comps: Vec<Component> = Vec::new();
    if data.len() - g < 10 {
        return Err(Error::Malformed);
    }
    let mut pos: usize = g + 10;
    #[verifier::loop_isolation(true)]
    loop
        invariant_except_break
            pos <= data.len(),
            comps_from(data@, pos as int, comps@) == target,
            target == comps_from(data@, g + 10, Seq::empty()),
        ensures
            target == Some(comps@),
        decreases data.len() - pos,
    {
        if data.len() - pos < 4 {
            return Err(Error::Malformed);
        }
        let flags = be_u16(data, pos);
        let gidx = be_u16(data, pos + 2);
        let mut cur: usize = pos + 4;
        if flags % 4 < 2 {
            // Point-matching components are unsupported: malformed, never
            // silently wrong.
            return Err(Error::Malformed);
        }
        let dx: i32;
        let dy: i32;
        if flags % 2 == 1 {
            if data.len() - cur < 4 {
                return Err(Error::Malformed);
            }
            dx = be_i16(data, cur) as i32;
            dy = be_i16(data, cur + 2) as i32;
            cur = cur + 4;
        } else {
            if data.len() - cur < 2 {
                return Err(Error::Malformed);
            }
            let b0 = data[cur];
            let b1 = data[cur + 1];
            dx = if b0 >= 0x80 { b0 as i32 - 0x100 } else { b0 as i32 };
            dy = if b1 >= 0x80 { b1 as i32 - 0x100 } else { b1 as i32 };
            cur = cur + 2;
        }
        let a: i32;
        let b: i32;
        let c: i32;
        let dd: i32;
        if flags / 8 % 2 == 1 {
            if data.len() - cur < 2 {
                return Err(Error::Malformed);
            }
            let v = be_i16(data, cur) as i32;
            a = v;
            b = 0;
            c = 0;
            dd = v;
            cur = cur + 2;
        } else if flags / 0x40 % 2 == 1 {
            if data.len() - cur < 4 {
                return Err(Error::Malformed);
            }
            a = be_i16(data, cur) as i32;
            b = 0;
            c = 0;
            dd = be_i16(data, cur + 2) as i32;
            cur = cur + 4;
        } else if flags / 0x80 % 2 == 1 {
            if data.len() - cur < 8 {
                return Err(Error::Malformed);
            }
            a = be_i16(data, cur) as i32;
            b = be_i16(data, cur + 2) as i32;
            c = be_i16(data, cur + 4) as i32;
            dd = be_i16(data, cur + 6) as i32;
            cur = cur + 8;
        } else {
            a = 0x4000;
            b = 0;
            c = 0;
            dd = 0x4000;
        }
        comps.push(Component { flags, glyph_index: gidx, dx, dy, a, b, c, d: dd });
        if flags / 0x20 % 2 == 1 {
            pos = cur;
        } else {
            break;
        }
    }
    Ok(comps)
}

/// `x` clamped to the signed 16-bit range, as the transform's cast back to
/// a vertex coordinate saturates.
pub open spec fn sat16(x: int) -> i16 {
    if x < -0x8000 {
        (-0x8000) as i16
    } else if x > 0x7FFF {
        0x7FFFi16
    } else {
        x as i16
    }
}

/// `v` moved by `(dx, dy)`: endpoint and control point both, with each
/// coordinate saturated to the 16-bit range.
pub open spec fn translated_vertex(v: Vertex, dx: int, dy: int) -> Vertex {
    Vertex {
        x: sat16(v.x + dx),
        y: sat16(v.y + dy),
        cx: sat16(v.cx + dx),
        cy: sat16(v.cy + dy),
        type_: v.type_,
        flags: v.flags,
    }
}

/// Clamps a 32-bit coordinate into a 16-bit one.
fn sat16_exec(x: i32) -> (r: i16)
    ensures
        r == sat16(x as int),
{
    if x < -0x8000 {
        -0x8000
    } else if x > 0x7FFF {
        0x7FFF
    } else {
        x as i16
    }
}

/// Every vertex of the outline moved by `(dx, dy)` in font units, each
/// coordinate saturated to the 16-bit range: what an identity component
/// transform with that offset does to the referenced outline.
pub fn translate_vertices(vs: &Vec<Vertex>, dx: i32, dy: i32) -> (r: Vec<Vertex>)
    requires
        -0x8000 <= dx <= 0x7FFF,
        -0x8000 <= dy <= 0x7FFF,
    ensures
        r@.len() == vs@.len(),
        forall|i: int| 0 <= i < vs@.len()
            ==> r@[i] == translated_vertex(vs@[i], dx as int, dy as int),
{
    let mut out: Vec<Vertex> = Vec::new();
    let mut i: usize = 0;
    while i < vs.len()
        invariant
            0 <= i <= vs@.len(),
            out@.len() == i,
            forall|k: int| 0 <= k < i ==> out@[k] == translated_vertex(vs@[k], dx as int, dy as int),
        decreases vs@.len() - i,
    {
        let v = vs[i];
        out.push(Vertex {
            x: sat16_exec(v.x as i32 + dx),
            y: sat16_exec(v.y as i32 + dy),
            cx: sat16_exec(v.cx as i32 + dx),
            cy: sat16_exec(v.cy as i32 + dy),
            type_: v.type_,
            flags: v.flags,
        });
        i = i + 1;
    }
    out
}

/// The component's 2x2 transform is the identity: one in both diagonal
/// entries (in raw F2Dot14), zero off the diagonal.
pub open spec fn is_identity_transform(c: Component) -> bool {
    c.a == 0x4000 && c.b == 0 && c.c == 0 && c.d == 0x4000
}

/// Resolves one composite component whose transform is the identity: the
/// referenced glyph's own vertices, each moved by the component's offset.
/// Hands back `None` for a component this fast path does not cover (a
/// non-identity transform, or a referenced glyph that is not a simple
/// outline), which the caller then resolves with the general transform.
pub fn resolve_identity_component(info: &FontInfo, comp: &Component) -> (r: Result<Option<Vec<Vertex>>, Error>)
    ensures
        match r {
            Ok(Some(vs)) => {
                &&& is_identity_transform(*comp)
                &&& -0x8000 <= comp.dx <= 0x7FFF
                &&& -0x8000 <= comp.dy <= 0x7FFF
                &&& spec_glyph_shape(
                    info.data@, info.loca as int, info.glyf as int, info.num_glyphs as int,
                    info.index_to_loc_format as int, comp.glyph_index as int,
                ) matches Ok(ShapeModel::Simple(sm)) && vs@.len() == sm.len()
                    && forall|i: int| 0 <= i < sm.len()
                        ==> vs@[i] == translated_vertex(sm[i], comp.dx as int, comp.dy as int)
            },
            Ok(None) => !is_identity_transform(*comp)
                || !(-0x8000 <= comp.dx <= 0x7FFF && -0x8000 <= comp.dy <= 0x7FFF)
                || !(spec_glyph_shape(
                    info.data@, info.loca as int, info.glyf as int, info.num_glyphs as int,
                    info.index_to_loc_format as int, comp.glyph_index as int,
                ) matches Ok(ShapeModel::Simple(_))),
            Err(e) => is_identity_transform(*comp) && spec_glyph_shape(
                info.data@, info.loca as int, info.glyf as int, info.num_glyphs as int,
                info.index_to_loc_format as int, comp.glyph_index as int,
            ) == Err::<ShapeModel, Error>(e),
        },
{
    if !(comp.a == 0x4000 && comp.b == 0 && comp.c == 0 && comp.d == 0x4000) {
        return Ok(None);
    }
    if comp.dx < -0x8000 || comp.dx > 0x7FFF || comp.dy < -0x8000 || comp.dy > 0x7FFF {
        return Ok(None);
    }
    match get_glyph_shape(info, comp.glyph_index as usize) {
        Err(e) => Err(e),
        Ok(GlyphShape::Simple(vs)) => Ok(Some(translate_vertices(&vs, comp.dx, comp.dy))),
        Ok(_) => Ok(None),
    }
}

/// Decodes the glyph with index `glyph_index` into its shape: the empty
/// shape for whitespace glyphs, the vertex command stream for a simple
/// outline, or the component records of a composite.
///
/// The shape is a series of contours. Each one starts with a Move, then
/// consists of a series of mixed Line and Curve segments: a Line draws a
/// line from the previous endpoint to its x,y; a Curve draws a quadratic
/// bezier to its x,y with cx,cy as the control point.
pub fn get_glyph_shape(info: &FontInfo, glyph_index: usize) -> (r: Result<GlyphShape, Error>)
    ensures
        match r {
            Ok(s) => spec_glyph_shape(
                info.data@, info.loca as int, info.glyf as int, info.num_glyphs as int,
                info.index_to_loc_format as int, glyph_index as int,
            ) matches Ok(m) && shape_matches(s, m),
            Err(e) => spec_glyph_shape(
                info.data@, info.loca as int, info.glyf as int, info.num_glyphs as int,
                info.index_to_loc_format as int, glyph_index as int,
            ) == Err::<ShapeModel, Error>(e),
        },
{
    let d = info.data;
    let g = match get_glyph_offset(info, glyph_index) {
        Err(e) => { return Err(e); },
        Ok(None) => { return Ok(GlyphShape::Empty); },
        Ok(Some(g)) => g,
    };
    if g > d.len() || d.len() - g < 2 {
        return Err(Error::Malformed);
    }
    let nc = be_i16(d, g);
    if nc == 0 {
        Ok(GlyphShape::Empty)
    } else if nc > 0 {
        match decode_simple(d, g) {
            Ok(vs) => Ok(GlyphShape::Simple(vs)),
            Err(e) => Err(e),
        }
    } else if nc == -1 {
        match decode_compound(d, g) {
            Ok(cs) => Ok(GlyphShape::Compound(cs)),
            Err(e) => Err(e),
        }
    } else {
        // Other negative contour counts are unsupported.
        Err(Error::Malformed)
    }
}

} // verus!
