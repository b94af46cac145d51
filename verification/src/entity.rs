//! What an entity's record states in integers and names: the groups every
//! entity carries, the groups it cannot be understood without, and the
//! flags and codes the DXF reference gives each type. The coordinates and
//! sizes are the model's floating-point values and are read beside these.

use vstd::prelude::*;
use crate::decode::{lex_lt, str_ge, string, stored};
use crate::number::{hex_u64, parse_hex};
use crate::pairs::{views, Pair, PairView, ReadError, ReadErrorView};
use crate::record::{
    first_index, int_field, int_group, int_in, text, NameRef, RefView,
};
use crate::outline::Space;
use crate::resolve::{EntityRef, EntityRefView};
use crate::text::{
    ascii_uppercase, concat, decimal, decimal_string, owned, str_eq, to_ascii_uppercase, trim,
    trimmed,
};

verus! {

/// Where the IDs of handle-less entities live: above every handle a file
/// writes in practice, so a handle-less ID does not meet a handle-derived
/// one.
pub const HANDLELESS_ID_BASE: u64 = 0x8000_0000_0000_0000;

/// An entity's linetype (DXF 6).
#[derive(Debug, Clone, PartialEq, Eq)]
pub enum LineType {
    ByLayer,
    ByBlock,
    Named(NameRef),
}

pub enum LineTypeView {
    ByLayer,
    ByBlock,
    Named(RefView),
}

impl View for LineType {
    type V = LineTypeView;

    open spec fn view(&self) -> LineTypeView {
        match self {
            LineType::ByLayer => LineTypeView::ByLayer,
            LineType::ByBlock => LineTypeView::ByBlock,
            LineType::Named(r) => LineTypeView::Named(r@),
        }
    }
}

/// An entity's linetype: absent, or the pseudo-names BYLAYER and BYBLOCK in
/// any case, are not a table entry; any other name, trimmed, is carried to
/// be resolved against the LTYPE table.
pub open spec fn linetype_of(name: Option<Seq<char>>) -> LineTypeView {
    match name {
        None => LineTypeView::ByLayer,
        Some(n) => {
            let t = trimmed(n);
            if ascii_uppercase(t) == "BYLAYER"@ {
                LineTypeView::ByLayer
            } else if ascii_uppercase(t) == "BYBLOCK"@ {
                LineTypeView::ByBlock
            } else {
                LineTypeView::Named(RefView::Unresolved(stored(t)))
            }
        },
    }
}

/// An entity's linetype (see `linetype_of`).
pub fn linetype(name: Option<&str>) -> (r: LineType)
    ensures
        r@ == linetype_of(
            match name {
                Some(n) => Some(n@),
                None => None,
            },
        ),
{
    match name {
        None => LineType::ByLayer,
        Some(n) => {
            let t = trim(n);
            let upper = to_ascii_uppercase(t);
            if str_eq(upper.as_str(), "BYLAYER") {
                LineType::ByLayer
            } else if str_eq(upper.as_str(), "BYBLOCK") {
                LineType::ByBlock
            } else {
                LineType::Named(NameRef::Unresolved(string(t)))
            }
        },
    }
}

/// The groups of an entity's common part that come before its linetype
/// scale: its ID and handle, layer, colour, true colour, visibility and
/// linetype.
#[derive(Debug, Clone, PartialEq, Eq)]
pub struct CommonHead {
    pub id: u64,
    /// The handle as the file writes it, trimmed and in upper case; absent
    /// for a handle-less entity.
    pub source_handle: NameRef,
    pub layer: NameRef,
    pub color_index: i16,
    pub true_color: Option<u32>,
    pub invisible: bool,
    pub linetype: LineType,
}

pub struct CommonHeadView {
    pub id: u64,
    pub source_handle: RefView,
    pub layer: RefView,
    pub color_index: i16,
    pub true_color: Option<u32>,
    pub invisible: bool,
    pub linetype: LineTypeView,
}

impl View for CommonHead {
    type V = CommonHeadView;

    open spec fn view(&self) -> CommonHeadView {
        CommonHeadView {
            id: self.id,
            source_handle: self.source_handle@,
            layer: self.layer@,
            color_index: self.color_index,
            true_color: self.true_color,
            invisible: self.invisible,
            linetype: self.linetype@,
        }
    }
}

/// The head of an entity's common part, `ps[lo..hi]`; `ordinal` numbers a
/// handle-less entity.
///
/// The ID is the handle (5) read as a hexadecimal number -- the same ID
/// another reader of the file gives the entity -- or, without a handle,
/// `HANDLELESS_ID_BASE | ordinal`. The layer (8) is carried by name, to be
/// resolved against the LAYER table. An absent colour (62) is 256, ByLayer;
/// the true colour (420) keeps its low 24 bits; only a group 60 of 1 makes
/// the entity invisible. The groups are read in that order.
pub open spec fn common_head_of(ps: Seq<PairView>, lo: nat, hi: nat, ordinal: u64) -> Result<
    CommonHeadView,
    ReadErrorView,
> {
    let handle: Result<(u64, RefView), ReadErrorView> = match first_index(ps, lo, hi, 5) {
        Some(i) => match hex_u64(vstd::utf8::encode_utf8(trimmed(ps[i as int].value))) {
            Some(v) => Ok(
                (v as u64, RefView::Resolved(ascii_uppercase(trimmed(ps[i as int].value)))),
            ),
            None => Err(
                ReadErrorView::BadNumber { line: ps[i as int].line, code: 5, text: ps[i as int].value },
            ),
        },
        None => Ok((HANDLELESS_ID_BASE | ordinal, RefView::Absent)),
    };
    match handle {
        Err(e) => Err(e),
        Ok((id, source_handle)) => match int_field(ps, lo, hi, 62, i64::MIN as int, i64::MAX as int) {
            Err(e) => Err(e),
            Ok(color) => match int_field(ps, lo, hi, 420, i64::MIN as int, i64::MAX as int) {
                Err(e) => Err(e),
                Ok(true_color) => match int_field(ps, lo, hi, 60, i64::MIN as int, i64::MAX as int) {
                    Err(e) => Err(e),
                    Ok(invisible) => Ok(
                        CommonHeadView {
                            id,
                            source_handle,
                            layer: match first_index(ps, lo, hi, 8) {
                                Some(i) => RefView::Unresolved(stored(ps[i as int].value)),
                                None => RefView::Absent,
                            },
                            color_index: match color {
                                Some(c) => (c as i64) as i16,
                                None => 256,
                            },
                            true_color: match true_color {
                                Some(c) => Some(((c as i64) as u32) & 0xff_ffff),
                                None => None,
                            },
                            invisible: invisible == Some(1int),
                            linetype: linetype_of(
                                match first_index(ps, lo, hi, 6) {
                                    Some(i) => Some(ps[i as int].value),
                                    None => None,
                                },
                            ),
                        },
                    ),
                },
            },
        },
    }
}

/// The head of an entity's common part (see `common_head_of`).
pub fn common_head(ps: &Vec<Pair>, lo: usize, hi: usize, ordinal: u64) -> (r: Result<
    CommonHead,
    ReadError,
>)
    requires
        lo <= hi <= ps@.len(),
    ensures
        match common_head_of(views(ps@), lo as nat, hi as nat, ordinal) {
            Ok(c) => r matches Ok(x) && x@ == c,
            Err(e) => r matches Err(x) && x@ == e,
        },
{
    let ghost pv = views(ps@);
    let (id, source_handle) = match crate::record::find(ps, lo, hi, 5) {
        Some(i) => {
            let p = ps[i];
            assert(pv[i as int] == p@);
            let h = trim(p.value);
            match parse_hex(h.as_bytes()) {
                Some(v) => (v, NameRef::Resolved(to_ascii_uppercase(h))),
                None => {
                    return Err(ReadError::BadNumber { line: p.line, code: 5, text: owned(p.value) });
                },
            }
        },
        None => (HANDLELESS_ID_BASE | ordinal, NameRef::Absent),
    };
    let layer = match text(ps, lo, hi, 8) {
        Some(name) => NameRef::Unresolved(string(name)),
        None => NameRef::Absent,
    };
    let color_index: i16 = match int_group(ps, lo, hi, 62) {
        Ok(Some(c)) => c as i16,
        Ok(None) => 256,
        Err(e) => {
            return Err(e);
        },
    };
    let true_color: Option<u32> = match int_group(ps, lo, hi, 420) {
        Ok(Some(c)) => Some((c as u32) & 0xff_ffff),
        Ok(None) => None,
        Err(e) => {
            return Err(e);
        },
    };
    let invisible = match int_group(ps, lo, hi, 60) {
        Ok(Some(v)) => v == 1,
        Ok(None) => false,
        Err(e) => {
            return Err(e);
        },
    };
    Ok(
        CommonHead {
            id,
            source_handle,
            layer,
            color_index,
            true_color,
            invisible,
            linetype: linetype(text(ps, lo, hi, 6)),
        },
    )
}

/// An entity's space: paper where its group 67 is 1, model where the group
/// is absent or holds another integer; a group 67 that is no integer is the
/// error that names it.
pub open spec fn space_of(ps: Seq<PairView>, lo: nat, hi: nat) -> Result<Space, ReadErrorView> {
    match int_field(ps, lo, hi, 67, i64::MIN as int, i64::MAX as int) {
        Err(e) => Err(e),
        Ok(v) => Ok(
            if v == Some(1int) {
                Space::Paper
            } else {
                Space::Model
            },
        ),
    }
}

/// An entity's space (see `space_of`).
pub fn space(ps: &Vec<Pair>, lo: usize, hi: usize) -> (r: Result<Space, ReadError>)
    requires
        lo <= hi <= ps@.len(),
    ensures
        match space_of(views(ps@), lo as nat, hi as nat) {
            Ok(s) => r == Ok::<Space, ReadError>(s),
            Err(e) => r matches Err(x) && x@ == e,
        },
{
    match int_group(ps, lo, hi, 67) {
        Ok(Some(v)) => Ok(
            if v == 1 {
                Space::Paper
            } else {
                Space::Model
            },
        ),
        Ok(None) => Ok(Space::Model),
        Err(e) => Err(e),
    }
}

/// `uncad_model::model::Face3DEntity::invisible_edges_from_bits`: the four
/// edge flags of a 3DFACE's group 70, bit `i` for edge `i`, as its source
/// computes them.
#[verifier::external_body]
fn invisible_edges_from_bits(bits: u32) -> (r: [bool; 4])
    ensures
        r@ == seq![bits & 1 != 0, bits & 2 != 0, bits & 4 != 0, bits & 8 != 0],
{
    uncad_model::model::Face3DEntity::invisible_edges_from_bits(bits)
}

/// Which of a 3DFACE's four edges are invisible: the edge flags of its
/// group 70, taken as a `u32` (0 where the group is absent); a group 70
/// that is no integer is the error that names it.
pub open spec fn invisible_edges_of(ps: Seq<PairView>, lo: nat, hi: nat) -> Result<Seq<bool>, ReadErrorView> {
    match int_field(ps, lo, hi, 70, i64::MIN as int, i64::MAX as int) {
        Err(e) => Err(e),
        Ok(v) => {
            let bits = (match v {
                Some(b) => b as i64,
                None => 0i64,
            }) as u32;
            Ok(seq![bits & 1 != 0, bits & 2 != 0, bits & 4 != 0, bits & 8 != 0])
        },
    }
}

/// Which of a 3DFACE's four edges are invisible (see `invisible_edges_of`).
pub fn invisible_edges(ps: &Vec<Pair>, lo: usize, hi: usize) -> (r: Result<[bool; 4], ReadError>)
    requires
        lo <= hi <= ps@.len(),
    ensures
        match invisible_edges_of(views(ps@), lo as nat, hi as nat) {
            Ok(e) => r matches Ok(x) && x@ == e,
            Err(e) => r matches Err(x) && x@ == e,
        },
{
    match int_group(ps, lo, hi, 70) {
        Ok(v) => {
            let b: i64 = match v {
                Some(b) => b,
                None => 0,
            };
            Ok(invisible_edges_from_bits(b as u32))
        },
        Err(e) => Err(e),
    }
}

/// The group a SOLID's, TRACE's or 3DFACE's fourth corner is read from: its
/// own (13) where the record has one, else the third corner's (12), so
/// that a three-cornered face repeats its third corner.
pub fn fourth_corner_group(ps: &Vec<Pair>, lo: usize, hi: usize) -> (r: i32)
    requires
        lo <= hi <= ps@.len(),
    ensures
        r == if first_index(views(ps@), lo as nat, hi as nat, 13) is Some {
            13i32
        } else {
            12i32
        },
{
    match text(ps, lo, hi, 13) {
        Some(_) => 13,
        None => 12,
    }
}

/// The groups of an entity's common part after its linetype scale: the
/// lineweight (370) and the transparency (440), as the file states them.
pub open spec fn common_tail_of(ps: Seq<PairView>, lo: nat, hi: nat) -> Result<
    (Option<i16>, Option<u32>),
    ReadErrorView,
> {
    match int_field(ps, lo, hi, 370, i64::MIN as int, i64::MAX as int) {
        Err(e) => Err(e),
        Ok(w) => match int_field(ps, lo, hi, 440, i64::MIN as int, i64::MAX as int) {
            Err(e) => Err(e),
            Ok(t) => Ok(
                (
                    match w {
                        Some(w) => Some((w as i64) as i16),
                        None => None,
                    },
                    match t {
                        Some(t) => Some((t as i64) as u32),
                        None => None,
                    },
                ),
            ),
        },
    }
}

/// The tail of an entity's common part (see `common_tail_of`).
pub fn common_tail(ps: &Vec<Pair>, lo: usize, hi: usize) -> (r: Result<
    (Option<i16>, Option<u32>),
    ReadError,
>)
    requires
        lo <= hi <= ps@.len(),
    ensures
        match common_tail_of(views(ps@), lo as nat, hi as nat) {
            Ok(c) => r matches Ok(x) && x == c,
            Err(e) => r matches Err(x) && x@ == e,
        },
{
    let lineweight: Option<i16> = match int_group(ps, lo, hi, 370) {
        Ok(Some(w)) => Some(w as i16),
        Ok(None) => None,
        Err(e) => {
            return Err(e);
        },
    };
    let transparency: Option<u32> = match int_group(ps, lo, hi, 440) {
        Ok(Some(t)) => Some(t as u32),
        Ok(None) => None,
        Err(e) => {
            return Err(e);
        },
    };
    Ok((lineweight, transparency))
}


/// A drawing's version is `at_least` or later, comparing `$ACADVER` as
/// strings compare; a drawing that does not state its version is not.
pub open spec fn version_from(version: Option<Seq<char>>, at_least: Seq<char>) -> bool {
    version is Some && !lex_lt(version.unwrap(), at_least)
}

/// An entity's lineweight (370) and transparency (440) as its drawing has
/// them: as the file states them; where it states none, ByLayer -- a
/// lineweight of -1, a transparency of 0 -- when the drawing's version has
/// the property (the lineweight from R2000, `AC1015`; the transparency from
/// R2004, `AC1018`), and not stated where the version does not have it or
/// the drawing does not say its version.
pub open spec fn by_version_of(
    lineweight: Option<i16>,
    transparency: Option<u32>,
    version: Option<Seq<char>>,
) -> (Option<i16>, Option<u32>) {
    (
        match lineweight {
            Some(w) => Some(w),
            None => if version_from(version, "AC1015"@) {
                Some(-1i16)
            } else {
                None
            },
        },
        match transparency {
            Some(t) => Some(t),
            None => if version_from(version, "AC1018"@) {
                Some(0u32)
            } else {
                None
            },
        },
    )
}

/// An entity's lineweight and transparency as its drawing has them (see
/// `by_version_of`).
pub fn by_version(lineweight: Option<i16>, transparency: Option<u32>, version: Option<&str>) -> (r: (
    Option<i16>,
    Option<u32>,
))
    ensures
        r == by_version_of(
            lineweight,
            transparency,
            match version {
                Some(v) => Some(v@),
                None => None,
            },
        ),
{
    let (r2000, r2004) = match version {
        Some(v) => (str_ge(v, "AC1015"), str_ge(v, "AC1018")),
        None => (false, false),
    };
    let w = match lineweight {
        Some(w) => Some(w),
        None => if r2000 {
            Some(-1i16)
        } else {
            None
        },
    };
    let t = match transparency {
        Some(t) => Some(t),
        None => if r2004 {
            Some(0u32)
        } else {
            None
        },
    };
    (w, t)
}

/// How many groups `required_group` lists.
pub const REQUIRED_GROUPS: usize = 41;

/// Groups an entity cannot be understood without: `(type, group, what the
/// group is, what this reader keeps in its place)`.
///
/// Two conditions put a group here, and both must hold. The DXF reference
/// lists it without "optional" -- its convention for a group that always
/// appears -- and no drawing this reader has been measured against leaves
/// it out. Writers do omit some groups the reference lists as always
/// present, when their value is zero: rotations and flags, which are read
/// or carried as unstated instead and are not listed. What is listed are
/// the values an entity's size and shape rest on. An attribute's tag is
/// here because it is how a consumer asks for the attribute.
pub open spec fn required_group(i: int) -> (Seq<char>, i32, Seq<char>, Seq<char>) {
    if i == 0 {
        ("ATTRIB"@, 2, "tag"@, "an empty one"@)
    } else if i == 1 {
        ("ATTDEF"@, 2, "tag"@, "an empty one"@)
    } else if i == 2 {
        ("ATTRIB"@, 40, "text height"@, "0"@)
    } else if i == 3 {
        ("ATTDEF"@, 40, "text height"@, "0"@)
    } else if i == 4 {
        ("TEXT"@, 40, "text height"@, "0"@)
    } else if i == 5 {
        ("CIRCLE"@, 40, "radius"@, "0"@)
    } else if i == 6 {
        ("ARC"@, 40, "radius"@, "0"@)
    } else if i == 7 {
        ("ARC"@, 50, "start angle"@, "0"@)
    } else if i == 8 {
        ("ARC"@, 51, "end angle"@, "0"@)
    } else if i == 9 {
        ("ELLIPSE"@, 11, "major axis"@, "a zero-length one"@)
    } else if i == 10 {
        ("ELLIPSE"@, 40, "axis ratio"@, "0"@)
    } else if i == 11 {
        ("ELLIPSE"@, 41, "start parameter"@, "0"@)
    } else if i == 12 {
        ("ELLIPSE"@, 42, "end parameter"@, "a full turn"@)
    } else if i == 13 {
        ("SPLINE"@, 71, "degree"@, "0"@)
    } else if i == 14 {
        ("TOLERANCE"@, 10, "insertion point"@, "the origin"@)
    } else if i == 15 {
        ("WIPEOUT"@, 10, "insertion point"@, "the origin"@)
    } else if i == 16 {
        ("IMAGE"@, 10, "insertion point"@, "the origin"@)
    } else if i == 17 {
        ("IMAGE"@, 11, "pixel width vector"@, "the zero vector"@)
    } else if i == 18 {
        ("IMAGE"@, 12, "pixel height vector"@, "the zero vector"@)
    } else if i == 19 {
        ("IMAGE"@, 13, "size in pixels"@, "0 by 0"@)
    } else if i == 20 {
        ("MTEXT"@, 10, "insertion point"@, "the origin"@)
    } else if i == 21 {
        ("MTEXT"@, 40, "text height"@, "0"@)
    } else if i == 22 {
        ("DIMENSION"@, 11, "text position"@, "the origin"@)
    } else if i == 23 {
        ("ARC_DIMENSION"@, 11, "text position"@, "the origin"@)
    } else if i == 24 {
        ("POINT"@, 10, "position"@, "the origin"@)
    } else if i == 25 {
        ("SOLID"@, 10, "first corner"@, "the origin"@)
    } else if i == 26 {
        ("SOLID"@, 11, "second corner"@, "the origin"@)
    } else if i == 27 {
        ("SOLID"@, 12, "third corner"@, "the origin"@)
    } else if i == 28 {
        ("TRACE"@, 10, "first corner"@, "the origin"@)
    } else if i == 29 {
        ("TRACE"@, 11, "second corner"@, "the origin"@)
    } else if i == 30 {
        ("TRACE"@, 12, "third corner"@, "the origin"@)
    } else if i == 31 {
        ("3DFACE"@, 10, "first corner"@, "the origin"@)
    } else if i == 32 {
        ("3DFACE"@, 11, "second corner"@, "the origin"@)
    } else if i == 33 {
        ("3DFACE"@, 12, "third corner"@, "the origin"@)
    } else if i == 34 {
        ("RAY"@, 10, "base point"@, "the origin"@)
    } else if i == 35 {
        ("RAY"@, 11, "direction"@, "the zero vector"@)
    } else if i == 36 {
        ("XLINE"@, 10, "base point"@, "the origin"@)
    } else if i == 37 {
        ("XLINE"@, 11, "direction"@, "the zero vector"@)
    } else if i == 38 {
        ("VIEWPORT"@, 10, "center"@, "the origin"@)
    } else if i == 39 {
        ("VIEWPORT"@, 40, "width"@, "0"@)
    } else if i == 40 {
        ("VIEWPORT"@, 41, "height"@, "0"@)
    } else {
        (Seq::empty(), 0, Seq::empty(), Seq::empty())
    }
}

fn required_group_at(i: usize) -> (r: (&'static str, i32, &'static str, &'static str))
    requires
        i < REQUIRED_GROUPS,
    ensures
        (r.0@, r.1, r.2@, r.3@) == required_group(i as int),
{
    match i {
        0 => ("ATTRIB", 2, "tag", "an empty one"),
        1 => ("ATTDEF", 2, "tag", "an empty one"),
        2 => ("ATTRIB", 40, "text height", "0"),
        3 => ("ATTDEF", 40, "text height", "0"),
        4 => ("TEXT", 40, "text height", "0"),
        5 => ("CIRCLE", 40, "radius", "0"),
        6 => ("ARC", 40, "radius", "0"),
        7 => ("ARC", 50, "start angle", "0"),
        8 => ("ARC", 51, "end angle", "0"),
        9 => ("ELLIPSE", 11, "major axis", "a zero-length one"),
        10 => ("ELLIPSE", 40, "axis ratio", "0"),
        11 => ("ELLIPSE", 41, "start parameter", "0"),
        12 => ("ELLIPSE", 42, "end parameter", "a full turn"),
        13 => ("SPLINE", 71, "degree", "0"),
        14 => ("TOLERANCE", 10, "insertion point", "the origin"),
        15 => ("WIPEOUT", 10, "insertion point", "the origin"),
        16 => ("IMAGE", 10, "insertion point", "the origin"),
        17 => ("IMAGE", 11, "pixel width vector", "the zero vector"),
        18 => ("IMAGE", 12, "pixel height vector", "the zero vector"),
        19 => ("IMAGE", 13, "size in pixels", "0 by 0"),
        20 => ("MTEXT", 10, "insertion point", "the origin"),
        21 => ("MTEXT", 40, "text height", "0"),
        22 => ("DIMENSION", 11, "text position", "the origin"),
        23 => ("ARC_DIMENSION", 11, "text position", "the origin"),
        24 => ("POINT", 10, "position", "the origin"),
        25 => ("SOLID", 10, "first corner", "the origin"),
        26 => ("SOLID", 11, "second corner", "the origin"),
        27 => ("SOLID", 12, "third corner", "the origin"),
        28 => ("TRACE", 10, "first corner", "the origin"),
        29 => ("TRACE", 11, "second corner", "the origin"),
        30 => ("TRACE", 12, "third corner", "the origin"),
        31 => ("3DFACE", 10, "first corner", "the origin"),
        32 => ("3DFACE", 11, "second corner", "the origin"),
        33 => ("3DFACE", 12, "third corner", "the origin"),
        34 => ("RAY", 10, "base point", "the origin"),
        35 => ("RAY", 11, "direction", "the zero vector"),
        36 => ("XLINE", 10, "base point", "the origin"),
        37 => ("XLINE", 11, "direction", "the zero vector"),
        38 => ("VIEWPORT", 10, "center", "the origin"),
        39 => ("VIEWPORT", 40, "width", "0"),
        _ => ("VIEWPORT", 41, "height", "0"),
    }
}

/// The group is absent from `ps[lo..hi]`, or its first value is empty.
pub open spec fn group_missing(ps: Seq<PairView>, lo: nat, hi: nat, code: i32) -> bool {
    match first_index(ps, lo, hi, code) {
        None => true,
        Some(j) => ps[j as int].value.len() == 0,
    }
}

/// What the reader says of a required group it had to fill.
pub open spec fn missing_message(t: Seq<char>, code: i32, what: Seq<char>, kept: Seq<char>) -> Seq<
    char,
> {
    "MISSING_REQUIRED_GROUP: "@ + t + " carries no "@ + what + " (group "@ + decimal(code as nat)
        + "); the entity is kept with "@ + kept
}

/// What the reader says of the required groups of `entity_type` from the
/// `i`-th entry of the table on that `ps[lo..hi]` leaves out, in the
/// table's order.
pub open spec fn missing_from(entity_type: Seq<char>, ps: Seq<PairView>, lo: nat, hi: nat, i: nat) -> Seq<
    Seq<char>,
>
    decreases REQUIRED_GROUPS - i,
{
    if i >= REQUIRED_GROUPS {
        Seq::empty()
    } else {
        let (t, code, what, kept) = required_group(i as int);
        let rest = missing_from(entity_type, ps, lo, hi, i + 1);
        if t == entity_type && group_missing(ps, lo, hi, code) {
            seq![missing_message(t, code, what, kept)] + rest
        } else {
            rest
        }
    }
}

/// What this reader had to substitute for a required group of `entity_type`
/// (see `required_group`), one line per group, in the table's order.
/// Reporting is not refusing: the entity is kept, and the reader says what
/// it made up.
pub fn missing_required_groups(entity_type: &str, ps: &Vec<Pair>, lo: usize, hi: usize) -> (r: Vec<
    String,
>)
    requires
        lo <= hi <= ps@.len(),
    ensures
        crate::decode::string_views(r@) == missing_from(entity_type@, views(ps@), lo as nat, hi as nat, 0),
{
    let ghost pv = views(ps@);
    let mut out: Vec<String> = Vec::new();
    let mut i: usize = 0;
    while i < REQUIRED_GROUPS
        invariant
            pv == views(ps@),
            lo <= hi <= ps@.len(),
            i <= REQUIRED_GROUPS,
            missing_from(entity_type@, pv, lo as nat, hi as nat, 0) == crate::decode::string_views(out@)
                + missing_from(entity_type@, pv, lo as nat, hi as nat, i as nat),
        decreases REQUIRED_GROUPS - i,
    {
        let (t, code, what, kept) = required_group_at(i);
        let ghost before = out@;
        if str_eq(t, entity_type) {
            let missing = match text(ps, lo, hi, code) {
                None => true,
                Some(v) => v.is_empty(),
            };
            if missing {
                let mut m = concat("MISSING_REQUIRED_GROUP: ", t);
                m.append(" carries no ");
                m.append(what);
                m.append(" (group ");
                let digits = decimal_string(code as u64);
                m.append(digits.as_str());
                m.append("); the entity is kept with ");
                m.append(kept);
                out.push(m);
                proof {
                    assert(crate::decode::string_views(out@) =~= crate::decode::string_views(before).push(
                        m@,
                    ));
                    assert(crate::decode::string_views(out@) + missing_from(
                        entity_type@,
                        pv,
                        lo as nat,
                        hi as nat,
                        (i + 1) as nat,
                    ) =~= crate::decode::string_views(before) + missing_from(
                        entity_type@,
                        pv,
                        lo as nat,
                        hi as nat,
                        i as nat,
                    ));
                }
            }
        }
        i = i + 1;
    }
    assert(missing_from(entity_type@, pv, lo as nat, hi as nat, i as nat) =~= Seq::<Seq<char>>::empty());
    assert(crate::decode::string_views(out@) + Seq::<Seq<char>>::empty() =~= crate::decode::string_views(out@));
    out
}


/// What a dimension measures.
#[derive(Debug, Clone, Copy, PartialEq, Eq)]
pub enum DimensionKind {
    Rotated,
    Aligned,
    Angular2Line,
    Diameter,
    Radius,
    Angular3Point,
    Ordinate,
    ArcLength,
}

/// The subtype the low three bits of DXF 70 name. A value outside the seven
/// the format defines is not a subtype this reader knows, and says so with
/// `None` rather than picking the nearest one.
pub open spec fn kind_of_flag_spec(flag: i64) -> Option<DimensionKind> {
    let low = flag & 7;
    if low == 0 {
        Some(DimensionKind::Rotated)
    } else if low == 1 {
        Some(DimensionKind::Aligned)
    } else if low == 2 {
        Some(DimensionKind::Angular2Line)
    } else if low == 3 {
        Some(DimensionKind::Diameter)
    } else if low == 4 {
        Some(DimensionKind::Radius)
    } else if low == 5 {
        Some(DimensionKind::Angular3Point)
    } else if low == 6 {
        Some(DimensionKind::Ordinate)
    } else {
        None
    }
}

/// The subtype the low three bits of DXF 70 name (see `kind_of_flag_spec`).
pub fn kind_of_flag(flag: i64) -> (r: Option<DimensionKind>)
    ensures
        r == kind_of_flag_spec(flag),
{
    let low = flag & 7;
    if low == 0 {
        Some(DimensionKind::Rotated)
    } else if low == 1 {
        Some(DimensionKind::Aligned)
    } else if low == 2 {
        Some(DimensionKind::Angular2Line)
    } else if low == 3 {
        Some(DimensionKind::Diameter)
    } else if low == 4 {
        Some(DimensionKind::Radius)
    } else if low == 5 {
        Some(DimensionKind::Angular3Point)
    } else if low == 6 {
        Some(DimensionKind::Ordinate)
    } else {
        None
    }
}

/// The subtype a subclass marker names.
pub open spec fn marker_kind(value: Seq<char>) -> Option<DimensionKind> {
    if value == "AcDbRotatedDimension"@ {
        Some(DimensionKind::Rotated)
    } else if value == "AcDbAlignedDimension"@ {
        Some(DimensionKind::Aligned)
    } else if value == "AcDb2LineAngularDimension"@ {
        Some(DimensionKind::Angular2Line)
    } else if value == "AcDbDiametricDimension"@ {
        Some(DimensionKind::Diameter)
    } else if value == "AcDbRadialDimension"@ {
        Some(DimensionKind::Radius)
    } else if value == "AcDb3PointAngularDimension"@ {
        Some(DimensionKind::Angular3Point)
    } else if value == "AcDbOrdinateDimension"@ {
        Some(DimensionKind::Ordinate)
    } else if value == "AcDbArcDimension"@ {
        Some(DimensionKind::ArcLength)
    } else {
        None
    }
}

fn marker_kind_of(value: &str) -> (r: Option<DimensionKind>)
    ensures
        r == marker_kind(value@),
{
    if str_eq(value, "AcDbRotatedDimension") {
        Some(DimensionKind::Rotated)
    } else if str_eq(value, "AcDbAlignedDimension") {
        Some(DimensionKind::Aligned)
    } else if str_eq(value, "AcDb2LineAngularDimension") {
        Some(DimensionKind::Angular2Line)
    } else if str_eq(value, "AcDbDiametricDimension") {
        Some(DimensionKind::Diameter)
    } else if str_eq(value, "AcDbRadialDimension") {
        Some(DimensionKind::Radius)
    } else if str_eq(value, "AcDb3PointAngularDimension") {
        Some(DimensionKind::Angular3Point)
    } else if str_eq(value, "AcDbOrdinateDimension") {
        Some(DimensionKind::Ordinate)
    } else if str_eq(value, "AcDbArcDimension") {
        Some(DimensionKind::ArcLength)
    } else {
        None
    }
}

/// The subtype the last subclass marker (group 100) of `ps[lo..hi]` that
/// names one names. A rotated dimension carries both `AcDbAlignedDimension`
/// and `AcDbRotatedDimension`, in that order, so the most specific is last.
pub open spec fn markers_kind(ps: Seq<PairView>, lo: nat, hi: nat) -> Option<DimensionKind>
    decreases hi - lo,
{
    if hi <= lo {
        None
    } else {
        let p = ps[hi - 1];
        if p.code == 100 && marker_kind(p.value) is Some {
            marker_kind(p.value)
        } else {
            markers_kind(ps, lo, (hi - 1) as nat)
        }
    }
}

/// The subtype the subclass markers of `ps[lo..hi]` name (see
/// `markers_kind`).
pub fn kind_of_markers(ps: &Vec<Pair>, lo: usize, hi: usize) -> (r: Option<DimensionKind>)
    requires
        lo <= hi <= ps@.len(),
    ensures
        r == markers_kind(views(ps@), lo as nat, hi as nat),
{
    let ghost pv = views(ps@);
    let mut i = hi;
    while i > lo
        invariant
            pv == views(ps@),
            lo <= i <= hi <= ps@.len(),
            markers_kind(pv, lo as nat, hi as nat) == markers_kind(pv, lo as nat, i as nat),
        decreases i,
    {
        let p = ps[i - 1];
        assert(pv[i - 1] == p@);
        if p.code == 100 {
            if let Some(k) = marker_kind_of(p.value) {
                return Some(k);
            }
        }
        i = i - 1;
    }
    None
}

/// What a dimension measures, from the three places the format states it,
/// in the order the format means them: an `ARC_DIMENSION` is an arc-length
/// one whatever its group 70 says; then the subtype group 70's low three
/// bits name; then the subclass markers.
pub open spec fn dimension_kind_of(
    entity_type: Seq<char>,
    flag: Option<i64>,
    ps: Seq<PairView>,
    lo: nat,
    hi: nat,
) -> Option<DimensionKind> {
    if entity_type == "ARC_DIMENSION"@ {
        Some(DimensionKind::ArcLength)
    } else {
        match flag {
            Some(f) if kind_of_flag_spec(f) is Some => kind_of_flag_spec(f),
            _ => markers_kind(ps, lo, hi),
        }
    }
}

/// What a dimension measures (see `dimension_kind_of`).
pub fn dimension_kind(entity_type: &str, flag: Option<i64>, ps: &Vec<Pair>, lo: usize, hi: usize) -> (r:
    Option<DimensionKind>)
    requires
        lo <= hi <= ps@.len(),
    ensures
        r == dimension_kind_of(entity_type@, flag, views(ps@), lo as nat, hi as nat),
{
    if str_eq(entity_type, "ARC_DIMENSION") {
        return Some(DimensionKind::ArcLength);
    }
    if let Some(f) = flag {
        if let Some(k) = kind_of_flag(f) {
            return Some(k);
        }
    }
    kind_of_markers(ps, lo, hi)
}

/// Which coordinate an ordinate dimension measures.
#[derive(Debug, Clone, Copy, PartialEq, Eq)]
pub enum OrdinateAxis {
    X,
    Y,
}

/// Bit 64 of group 70 says which coordinate an ordinate dimension measures;
/// on any other kind it means nothing.
pub fn ordinate_axis(kind: Option<DimensionKind>, flag: Option<i64>) -> (r: Option<OrdinateAxis>)
    ensures
        r == (if kind == Some(DimensionKind::Ordinate) {
            Some(
                if (match flag {
                    Some(f) => f,
                    None => 0,
                }) & 64 != 0 {
                    OrdinateAxis::X
                } else {
                    OrdinateAxis::Y
                },
            )
        } else {
            None
        }),
{
    match kind {
        Some(DimensionKind::Ordinate) => {
            let f = match flag {
                Some(f) => f,
                None => 0,
            };
            Some(
                if f & 64 != 0 {
                    OrdinateAxis::X
                } else {
                    OrdinateAxis::Y
                },
            )
        },
        _ => None,
    }
}

/// A dimension's text (DXF 1).
#[derive(Debug, Clone, PartialEq, Eq)]
pub enum TextOverride {
    Measured,
    Suppressed,
    Literal(String),
}

pub enum TextOverrideView {
    Measured,
    Suppressed,
    Literal(Seq<char>),
}

impl View for TextOverride {
    type V = TextOverrideView;

    open spec fn view(&self) -> TextOverrideView {
        match self {
            TextOverride::Measured => TextOverrideView::Measured,
            TextOverride::Suppressed => TextOverrideView::Suppressed,
            TextOverride::Literal(s) => TextOverrideView::Literal(s@),
        }
    }
}

/// DXF 1 folded to one value per meaning: the group absent, empty, or `<>`
/// all say "show the measurement"; a single space says "show nothing".
pub open spec fn text_override_of(value: Option<Seq<char>>) -> TextOverrideView {
    match value {
        None => TextOverrideView::Measured,
        Some(v) => if v.len() == 0 || v == "<>"@ {
            TextOverrideView::Measured
        } else if v == " "@ {
            TextOverrideView::Suppressed
        } else {
            TextOverrideView::Literal(stored(v))
        },
    }
}

/// A dimension's text override (see `text_override_of`).
pub fn text_override(value: Option<&str>) -> (r: TextOverride)
    ensures
        r@ == text_override_of(
            match value {
                Some(v) => Some(v@),
                None => None,
            },
        ),
{
    match value {
        None => TextOverride::Measured,
        Some(v) => {
            if v.is_empty() || str_eq(v, "<>") {
                TextOverride::Measured
            } else if str_eq(v, " ") {
                TextOverride::Suppressed
            } else {
                TextOverride::Literal(string(v))
            }
        },
    }
}

/// A name the file writes, to be resolved against a table: no name at all,
/// or an empty one, is absent.
pub open spec fn name_ref_of(name: Option<Seq<char>>) -> RefView {
    match name {
        Some(n) => if n.len() > 0 {
            RefView::Unresolved(stored(n))
        } else {
            RefView::Absent
        },
        None => RefView::Absent,
    }
}

/// A name the file writes, as a reference (see `name_ref_of`).
pub fn name_ref(name: Option<&str>) -> (r: NameRef)
    ensures
        r@ == name_ref_of(
            match name {
                Some(n) => Some(n@),
                None => None,
            },
        ),
{
    match name {
        Some(n) => {
            if !n.is_empty() {
                NameRef::Unresolved(string(n))
            } else {
                NameRef::Absent
            }
        },
        None => NameRef::Absent,
    }
}

/// A reference to another entity by the handle group `code` of `ps[lo..hi]`
/// writes, carried unresolved until every entity has been read. No group,
/// an empty one, or the null handle `0` names nothing; anything else is
/// kept in upper case -- text that is not hexadecimal included, a
/// reference nothing can answer to rather than no reference.
pub open spec fn handle_ref_of(ps: Seq<PairView>, lo: nat, hi: nat, code: i32) -> EntityRefView {
    match first_index(ps, lo, hi, code) {
        None => EntityRefView::Absent,
        Some(i) => {
            let h = trimmed(ps[i as int].value);
            if hex_u64(vstd::utf8::encode_utf8(h)) == Some(0int) || h.len() == 0 {
                EntityRefView::Absent
            } else {
                EntityRefView::Unresolved(ascii_uppercase(h))
            }
        },
    }
}

/// A reference to another entity by handle (see `handle_ref_of`).
pub fn handle_ref(ps: &Vec<Pair>, lo: usize, hi: usize, code: i32) -> (r: EntityRef)
    requires
        lo <= hi <= ps@.len(),
    ensures
        r@ == handle_ref_of(views(ps@), lo as nat, hi as nat, code),
{
    let h = match text(ps, lo, hi, code) {
        None => {
            return EntityRef::Absent;
        },
        Some(v) => trim(v),
    };
    if h.is_empty() {
        return EntityRef::Absent;
    }
    match parse_hex(h.as_bytes()) {
        Some(0) => EntityRef::Absent,
        _ => EntityRef::Unresolved(to_ascii_uppercase(h)),
    }
}

/// An object named by handle group `code` (an image's definition, a
/// layout's block record): trimmed, in upper case, unless it is empty or
/// the null handle `0`.
pub open spec fn object_handle_of(ps: Seq<PairView>, lo: nat, hi: nat, code: i32) -> RefView {
    match first_index(ps, lo, hi, code) {
        None => RefView::Absent,
        Some(i) => {
            let h = trimmed(ps[i as int].value);
            if h.len() == 0 || h == "0"@ {
                RefView::Absent
            } else {
                RefView::Unresolved(ascii_uppercase(h))
            }
        },
    }
}

/// An object named by handle (see `object_handle_of`).
pub fn object_handle(ps: &Vec<Pair>, lo: usize, hi: usize, code: i32) -> (r: NameRef)
    requires
        lo <= hi <= ps@.len(),
    ensures
        r@ == object_handle_of(views(ps@), lo as nat, hi as nat, code),
{
    match text(ps, lo, hi, code) {
        None => NameRef::Absent,
        Some(v) => {
            let h = trim(v);
            if h.is_empty() || str_eq(h, "0") {
                NameRef::Absent
            } else {
                NameRef::Unresolved(to_ascii_uppercase(h))
            }
        },
    }
}

/// Every value of groups 341 and 331 in `ps[lo..hi]`, trimmed and in upper
/// case: the handles of the layers a viewport freezes.
pub open spec fn frozen_handles_of(ps: Seq<PairView>, lo: nat, hi: nat) -> Seq<RefView>
    decreases hi - lo,
{
    if hi <= lo {
        Seq::empty()
    } else {
        let rest = frozen_handles_of(ps, lo, (hi - 1) as nat);
        let p = ps[hi - 1];
        if p.code == 341 || p.code == 331 {
            rest.push(RefView::Unresolved(ascii_uppercase(trimmed(p.value))))
        } else {
            rest
        }
    }
}

/// The layers a viewport freezes, by their LAYER records' handles (341, or
/// 331 as a DXF from R2004 on writes them), to be resolved to names once
/// the tables are in.
pub fn frozen_layers(ps: &Vec<Pair>, lo: usize, hi: usize) -> (r: Vec<NameRef>)
    requires
        lo <= hi <= ps@.len(),
    ensures
        r@.map_values(|x: NameRef| x@) == frozen_handles_of(views(ps@), lo as nat, hi as nat),
{
    let ghost pv = views(ps@);
    let mut out: Vec<NameRef> = Vec::new();
    let mut i = lo;
    assert(out@.map_values(|x: NameRef| x@) =~= frozen_handles_of(pv, lo as nat, lo as nat));
    while i < hi
        invariant
            pv == views(ps@),
            lo <= i <= hi <= ps@.len(),
            out@.map_values(|x: NameRef| x@) == frozen_handles_of(pv, lo as nat, i as nat),
        decreases hi - i,
    {
        let p = ps[i];
        assert(pv[i as int] == p@);
        let ghost before = out@;
        if p.code == 341 || p.code == 331 {
            out.push(NameRef::Unresolved(to_ascii_uppercase(trim(p.value))));
            assert(out@.map_values(|x: NameRef| x@) =~= before.map_values(|x: NameRef| x@).push(
                RefView::Unresolved(ascii_uppercase(trimmed(p@.value))),
            ));
        }
        i = i + 1;
    }
    out
}

/// An attribute's flags (70), one per bit as the reference names them.
#[derive(Debug, Clone, Copy, PartialEq, Eq)]
pub struct AttributeFlags {
    pub invisible: bool,
    pub constant: bool,
    pub verify: bool,
    pub preset: bool,
}

/// An ATTRIB's or ATTDEF's flags (70): 1 invisible, 2 constant, 4 verify,
/// 8 preset. An absent group is no flag set.
pub fn attribute_flags(ps: &Vec<Pair>, lo: usize, hi: usize) -> (r: Result<AttributeFlags, ReadError>)
    requires
        lo <= hi <= ps@.len(),
    ensures
        match int_field(views(ps@), lo as nat, hi as nat, 70, i64::MIN as int, i64::MAX as int) {
            Ok(v) => {
                let f: i64 = match v {
                    Some(f) => f as i64,
                    None => 0,
                };
                r == Ok::<AttributeFlags, ReadError>(
                    AttributeFlags {
                        invisible: f & 1 != 0,
                        constant: f & 2 != 0,
                        verify: f & 4 != 0,
                        preset: f & 8 != 0,
                    },
                )
            },
            Err(e) => r matches Err(x) && x@ == e,
        },
{
    let f = match int_group(ps, lo, hi, 70) {
        Ok(Some(f)) => f,
        Ok(None) => 0,
        Err(e) => {
            return Err(e);
        },
    };
    Ok(
        AttributeFlags {
            invisible: f & 1 != 0,
            constant: f & 2 != 0,
            verify: f & 4 != 0,
            preset: f & 8 != 0,
        },
    )
}

/// Whether a viewport is on. From R2000 on the record states it as bit
/// 0x20000 of its status flags (90), set when it is off. Group 68 is its
/// place in the stack of active viewports, and 0 there is also what a
/// viewport of a layout that is not the current one is written with, so it
/// is read only where there are no status flags: 0 off, anything else on.
pub open spec fn viewport_on_of(ps: Seq<PairView>, lo: nat, hi: nat) -> Result<
    Option<bool>,
    ReadErrorView,
> {
    match int_field(ps, lo, hi, 90, i64::MIN as int, i64::MAX as int) {
        Err(e) => Err(e),
        Ok(Some(flags)) => Ok(Some((flags as i64) & 0x20000 == 0)),
        Ok(None) => match int_field(ps, lo, hi, 68, i64::MIN as int, i64::MAX as int) {
            Err(e) => Err(e),
            Ok(Some(on)) => Ok(Some(on != 0)),
            Ok(None) => Ok(None),
        },
    }
}

/// Whether a viewport is on (see `viewport_on_of`).
pub fn viewport_on(ps: &Vec<Pair>, lo: usize, hi: usize) -> (r: Result<Option<bool>, ReadError>)
    requires
        lo <= hi <= ps@.len(),
    ensures
        match viewport_on_of(views(ps@), lo as nat, hi as nat) {
            Ok(v) => r == Ok::<Option<bool>, ReadError>(v),
            Err(e) => r matches Err(x) && x@ == e,
        },
{
    match int_group(ps, lo, hi, 90) {
        Err(e) => Err(e),
        Ok(Some(flags)) => Ok(Some(flags & 0x20000 == 0)),
        Ok(None) => match int_group(ps, lo, hi, 68) {
            Err(e) => Err(e),
            Ok(Some(on)) => Ok(Some(on != 0)),
            Ok(None) => Ok(None),
        },
    }
}

/// The values of group 3 of `ps[lo..hi]`, in order, joined.
pub open spec fn pieces(ps: Seq<PairView>, lo: nat, hi: nat) -> Seq<char>
    decreases hi - lo,
{
    if hi <= lo {
        Seq::empty()
    } else {
        let rest = pieces(ps, lo, (hi - 1) as nat);
        if ps[hi - 1].code == 3 {
            rest + ps[hi - 1].value
        } else {
            rest
        }
    }
}

/// An MTEXT's text: a long one is written as 250-character pieces in
/// group 3, in order, and ends with its last piece in group 1. The storage
/// is undone after the pieces are joined: a piece boundary can fall inside
/// an escape.
pub open spec fn mtext_of(ps: Seq<PairView>, lo: nat, hi: nat) -> Seq<char> {
    stored(
        pieces(ps, lo, hi) + match first_index(ps, lo, hi, 1) {
            Some(i) => ps[i as int].value,
            None => Seq::empty(),
        },
    )
}

/// An MTEXT's text (see `mtext_of`).
pub fn mtext_string(ps: &Vec<Pair>, lo: usize, hi: usize) -> (r: String)
    requires
        lo <= hi <= ps@.len(),
    ensures
        r@ == mtext_of(views(ps@), lo as nat, hi as nat),
{
    let ghost pv = views(ps@);
    let mut out = String::new();
    let mut i = lo;
    while i < hi
        invariant
            pv == views(ps@),
            lo <= i <= hi <= ps@.len(),
            out@ == pieces(pv, lo as nat, i as nat),
        decreases hi - i,
    {
        let p = ps[i];
        assert(pv[i as int] == p@);
        if p.code == 3 {
            out.append(p.value);
        }
        i = i + 1;
    }
    match text(ps, lo, hi, 1) {
        Some(t) => out.append(t),
        None => {
            assert(out@ + Seq::<char>::empty() =~= out@);
        },
    }
    string(out.as_str())
}


/// The decimal form of a signed integer, as `format!("{v}")` writes it.
pub open spec fn signed_text(v: int) -> Seq<char> {
    if v < 0 {
        "-"@ + decimal((-v) as nat)
    } else {
        decimal(v as nat)
    }
}

/// The decimal form of `v` (see `signed_text`).
pub fn signed_decimal_string(v: i64) -> (r: String)
    ensures
        r@ == signed_text(v as int),
{
    if v < 0 {
        let m = (0 - (v as i128)) as u64;
        let digits = decimal_string(m);
        concat("-", digits.as_str())
    } else {
        decimal_string(v as u64)
    }
}

/// A text's horizontal justification (72).
#[derive(Debug, Clone, Copy, PartialEq, Eq)]
pub enum Horizontal {
    Left,
    Center,
    Right,
    Aligned,
    Middle,
    Fit,
}

/// A text's vertical justification (73 for a TEXT, 74 for an attribute).
#[derive(Debug, Clone, Copy, PartialEq, Eq)]
pub enum Vertical {
    Baseline,
    Bottom,
    Middle,
    Top,
}

/// Whether a text is justified other than left on its baseline, the
/// default: only such a text has an alignment point (11).
pub open spec fn is_justified(h: Horizontal, v: Vertical) -> bool {
    !(h == Horizontal::Left && v == Vertical::Baseline)
}

/// Whether a text is justified (see `is_justified`).
pub fn justified(h: Horizontal, v: Vertical) -> (r: bool)
    ensures
        r == is_justified(h, v),
{
    match (h, v) {
        (Horizontal::Left, Vertical::Baseline) => false,
        _ => true,
    }
}

pub open spec fn horizontal_of(v: int) -> Option<Horizontal> {
    if v == 0 {
        Some(Horizontal::Left)
    } else if v == 1 {
        Some(Horizontal::Center)
    } else if v == 2 {
        Some(Horizontal::Right)
    } else if v == 3 {
        Some(Horizontal::Aligned)
    } else if v == 4 {
        Some(Horizontal::Middle)
    } else if v == 5 {
        Some(Horizontal::Fit)
    } else {
        None
    }
}

pub open spec fn vertical_of(v: int) -> Option<Vertical> {
    if v == 0 {
        Some(Vertical::Baseline)
    } else if v == 1 {
        Some(Vertical::Bottom)
    } else if v == 2 {
        Some(Vertical::Middle)
    } else if v == 3 {
        Some(Vertical::Top)
    } else {
        None
    }
}

/// What the reader says of a horizontal alignment outside the format's.
pub open spec fn horizontal_warning(entity_type: Seq<char>, v: int) -> Seq<char> {
    "TEXT_ALIGNMENT: a "@ + entity_type + " states horizontal alignment "@ + signed_text(v)
        + " (group 72), outside 0 to 5; it is read as left"@
}

/// What the reader says of a vertical alignment outside the format's.
pub open spec fn vertical_warning(entity_type: Seq<char>, v: int, code: i32) -> Seq<char> {
    "TEXT_ALIGNMENT: a "@ + entity_type + " states vertical alignment "@ + signed_text(v)
        + " (group "@ + decimal(code as nat) + "), outside 0 to 3; it is read as baseline"@
}

/// The justifications of a TEXT, ATTRIB or ATTDEF: 72 and `vertical` --
/// 73 for a TEXT, 74 for an attribute, whose 73 is its field length. An
/// absent group is the default (left, baseline); a value outside the
/// format's range is reported, and read as the default rather than
/// refused. With them, what the reader reports, in that order.
pub open spec fn justification_of(
    entity_type: Seq<char>,
    ps: Seq<PairView>,
    lo: nat,
    hi: nat,
    vertical: i32,
) -> Result<(Horizontal, Vertical, Seq<Seq<char>>), ReadErrorView> {
    match int_field(ps, lo, hi, 72, i64::MIN as int, i64::MAX as int) {
        Err(e) => Err(e),
        Ok(h) => match int_field(ps, lo, hi, vertical, i64::MIN as int, i64::MAX as int) {
            Err(e) => Err(e),
            Ok(v) => {
                let (hj, hw) = match h {
                    None => (Horizontal::Left, Seq::<Seq<char>>::empty()),
                    Some(x) => match horizontal_of(x) {
                        Some(j) => (j, Seq::empty()),
                        None => (Horizontal::Left, seq![horizontal_warning(entity_type, x)]),
                    },
                };
                let (vj, vw) = match v {
                    None => (Vertical::Baseline, Seq::<Seq<char>>::empty()),
                    Some(x) => match vertical_of(x) {
                        Some(j) => (j, Seq::empty()),
                        None => (Vertical::Baseline, seq![vertical_warning(entity_type, x, vertical)]),
                    },
                };
                Ok((hj, vj, hw + vw))
            },
        },
    }
}

fn horizontal_exec(v: i64) -> (r: Option<Horizontal>)
    ensures
        r == horizontal_of(v as int),
{
    if v == 0 {
        Some(Horizontal::Left)
    } else if v == 1 {
        Some(Horizontal::Center)
    } else if v == 2 {
        Some(Horizontal::Right)
    } else if v == 3 {
        Some(Horizontal::Aligned)
    } else if v == 4 {
        Some(Horizontal::Middle)
    } else if v == 5 {
        Some(Horizontal::Fit)
    } else {
        None
    }
}

fn vertical_exec(v: i64) -> (r: Option<Vertical>)
    ensures
        r == vertical_of(v as int),
{
    if v == 0 {
        Some(Vertical::Baseline)
    } else if v == 1 {
        Some(Vertical::Bottom)
    } else if v == 2 {
        Some(Vertical::Middle)
    } else if v == 3 {
        Some(Vertical::Top)
    } else {
        None
    }
}

/// The justifications of a text and what the reader reports of them (see
/// `justification_of`).
pub fn justification(entity_type: &str, ps: &Vec<Pair>, lo: usize, hi: usize, vertical: i32) -> (r:
    Result<(Horizontal, Vertical, Vec<String>), ReadError>)
    requires
        lo <= hi <= ps@.len(),
        vertical >= 0,
    ensures
        match justification_of(entity_type@, views(ps@), lo as nat, hi as nat, vertical) {
            Ok((h, v, w)) => r matches Ok(x) && x.0 == h && x.1 == v && crate::decode::string_views(
                x.2@,
            ) == w,
            Err(e) => r matches Err(x) && x@ == e,
        },
{
    let h = match int_group(ps, lo, hi, 72) {
        Ok(h) => h,
        Err(e) => {
            return Err(e);
        },
    };
    let v = match int_group(ps, lo, hi, vertical) {
        Ok(v) => v,
        Err(e) => {
            return Err(e);
        },
    };
    let mut warnings: Vec<String> = Vec::new();
    let horizontal = match h {
        None => Horizontal::Left,
        Some(x) => match horizontal_exec(x) {
            Some(j) => j,
            None => {
                let mut m = concat("TEXT_ALIGNMENT: a ", entity_type);
                m.append(" states horizontal alignment ");
                let n = signed_decimal_string(x);
                m.append(n.as_str());
                m.append(" (group 72), outside 0 to 5; it is read as left");
                warnings.push(m);
                Horizontal::Left
            },
        },
    };
    let ghost after_h = crate::decode::string_views(warnings@);
    let vj = match v {
        None => Vertical::Baseline,
        Some(x) => match vertical_exec(x) {
            Some(j) => j,
            None => {
                let mut m = concat("TEXT_ALIGNMENT: a ", entity_type);
                m.append(" states vertical alignment ");
                let n = signed_decimal_string(x);
                m.append(n.as_str());
                m.append(" (group ");
                let c = decimal_string(vertical as u64);
                m.append(c.as_str());
                m.append("), outside 0 to 3; it is read as baseline");
                warnings.push(m);
                Vertical::Baseline
            },
        },
    };
    proof {
        let hw: Seq<Seq<char>> = match h {
            None => Seq::empty(),
            Some(x) => match horizontal_of(x as int) {
                Some(_) => Seq::empty(),
                None => seq![horizontal_warning(entity_type@, x as int)],
            },
        };
        let vw: Seq<Seq<char>> = match v {
            None => Seq::empty(),
            Some(x) => match vertical_of(x as int) {
                Some(_) => Seq::empty(),
                None => seq![vertical_warning(entity_type@, x as int, vertical)],
            },
        };
        assert(after_h =~= hw);
        assert(crate::decode::string_views(warnings@) =~= hw + vw);
    }
    Ok((horizontal, vj, warnings))
}

/// How a leader's path runs between its vertices.
#[derive(Debug, Clone, Copy, PartialEq, Eq)]
pub enum LeaderPath {
    Straight,
    Spline,
}

/// What a leader points its text at.
#[derive(Debug, Clone, Copy, PartialEq, Eq)]
pub enum LeaderAnnotation {
    MText,
    Tolerance,
    Insert,
    Nothing,
}

/// A LEADER's codes: its arrowhead flag (71; a text drawing may omit it,
/// and a value other than 0 or 1 is not one this reader can read), its path
/// (72: 0 straight, 1 spline; the format gives no default), and what it
/// annotates (73: 0 text, 1 tolerance, 2 insert, and 3 -- the format's
/// fallback -- or anything else, nothing). Read in that order.
pub open spec fn leader_codes_of(ps: Seq<PairView>, lo: nat, hi: nat) -> Result<
    (Option<bool>, Option<LeaderPath>, LeaderAnnotation),
    ReadErrorView,
> {
    match int_field(ps, lo, hi, 71, i64::MIN as int, i64::MAX as int) {
        Err(e) => Err(e),
        Ok(a) => match int_field(ps, lo, hi, 72, i64::MIN as int, i64::MAX as int) {
            Err(e) => Err(e),
            Ok(p) => match int_field(ps, lo, hi, 73, i64::MIN as int, i64::MAX as int) {
                Err(e) => Err(e),
                Ok(n) => Ok(
                    (
                        if a == Some(0int) {
                            Some(false)
                        } else if a == Some(1int) {
                            Some(true)
                        } else {
                            None
                        },
                        if p == Some(0int) {
                            Some(LeaderPath::Straight)
                        } else if p == Some(1int) {
                            Some(LeaderPath::Spline)
                        } else {
                            None
                        },
                        if n == Some(0int) {
                            LeaderAnnotation::MText
                        } else if n == Some(1int) {
                            LeaderAnnotation::Tolerance
                        } else if n == Some(2int) {
                            LeaderAnnotation::Insert
                        } else {
                            LeaderAnnotation::Nothing
                        },
                    ),
                ),
            },
        },
    }
}

/// A LEADER's codes (see `leader_codes_of`).
pub fn leader_codes(ps: &Vec<Pair>, lo: usize, hi: usize) -> (r: Result<
    (Option<bool>, Option<LeaderPath>, LeaderAnnotation),
    ReadError,
>)
    requires
        lo <= hi <= ps@.len(),
    ensures
        match leader_codes_of(views(ps@), lo as nat, hi as nat) {
            Ok(c) => r matches Ok(x) && x == c,
            Err(e) => r matches Err(x) && x@ == e,
        },
{
    let a = match int_group(ps, lo, hi, 71) {
        Ok(a) => a,
        Err(e) => {
            return Err(e);
        },
    };
    let p = match int_group(ps, lo, hi, 72) {
        Ok(p) => p,
        Err(e) => {
            return Err(e);
        },
    };
    let n = match int_group(ps, lo, hi, 73) {
        Ok(n) => n,
        Err(e) => {
            return Err(e);
        },
    };
    let arrow = match a {
        Some(0) => Some(false),
        Some(1) => Some(true),
        _ => None,
    };
    let path = match p {
        Some(0) => Some(LeaderPath::Straight),
        Some(1) => Some(LeaderPath::Spline),
        _ => None,
    };
    let annotation = match n {
        Some(0) => LeaderAnnotation::MText,
        Some(1) => LeaderAnnotation::Tolerance,
        Some(2) => LeaderAnnotation::Insert,
        _ => LeaderAnnotation::Nothing,
    };
    Ok((arrow, path, annotation))
}

/// Where an MTEXT's insertion point is on its box.
#[derive(Debug, Clone, Copy, PartialEq, Eq)]
pub enum Attachment {
    TopLeft,
    TopCenter,
    TopRight,
    MiddleLeft,
    MiddleCenter,
    MiddleRight,
    BottomLeft,
    BottomCenter,
    BottomRight,
}

/// An MTEXT's attachment (71): 1 to 9, row by row from the top left; any
/// other value, or none, does not say.
pub open spec fn attachment_of(v: Option<int>) -> Option<Attachment> {
    match v {
        Some(x) => if x == 1 {
            Some(Attachment::TopLeft)
        } else if x == 2 {
            Some(Attachment::TopCenter)
        } else if x == 3 {
            Some(Attachment::TopRight)
        } else if x == 4 {
            Some(Attachment::MiddleLeft)
        } else if x == 5 {
            Some(Attachment::MiddleCenter)
        } else if x == 6 {
            Some(Attachment::MiddleRight)
        } else if x == 7 {
            Some(Attachment::BottomLeft)
        } else if x == 8 {
            Some(Attachment::BottomCenter)
        } else if x == 9 {
            Some(Attachment::BottomRight)
        } else {
            None
        },
        None => None,
    }
}

/// An MTEXT's attachment (see `attachment_of`).
pub fn attachment(ps: &Vec<Pair>, lo: usize, hi: usize) -> (r: Result<Option<Attachment>, ReadError>)
    requires
        lo <= hi <= ps@.len(),
    ensures
        match int_field(views(ps@), lo as nat, hi as nat, 71, i64::MIN as int, i64::MAX as int) {
            Ok(v) => r == Ok::<Option<Attachment>, ReadError>(attachment_of(v)),
            Err(e) => r matches Err(x) && x@ == e,
        },
{
    let v = match int_group(ps, lo, hi, 71) {
        Ok(v) => v,
        Err(e) => {
            return Err(e);
        },
    };
    Ok(
        match v {
            Some(1) => Some(Attachment::TopLeft),
            Some(2) => Some(Attachment::TopCenter),
            Some(3) => Some(Attachment::TopRight),
            Some(4) => Some(Attachment::MiddleLeft),
            Some(5) => Some(Attachment::MiddleCenter),
            Some(6) => Some(Attachment::MiddleRight),
            Some(7) => Some(Attachment::BottomLeft),
            Some(8) => Some(Attachment::BottomCenter),
            Some(9) => Some(Attachment::BottomRight),
            _ => None,
        },
    )
}

/// Which kind of light a LIGHT is.
#[derive(Debug, Clone, Copy, PartialEq, Eq)]
pub enum LightKind {
    Distant,
    Point,
    Spot,
}

/// A LIGHT's kind (70): 1 distant, 2 point, 3 spot; anything else, or none,
/// does not say.
pub fn light_kind(ps: &Vec<Pair>, lo: usize, hi: usize) -> (r: Result<Option<LightKind>, ReadError>)
    requires
        lo <= hi <= ps@.len(),
    ensures
        match int_field(views(ps@), lo as nat, hi as nat, 70, i64::MIN as int, i64::MAX as int) {
            Ok(v) => r == Ok::<Option<LightKind>, ReadError>(
                if v == Some(1int) {
                    Some(LightKind::Distant)
                } else if v == Some(2int) {
                    Some(LightKind::Point)
                } else if v == Some(3int) {
                    Some(LightKind::Spot)
                } else {
                    None
                },
            ),
            Err(e) => r matches Err(x) && x@ == e,
        },
{
    let v = match int_group(ps, lo, hi, 70) {
        Ok(v) => v,
        Err(e) => {
            return Err(e);
        },
    };
    Ok(
        match v {
            Some(1) => Some(LightKind::Distant),
            Some(2) => Some(LightKind::Point),
            Some(3) => Some(LightKind::Spot),
            _ => None,
        },
    )
}

/// A SPLINE's integers: its flags (70) first -- bit 1 closed, 2 periodic; no
/// group 70 is a record that does not say, which is not the same as saying
/// no -- then its degree (71), which reads as 0 when it is absent or not a
/// `u32`.
pub open spec fn spline_codes_of(ps: Seq<PairView>, lo: nat, hi: nat) -> Result<
    (u32, Option<bool>, Option<bool>),
    ReadErrorView,
> {
    match int_field(ps, lo, hi, 70, i64::MIN as int, i64::MAX as int) {
        Err(e) => Err(e),
        Ok(flags) => match int_field(ps, lo, hi, 71, i64::MIN as int, i64::MAX as int) {
            Err(e) => Err(e),
            Ok(d) => {
                let degree: int = match d {
                    Some(x) => x,
                    None => 0,
                };
                Ok(
                    (
                        if 0 <= degree <= u32::MAX {
                            degree as u32
                        } else {
                            0
                        },
                        match flags {
                            Some(f) => Some((f as i64) & 1 != 0),
                            None => None,
                        },
                        match flags {
                            Some(f) => Some((f as i64) & 2 != 0),
                            None => None,
                        },
                    ),
                )
            },
        },
    }
}

/// A SPLINE's degree and flags (see `spline_codes_of`).
pub fn spline_codes(ps: &Vec<Pair>, lo: usize, hi: usize) -> (r: Result<
    (u32, Option<bool>, Option<bool>),
    ReadError,
>)
    requires
        lo <= hi <= ps@.len(),
    ensures
        match spline_codes_of(views(ps@), lo as nat, hi as nat) {
            Ok(c) => r matches Ok(x) && x == c,
            Err(e) => r matches Err(x) && x@ == e,
        },
{
    let flags = match int_group(ps, lo, hi, 70) {
        Ok(f) => f,
        Err(e) => {
            return Err(e);
        },
    };
    let d = match int_group(ps, lo, hi, 71) {
        Ok(d) => match d {
            Some(x) => x,
            None => 0,
        },
        Err(e) => {
            return Err(e);
        },
    };
    let degree: u32 = if 0 <= d && d <= u32::MAX as i64 {
        d as u32
    } else {
        0
    };
    let closed = match flags {
        Some(f) => Some(f & 1 != 0),
        None => None,
    };
    let periodic = match flags {
        Some(f) => Some(f & 2 != 0),
        None => None,
    };
    Ok((degree, closed, periodic))
}

/// An IMAGE's settings as the file states them: its display flags (70) as
/// a `u16`, whether it clips (280), its brightness, contrast and fade (281,
/// 282, 283) each as a `u8`, and whether the clip keeps the outside (290).
/// A value that does not fit its type is not stated. Read in that order.
#[derive(Debug, Clone, Copy, PartialEq, Eq)]
pub struct ImageSettings {
    pub display_flags: Option<u16>,
    pub clipping: Option<bool>,
    pub brightness: Option<u8>,
    pub contrast: Option<u8>,
    pub fade: Option<u8>,
    pub clip_outside: Option<bool>,
}

pub open spec fn fits(v: Option<int>, max: int) -> Option<int> {
    match v {
        Some(x) => if 0 <= x <= max {
            Some(x)
        } else {
            None
        },
        None => None,
    }
}

pub open spec fn image_settings_of(ps: Seq<PairView>, lo: nat, hi: nat) -> Result<
    ImageSettings,
    ReadErrorView,
> {
    match int_field(ps, lo, hi, 70, i64::MIN as int, i64::MAX as int) {
        Err(e) => Err(e),
        Ok(d) => match int_field(ps, lo, hi, 280, i64::MIN as int, i64::MAX as int) {
            Err(e) => Err(e),
            Ok(c) => match int_field(ps, lo, hi, 281, i64::MIN as int, i64::MAX as int) {
                Err(e) => Err(e),
                Ok(b) => match int_field(ps, lo, hi, 282, i64::MIN as int, i64::MAX as int) {
                    Err(e) => Err(e),
                    Ok(k) => match int_field(ps, lo, hi, 283, i64::MIN as int, i64::MAX as int) {
                        Err(e) => Err(e),
                        Ok(f) => match int_field(ps, lo, hi, 290, i64::MIN as int, i64::MAX as int) {
                            Err(e) => Err(e),
                            Ok(o) => Ok(
                                ImageSettings {
                                    display_flags: match fits(d, u16::MAX as int) {
                                        Some(x) => Some(x as u16),
                                        None => None,
                                    },
                                    clipping: match c {
                                        Some(x) => Some(x != 0),
                                        None => None,
                                    },
                                    brightness: match fits(b, u8::MAX as int) {
                                        Some(x) => Some(x as u8),
                                        None => None,
                                    },
                                    contrast: match fits(k, u8::MAX as int) {
                                        Some(x) => Some(x as u8),
                                        None => None,
                                    },
                                    fade: match fits(f, u8::MAX as int) {
                                        Some(x) => Some(x as u8),
                                        None => None,
                                    },
                                    clip_outside: match o {
                                        Some(x) => Some(x != 0),
                                        None => None,
                                    },
                                },
                            ),
                        },
                    },
                },
            },
        },
    }
}

fn small(v: Option<i64>, max: i64) -> (r: Option<i64>)
    ensures
        match fits(
            match v {
                Some(x) => Some(x as int),
                None => None,
            },
            max as int,
        ) {
            Some(x) => r == Some(x as i64),
            None => r is None,
        },
{
    match v {
        Some(x) => {
            if 0 <= x && x <= max {
                Some(x)
            } else {
                None
            }
        },
        None => None,
    }
}

/// An IMAGE's settings (see `image_settings_of`).
pub fn image_settings(ps: &Vec<Pair>, lo: usize, hi: usize) -> (r: Result<ImageSettings, ReadError>)
    requires
        lo <= hi <= ps@.len(),
    ensures
        match image_settings_of(views(ps@), lo as nat, hi as nat) {
            Ok(c) => r matches Ok(x) && x == c,
            Err(e) => r matches Err(x) && x@ == e,
        },
{
    let d = match int_group(ps, lo, hi, 70) {
        Ok(v) => v,
        Err(e) => {
            return Err(e);
        },
    };
    let c = match int_group(ps, lo, hi, 280) {
        Ok(v) => v,
        Err(e) => {
            return Err(e);
        },
    };
    let b = match int_group(ps, lo, hi, 281) {
        Ok(v) => v,
        Err(e) => {
            return Err(e);
        },
    };
    let k = match int_group(ps, lo, hi, 282) {
        Ok(v) => v,
        Err(e) => {
            return Err(e);
        },
    };
    let f = match int_group(ps, lo, hi, 283) {
        Ok(v) => v,
        Err(e) => {
            return Err(e);
        },
    };
    let o = match int_group(ps, lo, hi, 290) {
        Ok(v) => v,
        Err(e) => {
            return Err(e);
        },
    };
    Ok(
        ImageSettings {
            display_flags: match small(d, 65535) {
                Some(x) => Some(x as u16),
                None => None,
            },
            clipping: match c {
                Some(x) => Some(x != 0),
                None => None,
            },
            brightness: match small(b, 255) {
                Some(x) => Some(x as u8),
                None => None,
            },
            contrast: match small(k, 255) {
                Some(x) => Some(x as u8),
                None => None,
            },
            fade: match small(f, 255) {
                Some(x) => Some(x as u8),
                None => None,
            },
            clip_outside: match o {
                Some(x) => Some(x != 0),
                None => None,
            },
        },
    )
}


/// Whether bit `mask` of the first group `code` is set: absent is no bit
/// set. (An LWPOLYLINE's 70 bit 1 closes it; an MLINE's 71 bit 2 does.)
pub fn flag_set(ps: &Vec<Pair>, lo: usize, hi: usize, code: i32, mask: i64) -> (r: Result<bool, ReadError>)
    requires
        lo <= hi <= ps@.len(),
    ensures
        match int_field(views(ps@), lo as nat, hi as nat, code, i64::MIN as int, i64::MAX as int) {
            Ok(v) => r == Ok::<bool, ReadError>(
                match v {
                    Some(f) => (f as i64) & mask != 0,
                    None => false,
                },
            ),
            Err(e) => r matches Err(x) && x@ == e,
        },
{
    match int_group(ps, lo, hi, code) {
        Ok(Some(f)) => Ok(f & mask != 0),
        Ok(None) => Ok(false),
        Err(e) => Err(e),
    }
}

/// A VIEWPORT's ID (69), as the `i32` it is written as.
pub fn viewport_id(ps: &Vec<Pair>, lo: usize, hi: usize) -> (r: Result<Option<i32>, ReadError>)
    requires
        lo <= hi <= ps@.len(),
    ensures
        match int_field(views(ps@), lo as nat, hi as nat, 69, i64::MIN as int, i64::MAX as int) {
            Ok(v) => r == Ok::<Option<i32>, ReadError>(
                match v {
                    Some(x) => Some((x as i64) as i32),
                    None => None,
                },
            ),
            Err(e) => r matches Err(x) && x@ == e,
        },
{
    match int_group(ps, lo, hi, 69) {
        Ok(Some(x)) => Ok(Some(x as i32)),
        Ok(None) => Ok(None),
        Err(e) => Err(e),
    }
}

/// What a POLYLINE is, by its flags (70).
#[derive(Debug, Clone, Copy, PartialEq, Eq)]
pub enum PolylineKind {
    /// A polygon mesh (bit 16), closed in its M direction (bit 1) and its N
    /// direction (bit 32) or not.
    Mesh { closed_m: bool, closed_n: bool },
    /// A polyface mesh (bit 64).
    Polyface,
    /// A 3D polyline (bit 8).
    Polyline3D,
    /// A 2D polyline.
    Polyline2D,
}

/// A POLYLINE's flags: its first group 70 when that is an integer, else 0.
pub open spec fn polyline_flags_of(ps: Seq<PairView>, lo: nat, hi: nat) -> i64 {
    match int_field(ps, lo, hi, 70, i64::MIN as int, i64::MAX as int) {
        Ok(Some(f)) => f as i64,
        _ => 0,
    }
}

/// A POLYLINE's flags (see `polyline_flags_of`).
pub fn polyline_flags(ps: &Vec<Pair>, lo: usize, hi: usize) -> (r: i64)
    requires
        lo <= hi <= ps@.len(),
    ensures
        r == polyline_flags_of(views(ps@), lo as nat, hi as nat),
{
    match int_group(ps, lo, hi, 70) {
        Ok(Some(f)) => f,
        _ => 0,
    }
}

/// What a POLYLINE with flags `flags` is: a mesh first, then a polyface
/// mesh, then a 3D polyline; anything else is a 2D one.
pub fn polyline_kind(flags: i64) -> (r: PolylineKind)
    ensures
        r == (if flags & 16 == 16 {
            PolylineKind::Mesh { closed_m: flags & 1 == 1, closed_n: flags & 32 == 32 }
        } else if flags & 64 == 64 {
            PolylineKind::Polyface
        } else if flags & 8 == 8 {
            PolylineKind::Polyline3D
        } else {
            PolylineKind::Polyline2D
        }),
{
    if flags & 16 == 16 {
        PolylineKind::Mesh { closed_m: flags & 1 == 1, closed_n: flags & 32 == 32 }
    } else if flags & 64 == 64 {
        PolylineKind::Polyface
    } else if flags & 8 == 8 {
        PolylineKind::Polyline3D
    } else {
        PolylineKind::Polyline2D
    }
}

/// What a VERTEX of a polyface mesh is, by its flags (70).
#[derive(Debug, Clone, Copy, PartialEq, Eq)]
pub enum FaceVertex {
    /// A position (bit 64).
    Position,
    /// A face (bit 128 without 64), with its four corner indices (71 to
    /// 74; an absent one is 0).
    Face([i64; 4]),
    /// Neither.
    Neither,
}

pub enum FaceVertexView {
    Position,
    Face(Seq<i64>),
    Neither,
}

impl View for FaceVertex {
    type V = FaceVertexView;

    open spec fn view(&self) -> FaceVertexView {
        match self {
            FaceVertex::Position => FaceVertexView::Position,
            FaceVertex::Face(c) => FaceVertexView::Face(c@),
            FaceVertex::Neither => FaceVertexView::Neither,
        }
    }
}

/// An integer group that may be absent, absent as 0.
pub open spec fn or_zero(v: Option<int>) -> i64 {
    match v {
        Some(x) => x as i64,
        None => 0,
    }
}

/// What the VERTEX record `ps[lo..hi]` of a polyface mesh is: a position
/// where its flags (70, absent 0) have bit 64; a face, with its corner
/// indices 71, 72, 73 and 74, where they have bit 128 and not 64; neither
/// otherwise. The groups are read in that order.
pub open spec fn face_vertex_of(ps: Seq<PairView>, lo: nat, hi: nat) -> Result<FaceVertexView, ReadErrorView> {
    let field = |code: i32| int_field(ps, lo, hi, code, i64::MIN as int, i64::MAX as int);
    match field(70) {
        Err(e) => Err(e),
        Ok(f) => {
            let flags = or_zero(f);
            if flags & 64 != 0 {
                Ok(FaceVertexView::Position)
            } else if flags & 128 == 0 {
                Ok(FaceVertexView::Neither)
            } else {
                match field(71) {
                    Err(e) => Err(e),
                    Ok(a) => match field(72) {
                        Err(e) => Err(e),
                        Ok(b) => match field(73) {
                            Err(e) => Err(e),
                            Ok(c) => match field(74) {
                                Err(e) => Err(e),
                                Ok(d) => Ok(
                                    FaceVertexView::Face(
                                        seq![or_zero(a), or_zero(b), or_zero(c), or_zero(d)],
                                    ),
                                ),
                            },
                        },
                    },
                }
            }
        },
    }
}

fn int_or_zero(ps: &Vec<Pair>, lo: usize, hi: usize, code: i32) -> (r: Result<i64, ReadError>)
    requires
        lo <= hi <= ps@.len(),
    ensures
        match int_field(views(ps@), lo as nat, hi as nat, code, i64::MIN as int, i64::MAX as int) {
            Ok(v) => r == Ok::<i64, ReadError>(or_zero(v)),
            Err(e) => r matches Err(x) && x@ == e,
        },
{
    match int_group(ps, lo, hi, code) {
        Ok(Some(v)) => Ok(v),
        Ok(None) => Ok(0),
        Err(e) => Err(e),
    }
}

/// What a VERTEX record of a polyface mesh is (see `face_vertex_of`).
pub fn face_vertex(ps: &Vec<Pair>, lo: usize, hi: usize) -> (r: Result<FaceVertex, ReadError>)
    requires
        lo <= hi <= ps@.len(),
    ensures
        match face_vertex_of(views(ps@), lo as nat, hi as nat) {
            Ok(v) => r matches Ok(x) && x@ == v,
            Err(e) => r matches Err(x) && x@ == e,
        },
{
    let flags = int_or_zero(ps, lo, hi, 70)?;
    if flags & 64 != 0 {
        return Ok(FaceVertex::Position);
    }
    if flags & 128 == 0 {
        return Ok(FaceVertex::Neither);
    }
    let a = int_or_zero(ps, lo, hi, 71)?;
    let b = int_or_zero(ps, lo, hi, 72)?;
    let c = int_or_zero(ps, lo, hi, 73)?;
    let d = int_or_zero(ps, lo, hi, 74)?;
    let corners = [a, b, c, d];
    assert(corners@ =~= seq![a, b, c, d]);
    Ok(FaceVertex::Face(corners))
}

} // verus!
