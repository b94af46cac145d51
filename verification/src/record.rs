//! A record is the pairs after one group 0, up to the next: what a table
//! entry, an object or an entity states. This module reads groups out of a
//! record by their code.

use vstd::prelude::*;
use crate::decode::{string, stored};
use crate::number::{int_of, int_value};
use crate::pairs::{views, Pair, PairView, ReadError, ReadErrorView};
use crate::text::{owned, str_eq, trimmed};

verus! {

/// The first pair of `ps[lo..hi]` with group `code`.
pub open spec fn first_index(ps: Seq<PairView>, lo: nat, hi: nat, code: i32) -> Option<nat>
    decreases hi - lo,
{
    if lo >= hi {
        None
    } else if ps[lo as int].code == code {
        Some(lo)
    } else {
        first_index(ps, lo + 1, hi, code)
    }
}

/// Where a record's own groups end: at its first group 101, which starts
/// an embedded object, or at its end.
pub open spec fn own_end(ps: Seq<PairView>, lo: nat, hi: nat) -> nat {
    match first_index(ps, lo, hi, 101) {
        Some(i) => i,
        None => hi,
    }
}

/// The first subclass marker (group 100) of `ps[lo..hi]` that is not
/// `AcDbEntity`.
pub open spec fn first_subclass(ps: Seq<PairView>, lo: nat, hi: nat) -> Option<nat>
    decreases hi - lo,
{
    if lo >= hi {
        None
    } else if ps[lo as int].code == 100 && trimmed(ps[lo as int].value) != "AcDbEntity"@ {
        Some(lo)
    } else {
        first_subclass(ps, lo + 1, hi)
    }
}

/// Where the groups every entity carries end: at the first subclass marker
/// after `AcDbEntity`, or at the end of `ps[lo..hi]`.
pub open spec fn common_end(ps: Seq<PairView>, lo: nat, hi: nat) -> nat {
    match first_subclass(ps, lo, hi) {
        Some(i) => i,
        None => hi,
    }
}

/// The first group `code` of `ps[lo..hi]` read as an integer of the range
/// `min..=max`: `None` where the group is absent, the error that names the
/// pair where its value is not such an integer.
pub open spec fn int_field(
    ps: Seq<PairView>,
    lo: nat,
    hi: nat,
    code: i32,
    min: int,
    max: int,
) -> Result<Option<int>, ReadErrorView> {
    match first_index(ps, lo, hi, code) {
        None => Ok(None),
        Some(i) => match int_value(ps[i as int].value, min, max) {
            Some(v) => Ok(Some(v)),
            None => Err(
                ReadErrorView::BadNumber {
                    line: ps[i as int].line,
                    code: ps[i as int].code,
                    text: ps[i as int].value,
                },
            ),
        },
    }
}

/// The first pair of `ps[lo..hi]` with group `code`.
pub fn find(ps: &Vec<Pair>, lo: usize, hi: usize, code: i32) -> (r: Option<usize>)
    requires
        lo <= hi <= ps@.len(),
    ensures
        match r {
            Some(i) => first_index(views(ps@), lo as nat, hi as nat, code) == Some(i as nat),
            None => first_index(views(ps@), lo as nat, hi as nat, code) is None,
        },
        r matches Some(i) ==> lo <= i < hi,
{
    let ghost pv = views(ps@);
    let mut i = lo;
    while i < hi
        invariant
            pv == views(ps@),
            lo <= i <= hi <= ps@.len(),
            first_index(pv, lo as nat, hi as nat, code) == first_index(pv, i as nat, hi as nat, code),
        decreases hi - i,
    {
        assert(pv[i as int] == ps@[i as int]@);
        if ps[i].code == code {
            return Some(i);
        }
        i = i + 1;
    }
    None
}

/// Where a record's own groups end (see `own_end`): everything before an
/// embedded object. A multi-line attribute, for one, carries an MTEXT after
/// a group 101 marker, and that object writes its own insertion point,
/// height and text under the same codes as the attribute.
pub fn own_part(ps: &Vec<Pair>, lo: usize, hi: usize) -> (r: usize)
    requires
        lo <= hi <= ps@.len(),
    ensures
        r == own_end(views(ps@), lo as nat, hi as nat),
        lo <= r <= hi,
{
    match find(ps, lo, hi, 101) {
        Some(i) => i,
        None => hi,
    }
}

/// Where the groups every entity carries end (see `common_end`): a type's
/// own subclass may reuse their codes -- a section object's group 62 is its
/// indicator colour, not the entity's -- so they are not looked for past
/// it. A record without subclass markers (before R13) is all common part
/// and type part at once.
pub fn common_part(ps: &Vec<Pair>, lo: usize, hi: usize) -> (r: usize)
    requires
        lo <= hi <= ps@.len(),
    ensures
        r == common_end(views(ps@), lo as nat, hi as nat),
        lo <= r <= hi,
{
    let ghost pv = views(ps@);
    let mut i = lo;
    while i < hi
        invariant
            pv == views(ps@),
            lo <= i <= hi <= ps@.len(),
            first_subclass(pv, lo as nat, hi as nat) == first_subclass(pv, i as nat, hi as nat),
        decreases hi - i,
    {
        assert(pv[i as int] == ps@[i as int]@);
        if ps[i].code == 100 && !str_eq(crate::text::trim(ps[i].value), "AcDbEntity") {
            return i;
        }
        i = i + 1;
    }
    hi
}

/// The error a value that is not a number raises: it names the pair.
pub open spec fn bad_number(p: PairView) -> ReadErrorView {
    ReadErrorView::BadNumber { line: p.line, code: p.code, text: p.value }
}

/// The first group `code` of `ps[lo..hi]`, read as an integer of the range
/// `min..=max` (see `int_field`).
pub fn int_in(ps: &Vec<Pair>, lo: usize, hi: usize, code: i32, min: i64, max: i64) -> (r: Result<
    Option<i64>,
    ReadError,
>)
    requires
        lo <= hi <= ps@.len(),
        min <= -15,
        max >= 15,
    ensures
        match int_field(views(ps@), lo as nat, hi as nat, code, min as int, max as int) {
            Ok(Some(v)) => r == Ok::<Option<i64>, ReadError>(Some(v as i64)),
            Ok(None) => r == Ok::<Option<i64>, ReadError>(None),
            Err(e) => r matches Err(x) && x@ == e,
        },
{
    match find(ps, lo, hi, code) {
        None => Ok(None),
        Some(i) => {
            let p = ps[i];
            assert(views(ps@)[i as int] == p@);
            match int_of(p.value, min, max) {
                Some(v) => Ok(Some(v)),
                None => Err(ReadError::BadNumber { line: p.line, code: p.code, text: owned(p.value) }),
            }
        },
    }
}

/// An integer group of an entity's record: the first group `code` of `ps[lo..hi]` as
/// an `i64`.
pub fn int_group(ps: &Vec<Pair>, lo: usize, hi: usize, code: i32) -> (r: Result<Option<i64>, ReadError>)
    requires
        lo <= hi <= ps@.len(),
    ensures
        match int_field(views(ps@), lo as nat, hi as nat, code, i64::MIN as int, i64::MAX as int) {
            Ok(Some(v)) => r == Ok::<Option<i64>, ReadError>(Some(v as i64)),
            Ok(None) => r == Ok::<Option<i64>, ReadError>(None),
            Err(e) => r matches Err(x) && x@ == e,
        },
{
    int_in(ps, lo, hi, code, i64::MIN, i64::MAX)
}

/// The value of the first group `code` of `ps[lo..hi]`, as written.
pub fn text<'a>(ps: &Vec<Pair<'a>>, lo: usize, hi: usize, code: i32) -> (r: Option<&'a str>)
    requires
        lo <= hi <= ps@.len(),
    ensures
        match first_index(views(ps@), lo as nat, hi as nat, code) {
            Some(i) => r matches Some(s) && s@ == views(ps@)[i as int].value,
            None => r is None,
        },
{
    match find(ps, lo, hi, code) {
        Some(i) => {
            assert(views(ps@)[i as int] == ps@[i as int]@);
            Some(ps[i].value)
        },
        None => None,
    }
}


/// The error a value that is not a number raises, for the pair `p`.
pub fn bad(p: Pair) -> (r: ReadError)
    ensures
        r@ == bad_number(p@),
{
    ReadError::BadNumber { line: p.line, code: p.code, text: owned(p.value) }
}

/// The first number of group `code` in `ps[lo..hi]`, if there is one.
pub open spec fn number_field(ps: Seq<PairView>, fl: Seq<Option<bool>>, lo: nat, hi: nat, code: i32) -> Result<
    Option<usize>,
    ReadErrorView,
> {
    match first_index(ps, lo, hi, code) {
        None => Ok(None),
        Some(i) => if fl[i as int] is Some {
            Ok(Some(i as usize))
        } else {
            Err(bad_number(ps[i as int]))
        },
    }
}

/// The first number of group `code` in `ps[lo..hi]` (see `number_field`).
pub fn number_field_at(ps: &Vec<Pair>, fl: &Vec<Option<bool>>, lo: usize, hi: usize, code: i32) -> (r: Result<
    Option<usize>,
    ReadError,
>)
    requires
        lo <= hi <= ps@.len(),
        fl@.len() == ps@.len(),
    ensures
        match number_field(views(ps@), fl@, lo as nat, hi as nat, code) {
            Ok(v) => r matches Ok(x) && x == v,
            Err(e) => r matches Err(x) && x@ == e,
        },
{
    match find(ps, lo, hi, code) {
        None => Ok(None),
        Some(i) => {
            assert(views(ps@)[i as int] == ps@[i as int]@);
            if fl[i].is_some() {
                Ok(Some(i))
            } else {
                Err(bad(ps[i]))
            }
        },
    }
}

/// A group a record's reading takes a number from: the first group `code`
/// of `ps[lo..hi]`, an integer of the range `min..=max` or a decimal
/// number.
#[derive(Debug, Clone, Copy, PartialEq, Eq)]
pub enum Check {
    Int { code: i32, lo: usize, hi: usize, min: i64, max: i64 },
    Number { code: i32, lo: usize, hi: usize },
}

/// The error a check finds, if it finds one: the group is there and its
/// value is not the number it must be.
pub open spec fn check_error(ps: Seq<PairView>, fl: Seq<Option<bool>>, c: Check) -> Option<ReadErrorView> {
    match c {
        Check::Int { code, lo, hi, min, max } => match int_field(
            ps,
            lo as nat,
            hi as nat,
            code,
            min as int,
            max as int,
        ) {
            Err(e) => Some(e),
            Ok(_) => None,
        },
        Check::Number { code, lo, hi } => match number_field(ps, fl, lo as nat, hi as nat, code) {
            Err(e) => Some(e),
            Ok(_) => None,
        },
    }
}

/// The first error the checks find, in their order.
pub open spec fn first_error(ps: Seq<PairView>, fl: Seq<Option<bool>>, cs: Seq<Check>) -> Option<
    ReadErrorView,
>
    decreases cs.len(),
{
    if cs.len() == 0 {
        None
    } else {
        match check_error(ps, fl, cs[0]) {
            Some(e) => Some(e),
            None => first_error(ps, fl, cs.drop_first()),
        }
    }
}

/// A check whose bounds lie in the pairs, and whose range holds the
/// integers the reading asks for.
pub open spec fn check_fits(c: Check, n: nat) -> bool {
    match c {
        Check::Int { lo, hi, min, max, .. } => lo <= hi <= n && min <= -15 && max >= 15,
        Check::Number { lo, hi, .. } => lo <= hi <= n,
    }
}

/// Where the checks find no error, none of them does.
pub proof fn lemma_no_first_error(ps: Seq<PairView>, fl: Seq<Option<bool>>, cs: Seq<Check>)
    requires
        first_error(ps, fl, cs) is None,
    ensures
        forall|j: int| 0 <= j < cs.len() ==> (#[trigger] check_error(ps, fl, cs[j])) is None,
    decreases cs.len(),
{
    if cs.len() > 0 {
        lemma_no_first_error(ps, fl, cs.drop_first());
        assert forall|j: int| 0 <= j < cs.len() implies (#[trigger] check_error(ps, fl, cs[j])) is None by {
            if j > 0 {
                assert(cs[j] == cs.drop_first()[j - 1]);
            }
        }
    }
}

/// The first error the checks find, in their order (see `first_error`).
pub fn first_error_of(ps: &Vec<Pair>, fl: &Vec<Option<bool>>, cs: &Vec<Check>) -> (r: Option<ReadError>)
    requires
        fl@.len() == ps@.len(),
        forall|j: int| 0 <= j < cs@.len() ==> check_fits(#[trigger] cs@[j], ps@.len()),
    ensures
        match first_error(views(ps@), fl@, cs@) {
            Some(e) => r matches Some(x) && x@ == e,
            None => r is None,
        },
{
    let ghost pv = views(ps@);
    let mut i: usize = 0;
    assert(cs@.skip(0) =~= cs@);
    while i < cs.len()
        invariant
            pv == views(ps@),
            fl@.len() == ps@.len(),
            forall|j: int| 0 <= j < cs@.len() ==> check_fits(#[trigger] cs@[j], ps@.len()),
            i <= cs@.len(),
            first_error(pv, fl@, cs@) == first_error(pv, fl@, cs@.skip(i as int)),
        decreases cs@.len() - i,
    {
        let c = cs[i];
        assert(cs@.skip(i as int)[0] == c);
        assert(cs@.skip(i as int).drop_first() =~= cs@.skip(i + 1));
        assert(check_fits(cs@[i as int], ps@.len()));
        match c {
            Check::Int { code, lo, hi, min, max } => {
                if let Err(e) = int_in(ps, lo, hi, code, min, max) {
                    return Some(e);
                }
            },
            Check::Number { code, lo, hi } => {
                if let Err(e) = number_field_at(ps, fl, lo, hi, code) {
                    return Some(e);
                }
            },
        }
        i = i + 1;
    }
    None
}

/// A name the file writes, as a reference before the tables resolve it:
/// absent, unresolved carrying the name, or resolved to a declared entry.
#[derive(Debug, Clone, PartialEq, Eq)]
pub enum NameRef {
    Absent,
    Unresolved(String),
    Resolved(String),
}

/// A reference as the contracts speak of it.
pub enum RefView {
    Absent,
    Unresolved(Seq<char>),
    Resolved(Seq<char>),
}

impl View for NameRef {
    type V = RefView;

    open spec fn view(&self) -> RefView {
        match self {
            NameRef::Absent => RefView::Absent,
            NameRef::Unresolved(s) => RefView::Unresolved(s@),
            NameRef::Resolved(s) => RefView::Resolved(s@),
        }
    }
}

/// A LAYER table entry.
#[derive(Debug, Clone, PartialEq, Eq)]
pub struct LayerRecord {
    pub name: String,
    pub color_index: i16,
    pub off: bool,
    pub frozen: bool,
    pub locked: bool,
    pub plot: Option<bool>,
    pub lineweight: Option<i16>,
    pub linetype: NameRef,
}

pub struct LayerView {
    pub name: Seq<char>,
    pub color_index: i16,
    pub off: bool,
    pub frozen: bool,
    pub locked: bool,
    pub plot: Option<bool>,
    pub lineweight: Option<i16>,
    pub linetype: RefView,
}

impl View for LayerRecord {
    type V = LayerView;

    open spec fn view(&self) -> LayerView {
        LayerView {
            name: self.name@,
            color_index: self.color_index,
            off: self.off,
            frozen: self.frozen,
            locked: self.locked,
            plot: self.plot,
            lineweight: self.lineweight,
            linetype: self.linetype@,
        }
    }
}

/// A LAYER table entry from its record `ps[lo..hi]`, or `None` for a
/// record without a name (the table's own header record).
///
/// A DXF says a layer is off with the sign of its colour (62; absent is 7),
/// and states group 70 in its own bit layout: 1 frozen, 4 locked. The plot
/// flag (290) and the lineweight (370) are absent where the file does not
/// write them. The linetype (6) is carried by name, to be resolved against
/// the LTYPE table; an empty one is none. The groups are read in that order,
/// and the first that is not a number is the error.
pub open spec fn layer_of(ps: Seq<PairView>, lo: nat, hi: nat) -> Result<
    Option<LayerView>,
    ReadErrorView,
> {
    match first_index(ps, lo, hi, 2) {
        None => Ok(None),
        Some(n) => match int_field(ps, lo, hi, 62, i16::MIN as int, i16::MAX as int) {
            Err(e) => Err(e),
            Ok(color) => match int_field(ps, lo, hi, 70, i64::MIN as int, i64::MAX as int) {
                Err(e) => Err(e),
                Ok(flags) => match int_field(ps, lo, hi, 290, i64::MIN as int, i64::MAX as int) {
                    Err(e) => Err(e),
                    Ok(plot) => match int_field(
                        ps,
                        lo,
                        hi,
                        370,
                        i16::MIN as int,
                        i16::MAX as int,
                    ) {
                        Err(e) => Err(e),
                        Ok(lineweight) => {
                            let color_index: i16 = match color {
                                Some(c) => c as i16,
                                None => 7,
                            };
                            let f: i64 = match flags {
                                Some(f) => f as i64,
                                None => 0,
                            };
                            Ok(
                                Some(
                                    LayerView {
                                        name: stored(ps[n as int].value),
                                        color_index,
                                        off: color_index < 0,
                                        frozen: f & 1 != 0,
                                        locked: f & 4 != 0,
                                        plot: match plot {
                                            Some(v) => Some(v != 0),
                                            None => None,
                                        },
                                        lineweight: match lineweight {
                                            Some(w) => Some(w as i16),
                                            None => None,
                                        },
                                        linetype: match first_index(ps, lo, hi, 6) {
                                            Some(i) => if ps[i as int].value.len() > 0 {
                                                RefView::Unresolved(stored(ps[i as int].value))
                                            } else {
                                                RefView::Absent
                                            },
                                            None => RefView::Absent,
                                        },
                                    },
                                ),
                            )
                        },
                    },
                },
            },
        },
    }
}

/// A LAYER table entry from its record `ps[lo..hi]` (see `layer_of`).
pub fn layer(ps: &Vec<Pair>, lo: usize, hi: usize) -> (r: Result<Option<LayerRecord>, ReadError>)
    requires
        lo <= hi <= ps@.len(),
    ensures
        match layer_of(views(ps@), lo as nat, hi as nat) {
            Ok(Some(l)) => r matches Ok(Some(x)) && x@ == l,
            Ok(None) => r matches Ok(None),
            Err(e) => r matches Err(x) && x@ == e,
        },
{
    let name = match text(ps, lo, hi, 2) {
        Some(n) => n,
        None => {
            return Ok(None);
        },
    };
    let color_index: i16 = match int_in(ps, lo, hi, 62, i16::MIN as i64, i16::MAX as i64) {
        Ok(Some(c)) => c as i16,
        Ok(None) => 7,
        Err(e) => {
            return Err(e);
        },
    };
    let flags: i64 = match int_group(ps, lo, hi, 70) {
        Ok(Some(f)) => f,
        Ok(None) => 0,
        Err(e) => {
            return Err(e);
        },
    };
    let plot: Option<bool> = match int_group(ps, lo, hi, 290) {
        Ok(Some(v)) => Some(v != 0),
        Ok(None) => None,
        Err(e) => {
            return Err(e);
        },
    };
    let lineweight: Option<i16> = match int_in(ps, lo, hi, 370, i16::MIN as i64, i16::MAX as i64) {
        Ok(Some(w)) => Some(w as i16),
        Ok(None) => None,
        Err(e) => {
            return Err(e);
        },
    };
    let linetype = match text(ps, lo, hi, 6) {
        Some(t) => {
            if t.is_empty() {
                NameRef::Absent
            } else {
                NameRef::Unresolved(string(t))
            }
        },
        None => NameRef::Absent,
    };
    Ok(
        Some(
            LayerRecord {
                name: string(name),
                color_index,
                off: color_index < 0,
                frozen: flags & 1 != 0,
                locked: flags & 4 != 0,
                plot,
                lineweight,
                linetype,
            },
        ),
    )
}

} // verus!
