//! The dimension-style variables a single dimension or leader sets for
//! itself: the `DSTYLE` list of its extended data under the `ACAD`
//! application, a `{ ... }` list of (variable, value) pairs.

use vstd::prelude::*;
use crate::decode::{string, stored};
use crate::number::{int_of, int_value};
use crate::pairs::{views, Pair, PairView, ReadError, ReadErrorView};
use crate::record::{bad, bad_number};
use crate::text::{ascii_uppercase, str_eq, to_ascii_uppercase, trim, trimmed};

verus! {

/// A style variable's value, in the kind the file states it in.
#[derive(Debug, Clone, PartialEq, Eq)]
pub enum OverrideAt {
    /// A real number (1040): the pair that holds it.
    Real(usize),
    /// An integer (1070 or 1071).
    Integer(i32),
    /// A string (1000), its storage undone.
    Text(String),
    /// A handle to another object (1005), upper case.
    Handle(String),
}

pub enum OverrideView {
    Real(usize),
    Integer(i32),
    Text(Seq<char>),
    Handle(Seq<char>),
}

impl View for OverrideAt {
    type V = OverrideView;

    open spec fn view(&self) -> OverrideView {
        match self {
            OverrideAt::Real(i) => OverrideView::Real(*i),
            OverrideAt::Integer(v) => OverrideView::Integer(*v),
            OverrideAt::Text(s) => OverrideView::Text(s@),
            OverrideAt::Handle(h) => OverrideView::Handle(h@),
        }
    }
}

/// The views of a list of overrides.
pub open spec fn override_views(v: Seq<(u16, OverrideAt)>) -> Seq<(u16, OverrideView)> {
    v.map_values(|o: (u16, OverrideAt)| (o.0, o.1@))
}

/// Whether `p` is group `code` whose value, trimmed, is `value`.
pub open spec fn is_tagged(p: PairView, code: i32, value: Seq<char>) -> bool {
    p.code == code && trimmed(p.value) == value
}

/// The first pair of `ps[i..hi]` that is group `code` with the value
/// `value`.
pub open spec fn first_tagged(ps: Seq<PairView>, i: nat, hi: nat, code: i32, value: Seq<char>) -> Option<nat>
    decreases hi - i,
{
    if i >= hi {
        None
    } else if is_tagged(ps[i as int], code, value) {
        Some(i)
    } else {
        first_tagged(ps, i + 1, hi, code, value)
    }
}

/// Where an application's extended data that goes on at `i` ends: at the
/// next application's name (1001), or at `hi`.
pub open spec fn app_end(ps: Seq<PairView>, i: nat, hi: nat) -> nat
    decreases hi - i,
{
    if i >= hi {
        hi
    } else if ps[i as int].code == 1001 {
        i
    } else {
        app_end(ps, i + 1, hi)
    }
}

/// Where the `DSTYLE` list of `ps[lo..hi]` starts and where the `ACAD`
/// data it is in ends: the first `1001/ACAD`, then in its data the first
/// `1000/DSTYLE`, which a `1002/{` must follow. None where the record has
/// no such list.
pub open spec fn dstyle_list(ps: Seq<PairView>, lo: nat, hi: nat) -> Option<(nat, nat)> {
    match first_tagged(ps, lo, hi, 1001, "ACAD"@) {
        None => None,
        Some(a) => {
            let end = app_end(ps, a + 1, hi);
            match first_tagged(ps, a + 1, end, 1000, "DSTYLE"@) {
                Some(d) => if d + 1 < end && is_tagged(ps[(d + 1) as int], 1002, "{"@) {
                    Some((d + 2, end))
                } else {
                    None
                },
                None => None,
            }
        },
    }
}

/// A variable (1070): its group code in a DIMSTYLE record, `0..=65535`.
pub open spec fn variable_of(p: PairView) -> Result<u16, ReadErrorView> {
    match int_value(p.value, i32::MIN as int, i32::MAX as int) {
        Some(v) => if 0 <= v <= u16::MAX {
            Ok(v as u16)
        } else {
            Err(bad_number(p))
        },
        None => Err(bad_number(p)),
    }
}

/// The value the pair `i` states for a variable, by its group code: a real
/// number (1040), an integer (1070, 1071), a string (1000), a handle
/// (1005); none for another group.
pub open spec fn value_of(ps: Seq<PairView>, fl: Seq<Option<bool>>, i: nat) -> Option<
    Result<OverrideView, ReadErrorView>,
> {
    let q = ps[i as int];
    if q.code == 1040 {
        Some(
            if fl[i as int] is None {
                Err(bad_number(q))
            } else {
                Ok(OverrideView::Real(i as usize))
            },
        )
    } else if q.code == 1070 || q.code == 1071 {
        Some(
            match int_value(q.value, i32::MIN as int, i32::MAX as int) {
                Some(v) => Ok(OverrideView::Integer(v as i32)),
                None => Err(bad_number(q)),
            },
        )
    } else if q.code == 1000 {
        Some(Ok(OverrideView::Text(stored(q.value))))
    } else if q.code == 1005 {
        Some(Ok(OverrideView::Handle(ascii_uppercase(trimmed(q.value)))))
    } else {
        None
    }
}

/// The list from `i` up to its `1002/}` or `end`: a variable (1070) and,
/// in the pair after it, its value; a variable whose next pair states no
/// value of a kind above, and any other pair, are passed over. The first
/// variable or value that is not a number of its kind is the error.
pub open spec fn overrides_from(ps: Seq<PairView>, fl: Seq<Option<bool>>, i: nat, end: nat) -> Result<
    Seq<(u16, OverrideView)>,
    ReadErrorView,
>
    decreases end - i,
{
    if i >= end {
        Ok(Seq::empty())
    } else if is_tagged(ps[i as int], 1002, "}"@) {
        Ok(Seq::empty())
    } else if ps[i as int].code == 1070 && i + 1 < end {
        match variable_of(ps[i as int]) {
            Err(e) => Err(e),
            Ok(var) => match value_of(ps, fl, i + 1) {
                None => overrides_from(ps, fl, i + 1, end),
                Some(Err(e)) => Err(e),
                Some(Ok(v)) => match overrides_from(ps, fl, i + 2, end) {
                    Ok(rest) => Ok(seq![(var, v)] + rest),
                    Err(e) => Err(e),
                },
            },
        }
    } else {
        overrides_from(ps, fl, i + 1, end)
    }
}

/// The style variables the record `ps[lo..hi]` sets for itself, in file
/// order (see `overrides_from`); none where it has no `DSTYLE` list.
pub open spec fn style_overrides_of(ps: Seq<PairView>, fl: Seq<Option<bool>>, lo: nat, hi: nat) -> Result<
    Seq<(u16, OverrideView)>,
    ReadErrorView,
> {
    match dstyle_list(ps, lo, hi) {
        None => Ok(Seq::empty()),
        Some((start, end)) => overrides_from(ps, fl, start, end),
    }
}

fn tagged(p: Pair, code: i32, value: &str) -> (r: bool)
    ensures
        r == is_tagged(p@, code, value@),
{
    p.code == code && str_eq(trim(p.value), value)
}

fn find_tagged(ps: &Vec<Pair>, lo: usize, hi: usize, code: i32, value: &str) -> (r: Option<usize>)
    requires
        lo <= hi <= ps@.len(),
    ensures
        match first_tagged(views(ps@), lo as nat, hi as nat, code, value@) {
            Some(i) => r == Some(i as usize),
            None => r is None,
        },
{
    let ghost pv = views(ps@);
    let mut i = lo;
    while i < hi
        invariant
            pv == views(ps@),
            lo <= i <= hi <= ps@.len(),
            first_tagged(pv, lo as nat, hi as nat, code, value@) == first_tagged(
                pv,
                i as nat,
                hi as nat,
                code,
                value@,
            ),
        decreases hi - i,
    {
        assert(pv[i as int] == ps@[i as int]@);
        if tagged(ps[i], code, value) {
            return Some(i);
        }
        i = i + 1;
    }
    None
}

fn find_app_end(ps: &Vec<Pair>, lo: usize, hi: usize) -> (r: usize)
    requires
        lo <= hi <= ps@.len(),
    ensures
        r == app_end(views(ps@), lo as nat, hi as nat),
        lo <= r <= hi,
{
    let ghost pv = views(ps@);
    let mut i = lo;
    while i < hi
        invariant
            pv == views(ps@),
            lo <= i <= hi <= ps@.len(),
            app_end(pv, lo as nat, hi as nat) == app_end(pv, i as nat, hi as nat),
        decreases hi - i,
    {
        assert(pv[i as int] == ps@[i as int]@);
        if ps[i].code == 1001 {
            return i;
        }
        i = i + 1;
    }
    hi
}

proof fn lemma_first_tagged_bounds(ps: Seq<PairView>, i: nat, hi: nat, code: i32, value: Seq<char>)
    ensures
        first_tagged(ps, i, hi, code, value) matches Some(j) ==> i <= j < hi && is_tagged(
            ps[j as int],
            code,
            value,
        ),
    decreases hi - i,
{
    if i < hi && !is_tagged(ps[i as int], code, value) {
        lemma_first_tagged_bounds(ps, i + 1, hi, code, value);
    }
}

proof fn lemma_app_end_bounds(ps: Seq<PairView>, i: nat, hi: nat)
    ensures
        i <= hi ==> i <= app_end(ps, i, hi) <= hi,
    decreases hi - i,
{
    if i < hi && ps[i as int].code != 1001 {
        lemma_app_end_bounds(ps, i + 1, hi);
    }
}

/// Where the `DSTYLE` list of `ps[lo..hi]` is (see `dstyle_list`).
fn find_list(ps: &Vec<Pair>, lo: usize, hi: usize) -> (r: Option<(usize, usize)>)
    requires
        lo <= hi <= ps@.len(),
    ensures
        match dstyle_list(views(ps@), lo as nat, hi as nat) {
            Some((s, e)) => r == Some((s as usize, e as usize)) && s <= e <= hi,
            None => r is None,
        },
{
    let ghost pv = views(ps@);
    proof {
        lemma_first_tagged_bounds(pv, lo as nat, hi as nat, 1001, "ACAD"@);
    }
    let a = match find_tagged(ps, lo, hi, 1001, "ACAD") {
        Some(a) => a,
        None => {
            return None;
        },
    };
    let end = find_app_end(ps, a + 1, hi);
    proof {
        lemma_first_tagged_bounds(pv, (a + 1) as nat, end as nat, 1000, "DSTYLE"@);
    }
    match find_tagged(ps, a + 1, end, 1000, "DSTYLE") {
        Some(d) => {
            if d + 1 < end && tagged(ps[d + 1], 1002, "{") {
                assert(pv[d + 1] == ps@[d + 1]@);
                Some((d + 2, end))
            } else {
                proof {
                    if d + 1 < end {
                        assert(pv[d + 1] == ps@[d + 1]@);
                    }
                }
                None
            }
        },
        None => None,
    }
}

fn variable(p: Pair) -> (r: Result<u16, ReadError>)
    ensures
        match variable_of(p@) {
            Ok(v) => r == Ok::<u16, ReadError>(v),
            Err(e) => r matches Err(x) && x@ == e,
        },
{
    match int_of(p.value, i32::MIN as i64, i32::MAX as i64) {
        Some(v) => {
            if 0 <= v && v <= u16::MAX as i64 {
                Ok(v as u16)
            } else {
                Err(bad(p))
            }
        },
        None => Err(bad(p)),
    }
}

fn value(ps: &Vec<Pair>, fl: &Vec<Option<bool>>, i: usize) -> (r: Option<Result<OverrideAt, ReadError>>)
    requires
        i < ps@.len(),
        fl@.len() == ps@.len(),
    ensures
        match value_of(views(ps@), fl@, i as nat) {
            None => r is None,
            Some(Ok(v)) => r matches Some(Ok(x)) && x@ == v,
            Some(Err(e)) => r matches Some(Err(x)) && x@ == e,
        },
{
    let q = ps[i];
    assert(views(ps@)[i as int] == q@);
    if q.code == 1040 {
        Some(
            match fl[i] {
                None => Err(bad(q)),
                Some(_) => Ok(OverrideAt::Real(i)),
            },
        )
    } else if q.code == 1070 || q.code == 1071 {
        Some(
            match int_of(q.value, i32::MIN as i64, i32::MAX as i64) {
                Some(v) => Ok(OverrideAt::Integer(v as i32)),
                None => Err(bad(q)),
            },
        )
    } else if q.code == 1000 {
        Some(Ok(OverrideAt::Text(string(q.value))))
    } else if q.code == 1005 {
        Some(Ok(OverrideAt::Handle(to_ascii_uppercase(trim(q.value)))))
    } else {
        None
    }
}

/// The style variables the record `ps[lo..hi]` sets for itself (see
/// `style_overrides_of`); `fl` says of each pair whether its value is a
/// number.
pub fn style_overrides(ps: &Vec<Pair>, fl: &Vec<Option<bool>>, lo: usize, hi: usize) -> (r: Result<
    Vec<(u16, OverrideAt)>,
    ReadError,
>)
    requires
        lo <= hi <= ps@.len(),
        fl@.len() == ps@.len(),
    ensures
        match style_overrides_of(views(ps@), fl@, lo as nat, hi as nat) {
            Ok(v) => r matches Ok(x) && override_views(x@) == v,
            Err(e) => r matches Err(x) && x@ == e,
        },
{
    let ghost pv = views(ps@);
    let (start, end) = match find_list(ps, lo, hi) {
        Some(se) => se,
        None => {
            let out: Vec<(u16, OverrideAt)> = Vec::new();
            assert(override_views(out@) =~= Seq::<(u16, OverrideView)>::empty());
            return Ok(out);
        },
    };
    let ghost whole = overrides_from(pv, fl@, start as nat, end as nat);
    let mut out: Vec<(u16, OverrideAt)> = Vec::new();
    let mut i = start;
    assert(override_views(out@) =~= Seq::<(u16, OverrideView)>::empty());
    while i < end
        invariant
            pv == views(ps@),
            fl@.len() == ps@.len(),
            start <= i <= end <= ps@.len(),
            whole == overrides_from(pv, fl@, start as nat, end as nat),
            whole == style_overrides_of(pv, fl@, lo as nat, hi as nat),
            match overrides_from(pv, fl@, i as nat, end as nat) {
                Ok(rest) => whole == Ok::<Seq<(u16, OverrideView)>, ReadErrorView>(
                    override_views(out@) + rest,
                ),
                Err(e) => whole == Err::<Seq<(u16, OverrideView)>, ReadErrorView>(e),
            },
        decreases end - i,
    {
        let p = ps[i];
        assert(pv[i as int] == p@);
        if tagged(p, 1002, "}") {
            assert(override_views(out@) + Seq::<(u16, OverrideView)>::empty() =~= override_views(out@));
            return Ok(out);
        }
        if p.code == 1070 && i + 1 < end {
            let var = match variable(p) {
                Ok(v) => v,
                Err(e) => {
                    return Err(e);
                },
            };
            match value(ps, fl, i + 1) {
                None => {
                    i = i + 1;
                },
                Some(Err(e)) => {
                    return Err(e);
                },
                Some(Ok(v)) => {
                    let ghost before = override_views(out@);
                    let ghost vv = v@;
                    out.push((var, v));
                    assert(override_views(out@) =~= before.push((var, vv)));
                    proof {
                        match overrides_from(pv, fl@, (i + 2) as nat, end as nat) {
                            Ok(rest) => {
                                assert(before + (seq![(var, vv)] + rest) =~= before.push((var, vv)) + rest);
                            },
                            Err(_) => {},
                        }
                    }
                    i = i + 2;
                },
            }
        } else {
            i = i + 1;
        }
    }
    assert(override_views(out@) + Seq::<(u16, OverrideView)>::empty() =~= override_views(out@));
    Ok(out)
}

} // verus!
