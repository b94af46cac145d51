//! Records that repeat group codes, read in order: where a polyline's
//! vertices, a leader's points or a multileader's lines are, as positions
//! of pairs. A value is found by its place in the record, not looked up by
//! its code, and the positions say which pair holds which coordinate.
//!
//! Each walk also lists, in the order the walk meets them, every pair it
//! reads a number from -- including those whose value a later pair
//! replaces -- so that a value that is not a number is found where the
//! walk meets it.

use vstd::prelude::*;
use crate::pairs::{views, Pair, PairView, ReadError, ReadErrorView};
use crate::record::{bad, bad_number};
use crate::text::{str_eq, trim, trimmed};

verus! {

/// Where a point's coordinates are: the pair of its x, and of its y and z
/// where the record writes them.
#[derive(Debug, Clone, Copy, PartialEq, Eq)]
pub struct PointAt {
    pub x: usize,
    pub y: Option<usize>,
    pub z: Option<usize>,
}

/// The pairs a point's coordinates are read from, in order.
pub open spec fn point_numbers(p: PointAt) -> Seq<usize> {
    seq![p.x] + match p.y {
        Some(y) => seq![y],
        None => Seq::empty(),
    } + match p.z {
        Some(z) => seq![z],
        None => Seq::empty(),
    }
}

/// The points that groups `code`, `code + 10` and `code + 20` repeat in
/// `ps[i..hi]`, in order: a `code` opens a point, and the `code + 10` right
/// after it, then the `code + 20` right after that, belong to it.
pub open spec fn points_from(ps: Seq<PairView>, i: nat, hi: nat, code: i32) -> Seq<PointAt>
    decreases hi - i,
{
    if i >= hi {
        Seq::empty()
    } else if ps[i as int].code != code {
        points_from(ps, i + 1, hi, code)
    } else {
        let has_y = i + 1 < hi && ps[i + 1 as int].code == code + 10;
        let has_z = has_y && i + 2 < hi && ps[i + 2 as int].code == code + 20;
        let p = PointAt {
            x: i as usize,
            y: if has_y {
                Some((i + 1) as usize)
            } else {
                None
            },
            z: if has_z {
                Some((i + 2) as usize)
            } else {
                None
            },
        };
        let next = if has_z {
            i + 3
        } else if has_y {
            i + 2
        } else {
            i + 1
        };
        seq![p] + points_from(ps, next, hi, code)
    }
}

/// Every point that groups `code`, `code + 10` and `code + 20` repeat in
/// `ps[lo..hi]` (see `points_from`): a leader's vertices, a spline's
/// control and fit points, a multiline's vertices and miters.
pub fn repeated_points(ps: &Vec<Pair>, lo: usize, hi: usize, code: i32) -> (r: Vec<PointAt>)
    requires
        lo <= hi <= ps@.len(),
        code <= i32::MAX - 20,
    ensures
        r@ == points_from(views(ps@), lo as nat, hi as nat, code),
{
    let ghost pv = views(ps@);
    let mut out: Vec<PointAt> = Vec::new();
    let mut i = lo;
    while i < hi
        invariant
            pv == views(ps@),
            lo <= i <= hi <= ps@.len(),
            code <= i32::MAX - 20,
            out@ + points_from(pv, i as nat, hi as nat, code) == points_from(
                pv,
                lo as nat,
                hi as nat,
                code,
            ),
        decreases hi - i,
    {
        assert(pv[i as int] == ps@[i as int]@);
        if ps[i].code != code {
            i = i + 1;
        } else {
            let x = i;
            let mut y: Option<usize> = None;
            let mut z: Option<usize> = None;
            if i + 1 < hi && ps[i + 1].code == code + 10 {
                assert(pv[i + 1] == ps@[i + 1]@);
                y = Some(i + 1);
                i = i + 1;
                if i + 1 < hi && ps[i + 1].code == code + 20 {
                    assert(pv[i + 1] == ps@[i + 1]@);
                    z = Some(i + 1);
                    i = i + 1;
                }
            }
            let p = PointAt { x, y, z };
            let ghost before = out@;
            out.push(p);
            assert(out@ =~= before + seq![p]);
            i = i + 1;
            assert(before + points_from(pv, x as nat, hi as nat, code) =~= out@ + points_from(
                pv,
                i as nat,
                hi as nat,
                code,
            ));
        }
    }
    assert(out@ + Seq::<PointAt>::empty() =~= out@);
    out
}

/// Where an LWPOLYLINE vertex's values are: its point, and the last
/// start width (40), end width (41) and bulge (42) written after it,
/// before the next vertex.
#[derive(Debug, Clone, Copy, PartialEq, Eq)]
pub struct VertexAt {
    pub x: usize,
    pub y: Option<usize>,
    pub start_width: Option<usize>,
    pub end_width: Option<usize>,
    pub bulge: Option<usize>,
}

/// A vertex with the value of group `code` (40, 41 or 42) at pair `i`.
pub open spec fn with_value(v: VertexAt, code: i32, i: nat) -> VertexAt {
    if code == 40 {
        VertexAt { start_width: Some(i as usize), ..v }
    } else if code == 41 {
        VertexAt { end_width: Some(i as usize), ..v }
    } else {
        VertexAt { bulge: Some(i as usize), ..v }
    }
}

/// An LWPOLYLINE's vertices, walking `ps[i..hi]` with the vertices and the
/// number pairs met so far: a 10 opens a vertex, with the 20 right after
/// it as its y; a 40, 41 or 42 after a vertex is that vertex's start
/// width, end width or bulge; one before the first vertex belongs to none
/// and is not read.
pub open spec fn vertices_from(
    ps: Seq<PairView>,
    i: nat,
    hi: nat,
    vertices: Seq<VertexAt>,
    numbers: Seq<usize>,
) -> (Seq<VertexAt>, Seq<usize>)
    decreases hi - i,
{
    if i >= hi {
        (vertices, numbers)
    } else {
        let code = ps[i as int].code;
        if code == 10 {
            let has_y = i + 1 < hi && ps[i + 1 as int].code == 20;
            let v = VertexAt {
                x: i as usize,
                y: if has_y {
                    Some((i + 1) as usize)
                } else {
                    None
                },
                start_width: None,
                end_width: None,
                bulge: None,
            };
            if has_y {
                vertices_from(
                    ps,
                    i + 2,
                    hi,
                    vertices.push(v),
                    numbers.push(i as usize).push((i + 1) as usize),
                )
            } else {
                vertices_from(ps, i + 1, hi, vertices.push(v), numbers.push(i as usize))
            }
        } else if 40 <= code <= 42 && vertices.len() > 0 {
            vertices_from(
                ps,
                i + 1,
                hi,
                vertices.update(vertices.len() - 1, with_value(vertices.last(), code, i)),
                numbers.push(i as usize),
            )
        } else {
            vertices_from(ps, i + 1, hi, vertices, numbers)
        }
    }
}

/// An LWPOLYLINE's vertices in `ps[lo..hi]`, and the pairs their numbers
/// are read from, in order (see `vertices_from`).
pub fn lwpolyline_vertices(ps: &Vec<Pair>, lo: usize, hi: usize) -> (r: (Vec<VertexAt>, Vec<usize>))
    requires
        lo <= hi <= ps@.len(),
    ensures
        (r.0@, r.1@) == vertices_from(views(ps@), lo as nat, hi as nat, Seq::empty(), Seq::empty()),
{
    let ghost pv = views(ps@);
    let mut vertices: Vec<VertexAt> = Vec::new();
    let mut numbers: Vec<usize> = Vec::new();
    let mut i = lo;
    while i < hi
        invariant
            pv == views(ps@),
            lo <= i <= hi <= ps@.len(),
            vertices_from(pv, i as nat, hi as nat, vertices@, numbers@) == vertices_from(
                pv,
                lo as nat,
                hi as nat,
                Seq::empty(),
                Seq::empty(),
            ),
        decreases hi - i,
    {
        assert(pv[i as int] == ps@[i as int]@);
        let code = ps[i].code;
        if code == 10 {
            let mut v = VertexAt { x: i, y: None, start_width: None, end_width: None, bulge: None };
            numbers.push(i);
            if i + 1 < hi && ps[i + 1].code == 20 {
                assert(pv[i + 1] == ps@[i + 1]@);
                v.y = Some(i + 1);
                numbers.push(i + 1);
                i = i + 2;
            } else {
                i = i + 1;
            }
            vertices.push(v);
        } else if 40 <= code && code <= 42 && vertices.len() > 0 {
            let last = vertices.len() - 1;
            let mut v = vertices[last];
            if code == 40 {
                v.start_width = Some(i);
            } else if code == 41 {
                v.end_width = Some(i);
            } else {
                v.bulge = Some(i);
            }
            vertices.set(last, v);
            numbers.push(i);
            i = i + 1;
        } else {
            i = i + 1;
        }
    }
    (vertices, numbers)
}

/// A MULTILEADER's leader lines, walking `ps[i..hi]` with the line being
/// read (inside a `LEADER_LINE{` block, 304, up to its `}`, 305), the lines
/// read so far and the number pairs met: inside a block, a 10 is a point,
/// its y the 20 right after it and its z the 30 right after that. A line
/// with no point is not a line.
pub open spec fn leader_lines_from(
    ps: Seq<PairView>,
    i: nat,
    hi: nat,
    current: Option<Seq<PointAt>>,
    lines: Seq<Seq<PointAt>>,
    numbers: Seq<usize>,
) -> (Seq<Seq<PointAt>>, Seq<usize>)
    decreases hi - i,
{
    if i >= hi {
        (lines, numbers)
    } else {
        let p = ps[i as int];
        if p.code == 304 && trimmed(p.value) == "LEADER_LINE{"@ {
            leader_lines_from(ps, i + 1, hi, Some(Seq::empty()), lines, numbers)
        } else if p.code == 305 && trimmed(p.value) == "}"@ {
            let done = match current {
                Some(c) => if c.len() > 0 {
                    lines.push(c)
                } else {
                    lines
                },
                None => lines,
            };
            leader_lines_from(ps, i + 1, hi, None, done, numbers)
        } else if p.code == 10 && current is Some {
            let pt = PointAt {
                x: i as usize,
                y: if i + 1 < hi && ps[i + 1 as int].code == 20 {
                    Some((i + 1) as usize)
                } else {
                    None
                },
                z: if i + 2 < hi && ps[i + 2 as int].code == 30 {
                    Some((i + 2) as usize)
                } else {
                    None
                },
            };
            leader_lines_from(
                ps,
                i + 1,
                hi,
                Some(current.unwrap().push(pt)),
                lines,
                numbers + point_numbers(pt),
            )
        } else {
            leader_lines_from(ps, i + 1, hi, current, lines, numbers)
        }
    }
}

/// The views of lines of points.
pub open spec fn line_views(v: Seq<Vec<PointAt>>) -> Seq<Seq<PointAt>> {
    v.map_values(|l: Vec<PointAt>| l@)
}

/// A MULTILEADER's leader lines in `ps[lo..hi]`, each the points of one
/// `LEADER_LINE{` block of the record's context data, in file order; and
/// the pairs their numbers are read from (see `leader_lines_from`).
pub fn leader_lines(ps: &Vec<Pair>, lo: usize, hi: usize) -> (r: (Vec<Vec<PointAt>>, Vec<usize>))
    requires
        lo <= hi <= ps@.len(),
    ensures
        (line_views(r.0@), r.1@) == leader_lines_from(
            views(ps@),
            lo as nat,
            hi as nat,
            None,
            Seq::empty(),
            Seq::empty(),
        ),
{
    let ghost pv = views(ps@);
    let mut lines: Vec<Vec<PointAt>> = Vec::new();
    let mut numbers: Vec<usize> = Vec::new();
    let mut current: Option<Vec<PointAt>> = None;
    let mut i = lo;
    assert(line_views(lines@) =~= Seq::<Seq<PointAt>>::empty());
    while i < hi
        invariant
            pv == views(ps@),
            lo <= i <= hi <= ps@.len(),
            leader_lines_from(
                pv,
                i as nat,
                hi as nat,
                match current {
                    Some(c) => Some(c@),
                    None => None,
                },
                line_views(lines@),
                numbers@,
            ) == leader_lines_from(pv, lo as nat, hi as nat, None, Seq::empty(), Seq::empty()),
        decreases hi - i,
    {
        assert(pv[i as int] == ps@[i as int]@);
        let p = ps[i];
        if p.code == 304 && str_eq(trim(p.value), "LEADER_LINE{") {
            current = Some(Vec::new());
            assert(current.unwrap()@ =~= Seq::<PointAt>::empty());
        } else if p.code == 305 && str_eq(trim(p.value), "}") {
            match current {
                Some(c) => {
                    if c.len() > 0 {
                        let ghost before = lines@;
                        lines.push(c);
                        assert(line_views(lines@) =~= line_views(before).push(lines@.last()@));
                    }
                },
                None => {},
            }
            current = None;
        } else if p.code == 10 && current.is_some() {
            let mut y: Option<usize> = None;
            let mut z: Option<usize> = None;
            if i + 1 < hi && ps[i + 1].code == 20 {
                assert(pv[i + 1] == ps@[i + 1]@);
                y = Some(i + 1);
            }
            if i + 1 < hi && i + 2 < hi && ps[i + 2].code == 30 {
                assert(pv[i + 2] == ps@[i + 2]@);
                z = Some(i + 2);
            }
            let pt = PointAt { x: i, y, z };
            let ghost before = numbers@;
            numbers.push(i);
            if let Some(iy) = y {
                numbers.push(iy);
            }
            if let Some(iz) = z {
                numbers.push(iz);
            }
            assert(numbers@ =~= before + point_numbers(pt));
            let mut c = current.unwrap();
            c.push(pt);
            current = Some(c);
        }
        i = i + 1;
    }
    (lines, numbers)
}

/// The pairs of group `code` in `ps[i..hi]`, in order, each a decimal
/// number (`fl` says which values are): a spline's knots or weights, a
/// multiline style's offsets. The first that is not a number is the error.
pub open spec fn numbers_from(ps: Seq<PairView>, fl: Seq<Option<bool>>, i: nat, hi: nat, code: i32) -> Result<
    Seq<usize>,
    ReadErrorView,
>
    decreases hi - i,
{
    if i >= hi {
        Ok(Seq::empty())
    } else if ps[i as int].code != code {
        numbers_from(ps, fl, i + 1, hi, code)
    } else if fl[i as int] is None {
        Err(bad_number(ps[i as int]))
    } else {
        match numbers_from(ps, fl, i + 1, hi, code) {
            Ok(rest) => Ok(seq![i as usize] + rest),
            Err(e) => Err(e),
        }
    }
}

/// Every number of group `code` in `ps[lo..hi]` (see `numbers_from`).
pub fn repeated_numbers(ps: &Vec<Pair>, fl: &Vec<Option<bool>>, lo: usize, hi: usize, code: i32) -> (r: Result<
    Vec<usize>,
    ReadError,
>)
    requires
        lo <= hi <= ps@.len(),
        fl@.len() == ps@.len(),
    ensures
        match numbers_from(views(ps@), fl@, lo as nat, hi as nat, code) {
            Ok(v) => r matches Ok(x) && x@ == v,
            Err(e) => r matches Err(x) && x@ == e,
        },
{
    let ghost pv = views(ps@);
    let mut out: Vec<usize> = Vec::new();
    let mut i = lo;
    while i < hi
        invariant
            pv == views(ps@),
            fl@.len() == ps@.len(),
            lo <= i <= hi <= ps@.len(),
            numbers_from(pv, fl@, lo as nat, hi as nat, code) == match numbers_from(
                pv,
                fl@,
                i as nat,
                hi as nat,
                code,
            ) {
                Ok(rest) => Ok(out@ + rest),
                Err(e) => Err(e),
            },
        decreases hi - i,
    {
        assert(pv[i as int] == ps@[i as int]@);
        if ps[i].code == code {
            if fl[i].is_none() {
                return Err(bad(ps[i]));
            }
            let ghost before = out@;
            out.push(i);
            proof {
                match numbers_from(pv, fl@, (i + 1) as nat, hi as nat, code) {
                    Ok(rest) => {
                        assert(before + (seq![i as usize] + rest) =~= out@ + rest);
                    },
                    Err(_) => {},
                }
            }
        }
        i = i + 1;
    }
    assert(out@ + Seq::<usize>::empty() =~= out@);
    Ok(out)
}

} // verus!
