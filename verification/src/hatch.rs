//! HATCH: its boundary paths, its fill and its pattern, as positions of
//! pairs.
//!
//! Unlike the other entities, a HATCH record cannot be read by looking a
//! group code up: it repeats codes, and only their position tells them
//! apart -- 10, 20 and 30 are the elevation point, then every boundary
//! vertex and edge point; 72 and 73 mean one thing in a polyline path and
//! another in an edge. So it is read in order, with the counts the record
//! states (91 paths, 93 vertices or edges, 78 pattern lines) saying how
//! much follows.
//!
//! A record that runs out before a count is met, or that has something
//! else where the order says a group goes, keeps what was read and says so
//! in a `HATCH_STRUCTURE` warning.
//!
//! The walk reads integers itself. What it needs of a decimal value -- that
//! it is a number at all, and whether it is zero -- it is told, pair by
//! pair: `fl[i]` is `None` where the value of pair `i` is not a number, and
//! otherwise says whether it is nonzero.

use vstd::prelude::*;
use crate::number::int_value;
use crate::pairs::{views, Pair, PairView, ReadError, ReadErrorView};
use crate::record::{bad, bad_number, find, first_index, int_field, int_in, number_field, number_field_at};
use crate::text::{ascii_uppercase, concat, decimal, decimal_string, owned, str_eq, to_ascii_uppercase, trim, trimmed};

verus! {

/// A pair's value as an `i64`, or the error that names the pair.
pub open spec fn integer_of(p: PairView) -> Result<int, ReadErrorView> {
    match int_value(p.value, i64::MIN as int, i64::MAX as int) {
        Some(v) => Ok(v),
        None => Err(bad_number(p)),
    }
}

/// A pair's value as an `i64` (see `integer_of`).
pub fn integer(p: Pair) -> (r: Result<i64, ReadError>)
    ensures
        match integer_of(p@) {
            Ok(v) => r == Ok::<i64, ReadError>(v as i64),
            Err(e) => r matches Err(x) && x@ == e,
        },
{
    match crate::number::int_of(p.value, i64::MIN, i64::MAX) {
        Some(v) => Ok(v),
        None => Err(ReadError::BadNumber { line: p.line, code: p.code, text: owned(p.value) }),
    }
}

/// A count the record states; a negative one, or one no `usize` holds, is
/// none.
pub open spec fn count_of(v: int) -> nat {
    if 0 <= v <= usize::MAX {
        v as nat
    } else {
        0
    }
}

fn count(v: i64) -> (r: usize)
    ensures
        r == count_of(v as int),
{
    if 0 <= v && (v as u64) <= (usize::MAX as u64) {
        v as usize
    } else {
        0
    }
}

/// Where a 2D point's coordinates are: the pair of its x, and of its y
/// where the record writes it.
#[derive(Debug, Clone, Copy, PartialEq, Eq)]
pub struct Point2At {
    pub x: usize,
    pub y: Option<usize>,
}

/// One edge of an edge path, its values by the pairs that hold them.
#[derive(Debug, Clone, PartialEq, Eq)]
pub enum EdgeAt {
    Line { start: Point2At, end: Option<Point2At> },
    Arc {
        center: Point2At,
        radius: Option<usize>,
        start_angle: Option<usize>,
        end_angle: Option<usize>,
        ccw: Option<usize>,
    },
    Ellipse {
        center: Point2At,
        end: Point2At,
        ratio: Option<usize>,
        start_angle: Option<usize>,
        end_angle: Option<usize>,
        ccw: Option<usize>,
    },
    Spline { control_points: Vec<Point2At> },
}

/// A boundary path: a polyline's vertices with their bulges, or edges.
#[derive(Debug, Clone, PartialEq, Eq)]
pub enum PathAt {
    Polyline(Vec<(Point2At, Option<usize>)>),
    Edges(Vec<EdgeAt>),
}

/// A pattern line family: its angle (53), base point (43/44), offset
/// (45/46) and dashes (49).
#[derive(Debug, Clone, PartialEq, Eq)]
pub struct PatternLineAt {
    pub angle: usize,
    pub base_point: Option<Point2At>,
    pub offset: Option<Point2At>,
    pub dashes: Vec<usize>,
}

/// A gradient's colour record: its position (463) and its colour, packed
/// RGB (421, or the palette's colour for its 63), 0 when it states none.
#[derive(Debug, Clone, Copy, PartialEq, Eq)]
pub struct StopAt {
    pub position: usize,
    pub color: u32,
}

/// A gradient fill: whether its name (470) says radial, its angle (460),
/// its tint (462), whether it is single-colour (452), and its colour
/// records in file order.
#[derive(Debug, Clone, PartialEq, Eq)]
pub struct GradientAt {
    pub radial: bool,
    pub angle: Option<usize>,
    pub tint: Option<usize>,
    pub single: bool,
    pub stops: Vec<StopAt>,
}

/// Which areas among nested boundary paths a HATCH fills (75).
#[derive(Debug, Clone, Copy, PartialEq, Eq)]
pub enum FillStyle {
    Normal,
    Outer,
    Ignore,
}

/// What a HATCH states besides the fields every entity carries, by the
/// pairs that hold its values.
#[derive(Debug, Clone, PartialEq, Eq)]
pub struct HatchAt {
    pub elevation: Option<usize>,
    pub extrusion_x: Option<usize>,
    pub extrusion_y: Option<usize>,
    pub extrusion_z: Option<usize>,
    pub solid_fill: bool,
    pub paths: Vec<PathAt>,
    pub style: Option<FillStyle>,
    pub pattern_lines: Vec<PatternLineAt>,
    pub gradient: Option<GradientAt>,
    pub warning: Option<String>,
}

pub enum EdgeView {
    Line { start: Point2At, end: Option<Point2At> },
    Arc {
        center: Point2At,
        radius: Option<usize>,
        start_angle: Option<usize>,
        end_angle: Option<usize>,
        ccw: Option<usize>,
    },
    Ellipse {
        center: Point2At,
        end: Point2At,
        ratio: Option<usize>,
        start_angle: Option<usize>,
        end_angle: Option<usize>,
        ccw: Option<usize>,
    },
    Spline { control_points: Seq<Point2At> },
}

pub enum PathView {
    Polyline(Seq<(Point2At, Option<usize>)>),
    Edges(Seq<EdgeView>),
}

pub struct PatternLineView {
    pub angle: usize,
    pub base_point: Option<Point2At>,
    pub offset: Option<Point2At>,
    pub dashes: Seq<usize>,
}

pub struct GradientView {
    pub radial: bool,
    pub angle: Option<usize>,
    pub tint: Option<usize>,
    pub single: bool,
    pub stops: Seq<StopAt>,
}

/// The header of a HATCH: its elevation (30), extrusion (210/220/230) and
/// fill flag (70), each the last one before the path count.
pub struct HeadView {
    pub elevation: Option<usize>,
    pub extrusion: (Option<usize>, Option<usize>, Option<usize>),
    pub solid_fill: bool,
}

pub struct HatchView {
    pub elevation: Option<usize>,
    pub extrusion_x: Option<usize>,
    pub extrusion_y: Option<usize>,
    pub extrusion_z: Option<usize>,
    pub solid_fill: bool,
    pub paths: Seq<PathView>,
    pub style: Option<FillStyle>,
    pub pattern_lines: Seq<PatternLineView>,
    pub gradient: Option<GradientView>,
    pub warning: Option<Seq<char>>,
}

impl View for EdgeAt {
    type V = EdgeView;

    open spec fn view(&self) -> EdgeView {
        match self {
            EdgeAt::Line { start, end } => EdgeView::Line { start: *start, end: *end },
            EdgeAt::Arc { center, radius, start_angle, end_angle, ccw } => EdgeView::Arc {
                center: *center,
                radius: *radius,
                start_angle: *start_angle,
                end_angle: *end_angle,
                ccw: *ccw,
            },
            EdgeAt::Ellipse { center, end, ratio, start_angle, end_angle, ccw } => EdgeView::Ellipse {
                center: *center,
                end: *end,
                ratio: *ratio,
                start_angle: *start_angle,
                end_angle: *end_angle,
                ccw: *ccw,
            },
            EdgeAt::Spline { control_points } => EdgeView::Spline {
                control_points: control_points@,
            },
        }
    }
}

pub open spec fn edge_views(v: Seq<EdgeAt>) -> Seq<EdgeView> {
    v.map_values(|e: EdgeAt| e@)
}

impl View for PathAt {
    type V = PathView;

    open spec fn view(&self) -> PathView {
        match self {
            PathAt::Polyline(v) => PathView::Polyline(v@),
            PathAt::Edges(e) => PathView::Edges(edge_views(e@)),
        }
    }
}

pub open spec fn path_views(v: Seq<PathAt>) -> Seq<PathView> {
    v.map_values(|p: PathAt| p@)
}

impl View for PatternLineAt {
    type V = PatternLineView;

    open spec fn view(&self) -> PatternLineView {
        PatternLineView {
            angle: self.angle,
            base_point: self.base_point,
            offset: self.offset,
            dashes: self.dashes@,
        }
    }
}

pub open spec fn pattern_views(v: Seq<PatternLineAt>) -> Seq<PatternLineView> {
    v.map_values(|l: PatternLineAt| l@)
}

impl View for GradientAt {
    type V = GradientView;

    open spec fn view(&self) -> GradientView {
        GradientView {
            radial: self.radial,
            angle: self.angle,
            tint: self.tint,
            single: self.single,
            stops: self.stops@,
        }
    }
}

impl View for HatchAt {
    type V = HatchView;

    open spec fn view(&self) -> HatchView {
        HatchView {
            elevation: self.elevation,
            extrusion_x: self.extrusion_x,
            extrusion_y: self.extrusion_y,
            extrusion_z: self.extrusion_z,
            solid_fill: self.solid_fill,
            paths: path_views(self.paths@),
            style: self.style,
            pattern_lines: pattern_views(self.pattern_lines@),
            gradient: match &self.gradient {
                Some(g) => Some(g@),
                None => None,
            },
            warning: match &self.warning {
                Some(w) => Some(w@),
                None => None,
            },
        }
    }
}

// ---------------------------------------------------------------------
// The walk, step by step: each step starts at pair `at` of a record that
// ends at `hi`, and ends at the pair after what it read.

/// The pair at `at` is there and has group `code`.
pub open spec fn here(ps: Seq<PairView>, hi: nat, at: nat, code: i32) -> bool {
    at < hi && ps[at as int].code == code
}

/// The number of group `code` at `at`, if that is where it is.
pub open spec fn number_at(ps: Seq<PairView>, fl: Seq<Option<bool>>, hi: nat, at: nat, code: i32) -> Result<
    (Option<usize>, nat),
    ReadErrorView,
> {
    if here(ps, hi, at, code) {
        if fl[at as int] is Some {
            Ok((Some(at as usize), at + 1))
        } else {
            Err(bad_number(ps[at as int]))
        }
    } else {
        Ok((None, at))
    }
}

/// The point whose coordinates are groups `x` and `y`, at `at`, if it is
/// there: its x, then its y if that follows.
pub open spec fn pair_at(ps: Seq<PairView>, fl: Seq<Option<bool>>, hi: nat, at: nat, x: i32, y: i32) -> Result<
    (Option<Point2At>, nat),
    ReadErrorView,
> {
    if !here(ps, hi, at, x) {
        Ok((None, at))
    } else if fl[at as int] is None {
        Err(bad_number(ps[at as int]))
    } else {
        match number_at(ps, fl, hi, at + 1, y) {
            Ok((iy, a)) => Ok((Some(Point2At { x: at as usize, y: iy }), a)),
            Err(e) => Err(e),
        }
    }
}

/// The integer of group `code` at `at`, if that is where it is.
pub open spec fn int_at(ps: Seq<PairView>, hi: nat, at: nat, code: i32) -> Result<(Option<int>, nat), ReadErrorView> {
    if here(ps, hi, at, code) {
        match integer_of(ps[at as int]) {
            Ok(v) => Ok((Some(v), at + 1)),
            Err(e) => Err(e),
        }
    } else {
        Ok((None, at))
    }
}

/// Past up to `k` pairs of group `code` from `at` on.
pub open spec fn skipped(ps: Seq<PairView>, hi: nat, at: nat, code: i32, k: nat) -> nat
    decreases k,
{
    if k == 0 || !here(ps, hi, at, code) {
        at
    } else {
        skipped(ps, hi, at + 1, code, (k - 1) as nat)
    }
}

pub open spec fn vertices_short(n: nat, got: nat) -> Seq<char> {
    "a polyline path states "@ + decimal(n) + " vertices but has "@ + decimal(got)
}

pub open spec fn controls_short(n: nat, got: nat) -> Seq<char> {
    "a spline edge states "@ + decimal(n) + " control points but has "@ + decimal(got)
}

pub open spec fn dashes_short(n: nat, got: nat) -> Seq<char> {
    "a pattern line states "@ + decimal(n) + " dashes but has "@ + decimal(got)
}

pub open spec fn edge_lacks(what: Seq<char>) -> Seq<char> {
    "an edge carries no "@ + what
}

/// The message a HATCH whose record stops making sense is reported with.
pub open spec fn hatch_structure(what: Seq<char>) -> Seq<char> {
    "HATCH_STRUCTURE: "@ + what + "; what was read before it is kept"@
}

/// A walk step that can find the record not as it states: the thing read
/// or what is wrong, and where the walk is after it.
pub type Walked<T> = Result<(Result<T, Seq<char>>, nat), ReadErrorView>;

/// A polyline path's vertices: `k` more of the `n` stated, each a 10/20
/// point and -- where the path has bulges -- the 42 after it.
pub open spec fn vertices_at(
    ps: Seq<PairView>,
    fl: Seq<Option<bool>>,
    hi: nat,
    at: nat,
    k: nat,
    n: nat,
    bulge: bool,
    acc: Seq<(Point2At, Option<usize>)>,
) -> Walked<Seq<(Point2At, Option<usize>)>>
    decreases k,
{
    if k == 0 {
        Ok((Ok(acc), at))
    } else {
        match pair_at(ps, fl, hi, at, 10, 20) {
            Err(e) => Err(e),
            Ok((None, a)) => Ok((Err(vertices_short(n, acc.len())), a)),
            Ok((Some(p), a)) => match (if bulge {
                number_at(ps, fl, hi, a, 42)
            } else {
                Ok((None, a))
            }) {
                Err(e) => Err(e),
                Ok((b, a2)) => vertices_at(ps, fl, hi, a2, (k - 1) as nat, n, bulge, acc.push((p, b))),
            },
        }
    }
}

/// The four values an arc or elliptical edge ends with: 40, 50, 51, 73.
pub open spec fn angles_at(ps: Seq<PairView>, fl: Seq<Option<bool>>, hi: nat, at: nat) -> Result<
    ((Option<usize>, Option<usize>, Option<usize>, Option<usize>), nat),
    ReadErrorView,
> {
    match number_at(ps, fl, hi, at, 40) {
        Err(e) => Err(e),
        Ok((r, a1)) => match number_at(ps, fl, hi, a1, 50) {
            Err(e) => Err(e),
            Ok((s, a2)) => match number_at(ps, fl, hi, a2, 51) {
                Err(e) => Err(e),
                Ok((t, a3)) => match number_at(ps, fl, hi, a3, 73) {
                    Err(e) => Err(e),
                    Ok((w, a4)) => Ok(((r, s, t, w), a4)),
                },
            },
        },
    }
}

/// A line edge: its start (10/20) and end (11/21).
pub open spec fn line_edge_at(ps: Seq<PairView>, fl: Seq<Option<bool>>, hi: nat, at: nat) -> Walked<
    Option<EdgeView>,
> {
    match pair_at(ps, fl, hi, at, 10, 20) {
        Err(e) => Err(e),
        Ok((None, a)) => Ok((Err(edge_lacks("start point"@)), a)),
        Ok((Some(start), a)) => match pair_at(ps, fl, hi, a, 11, 21) {
            Err(e) => Err(e),
            Ok((end, b)) => Ok((Ok(Some(EdgeView::Line { start, end })), b)),
        },
    }
}

/// An arc edge: its center (10/20), radius, angles and direction.
pub open spec fn arc_edge_at(ps: Seq<PairView>, fl: Seq<Option<bool>>, hi: nat, at: nat) -> Walked<
    Option<EdgeView>,
> {
    match pair_at(ps, fl, hi, at, 10, 20) {
        Err(e) => Err(e),
        Ok((None, a)) => Ok((Err(edge_lacks("center"@)), a)),
        Ok((Some(center), a)) => match angles_at(ps, fl, hi, a) {
            Err(e) => Err(e),
            Ok(((r, s, t, w), b)) => Ok(
                (
                    Ok(
                        Some(
                            EdgeView::Arc {
                                center,
                                radius: r,
                                start_angle: s,
                                end_angle: t,
                                ccw: w,
                            },
                        ),
                    ),
                    b,
                ),
            ),
        },
    }
}

/// An elliptical edge: its center (10/20), major axis endpoint (11/21),
/// axis ratio, angles and direction.
pub open spec fn ellipse_edge_at(ps: Seq<PairView>, fl: Seq<Option<bool>>, hi: nat, at: nat) -> Walked<
    Option<EdgeView>,
> {
    match pair_at(ps, fl, hi, at, 10, 20) {
        Err(e) => Err(e),
        Ok((None, a)) => Ok((Err(edge_lacks("center"@)), a)),
        Ok((Some(center), a)) => match pair_at(ps, fl, hi, a, 11, 21) {
            Err(e) => Err(e),
            Ok((None, b)) => Ok((Err(edge_lacks("major axis endpoint"@)), b)),
            Ok((Some(end), b)) => match angles_at(ps, fl, hi, b) {
                Err(e) => Err(e),
                Ok(((r, s, t, w), c)) => Ok(
                    (
                        Ok(
                            Some(
                                EdgeView::Ellipse {
                                    center,
                                    end,
                                    ratio: r,
                                    start_angle: s,
                                    end_angle: t,
                                    ccw: w,
                                },
                            ),
                        ),
                        c,
                    ),
                ),
            },
        },
    }
}

/// A spline edge's control points: `k` more of the `n` stated.
pub open spec fn controls_at(
    ps: Seq<PairView>,
    fl: Seq<Option<bool>>,
    hi: nat,
    at: nat,
    k: nat,
    n: nat,
    acc: Seq<Point2At>,
) -> Walked<Seq<Point2At>>
    decreases k,
{
    if k == 0 {
        Ok((Ok(acc), at))
    } else {
        match pair_at(ps, fl, hi, at, 10, 20) {
            Err(e) => Err(e),
            Ok((None, a)) => Ok((Err(controls_short(n, acc.len())), a)),
            Ok((Some(p), a)) => controls_at(ps, fl, hi, a, (k - 1) as nat, n, acc.push(p)),
        }
    }
}

/// Up to `k` fit points (11/21), read and passed.
pub open spec fn fit_at(ps: Seq<PairView>, fl: Seq<Option<bool>>, hi: nat, at: nat, k: nat) -> Result<
    nat,
    ReadErrorView,
>
    decreases k,
{
    if k == 0 {
        Ok(at)
    } else {
        match pair_at(ps, fl, hi, at, 11, 21) {
            Err(e) => Err(e),
            Ok((None, a)) => Ok(a),
            Ok((Some(_), a)) => fit_at(ps, fl, hi, a, (k - 1) as nat),
        }
    }
}

/// What a spline edge writes after its control points, read and passed:
/// the weights (42) where it is rational, the fit points (97, then 11/21)
/// and the tangents (12/22, 13/23).
pub open spec fn spline_tail_at(
    ps: Seq<PairView>,
    fl: Seq<Option<bool>>,
    hi: nat,
    at: nat,
    rational: bool,
    n: nat,
) -> Result<nat, ReadErrorView> {
    let a7 = if rational {
        skipped(ps, hi, at, 42, n)
    } else {
        at
    };
    match int_at(ps, hi, a7, 97) {
        Err(e) => Err(e),
        Ok((fit, a8)) => match (match fit {
            Some(v) => fit_at(ps, fl, hi, a8, count_of(v)),
            None => Ok(a8),
        }) {
            Err(e) => Err(e),
            Ok(a9) => match pair_at(ps, fl, hi, a9, 12, 22) {
                Err(e) => Err(e),
                Ok((_, a10)) => match pair_at(ps, fl, hi, a10, 13, 23) {
                    Err(e) => Err(e),
                    Ok((_, a11)) => Ok(a11),
                },
            },
        },
    }
}

/// A spline edge: its degree (94) passed; whether it is rational (73,
/// nonzero); its periodic flag (74) passed; its knot count (95) and
/// control point count (96); the knots (40) passed; the control points
/// (10/20); the weights (42) passed where it is rational; the fit points
/// (97, then 11/21) and the tangents (12/22, 13/23) read and passed.
pub open spec fn spline_edge_at(ps: Seq<PairView>, fl: Seq<Option<bool>>, hi: nat, at: nat) -> Walked<
    Option<EdgeView>,
> {
    let a1 = if here(ps, hi, at, 94) {
        at + 1
    } else {
        at
    };
    match number_at(ps, fl, hi, a1, 73) {
        Err(e) => Err(e),
        Ok((rat, a2)) => {
            let rational = rat matches Some(i) && fl[i as int] == Some(true);
            let a3 = if here(ps, hi, a2, 74) {
                a2 + 1
            } else {
                a2
            };
            match int_at(ps, hi, a3, 95) {
                Err(e) => Err(e),
                Ok((kn, a4)) => {
                    let knots = match kn {
                        Some(v) => count_of(v),
                        None => 0,
                    };
                    if !here(ps, hi, a4, 96) {
                        Ok((Err(edge_lacks("control point count (96)"@)), a4))
                    } else {
                        match integer_of(ps[a4 as int]) {
                            Err(e) => Err(e),
                            Ok(nv) => {
                                let n = count_of(nv);
                                let a5 = skipped(ps, hi, a4 + 1, 40, knots);
                                match controls_at(ps, fl, hi, a5, n, n, Seq::empty()) {
                                    Err(e) => Err(e),
                                    Ok((Err(w), a)) => Ok((Err(w), a)),
                                    Ok((Ok(cps), a6)) => match spline_tail_at(ps, fl, hi, a6, rational, n) {
                                        Err(e) => Err(e),
                                        Ok(a11) => Ok(
                                            (Ok(Some(EdgeView::Spline { control_points: cps })), a11),
                                        ),
                                    },
                                }
                            },
                        }
                    }
                },
            }
        },
    }
}

/// One edge of an edge path: its kind (72), then the edge; `None` for a
/// kind the model has no edge for.
pub open spec fn edge_at(ps: Seq<PairView>, fl: Seq<Option<bool>>, hi: nat, at: nat) -> Walked<
    Option<EdgeView>,
> {
    if !here(ps, hi, at, 72) {
        Ok((Err("an edge does not start with its kind (72)"@), at))
    } else {
        match integer_of(ps[at as int]) {
            Err(e) => Err(e),
            Ok(kind) => if kind == 1 {
                line_edge_at(ps, fl, hi, at + 1)
            } else if kind == 2 {
                arc_edge_at(ps, fl, hi, at + 1)
            } else if kind == 3 {
                ellipse_edge_at(ps, fl, hi, at + 1)
            } else if kind == 4 {
                spline_edge_at(ps, fl, hi, at + 1)
            } else {
                Ok((Ok(None), at + 1))
            },
        }
    }
}

/// An edge path's edges: `k` more.
pub open spec fn edges_at(
    ps: Seq<PairView>,
    fl: Seq<Option<bool>>,
    hi: nat,
    at: nat,
    k: nat,
    acc: Seq<EdgeView>,
) -> Walked<Seq<EdgeView>>
    decreases k,
{
    if k == 0 {
        Ok((Ok(acc), at))
    } else {
        match edge_at(ps, fl, hi, at) {
            Err(e) => Err(e),
            Ok((Err(w), a)) => Ok((Err(w), a)),
            Ok((Ok(None), a)) => edges_at(ps, fl, hi, a, (k - 1) as nat, acc),
            Ok((Ok(Some(e)), a)) => edges_at(ps, fl, hi, a, (k - 1) as nat, acc.push(e)),
        }
    }
}

/// The objects a boundary was picked from (97, then as many 330s), passed.
pub open spec fn sources_at(ps: Seq<PairView>, hi: nat, at: nat) -> Result<nat, ReadErrorView> {
    match int_at(ps, hi, at, 97) {
        Err(e) => Err(e),
        Ok((None, a)) => Ok(a),
        Ok((Some(v), a)) => Ok(skipped(ps, hi, a, 330, count_of(v))),
    }
}

/// One boundary path: its type (92); a polyline path (bit 2) states
/// whether its vertices have bulges (72), whether it is closed (73), and
/// its vertex count (93); an edge path its edge count (93).
pub open spec fn path_at(ps: Seq<PairView>, fl: Seq<Option<bool>>, hi: nat, at: nat) -> Walked<PathView> {
    if !here(ps, hi, at, 92) {
        Ok((Err("a boundary path does not start with its type (92)"@), at))
    } else {
        match integer_of(ps[at as int]) {
            Err(e) => Err(e),
            Ok(flags) => {
                let a = at + 1;
                let walked: Walked<PathView> = if (flags as i64) & 2 != 0 {
                    match int_at(ps, hi, a, 72) {
                        Err(e) => Err(e),
                        Ok((hb, a1)) => {
                            let bulge = hb matches Some(v) && v != 0;
                            let a2 = if here(ps, hi, a1, 73) {
                                a1 + 1
                            } else {
                                a1
                            };
                            if !here(ps, hi, a2, 93) {
                                Ok((Err("a polyline path states no vertex count (93)"@), a2))
                            } else {
                                match integer_of(ps[a2 as int]) {
                                    Err(e) => Err(e),
                                    Ok(nv) => match vertices_at(
                                        ps,
                                        fl,
                                        hi,
                                        a2 + 1,
                                        count_of(nv),
                                        count_of(nv),
                                        bulge,
                                        Seq::empty(),
                                    ) {
                                        Err(e) => Err(e),
                                        Ok((Err(w), b)) => Ok((Err(w), b)),
                                        Ok((Ok(vs), b)) => Ok((Ok(PathView::Polyline(vs)), b)),
                                    },
                                }
                            }
                        },
                    }
                } else if !here(ps, hi, a, 93) {
                    Ok((Err("an edge path states no edge count (93)"@), a))
                } else {
                    match integer_of(ps[a as int]) {
                        Err(e) => Err(e),
                        Ok(nv) => match edges_at(ps, fl, hi, a + 1, count_of(nv), Seq::empty()) {
                            Err(e) => Err(e),
                            Ok((Err(w), b)) => Ok((Err(w), b)),
                            Ok((Ok(es), b)) => Ok((Ok(PathView::Edges(es)), b)),
                        },
                    }
                };
                match walked {
                    Err(e) => Err(e),
                    Ok((Err(w), b)) => Ok((Err(w), b)),
                    Ok((Ok(path), b)) => match sources_at(ps, hi, b) {
                        Err(e) => Err(e),
                        Ok(c) => Ok((Ok(path), c)),
                    },
                }
            },
        }
    }
}

/// The boundary paths: `k` more, until one does not read -- what it says
/// is wrong is then the walk's warning.
pub open spec fn paths_at(
    ps: Seq<PairView>,
    fl: Seq<Option<bool>>,
    hi: nat,
    at: nat,
    k: nat,
    acc: Seq<PathView>,
) -> Result<(Seq<PathView>, Option<Seq<char>>, nat), ReadErrorView>
    decreases k,
{
    if k == 0 {
        Ok((acc, None, at))
    } else {
        match path_at(ps, fl, hi, at) {
            Err(e) => Err(e),
            Ok((Err(w), a)) => Ok((acc, Some(w), a)),
            Ok((Ok(p), a)) => paths_at(ps, fl, hi, a, (k - 1) as nat, acc.push(p)),
        }
    }
}

/// A pattern line's dashes (49): `k` more of the `n` stated.
pub open spec fn dashes_at(
    ps: Seq<PairView>,
    fl: Seq<Option<bool>>,
    hi: nat,
    at: nat,
    k: nat,
    n: nat,
    acc: Seq<usize>,
) -> Walked<Seq<usize>>
    decreases k,
{
    if k == 0 {
        Ok((Ok(acc), at))
    } else if here(ps, hi, at, 49) {
        if fl[at as int] is None {
            Err(bad_number(ps[at as int]))
        } else {
            dashes_at(ps, fl, hi, at + 1, (k - 1) as nat, n, acc.push(at as usize))
        }
    } else {
        Ok((Err(dashes_short(n, acc.len())), at))
    }
}

/// One pattern line family: its angle (53), base point (43/44), offset
/// (45/46), dash count (79) and dashes.
pub open spec fn pattern_line_at(ps: Seq<PairView>, fl: Seq<Option<bool>>, hi: nat, at: nat) -> Walked<
    PatternLineView,
> {
    if !here(ps, hi, at, 53) {
        Ok((Err("a pattern line does not start with its angle (53)"@), at))
    } else if fl[at as int] is None {
        Err(bad_number(ps[at as int]))
    } else {
        match pair_at(ps, fl, hi, at + 1, 43, 44) {
            Err(e) => Err(e),
            Ok((base_point, a1)) => match pair_at(ps, fl, hi, a1, 45, 46) {
                Err(e) => Err(e),
                Ok((offset, a2)) => match int_at(ps, hi, a2, 79) {
                    Err(e) => Err(e),
                    Ok((d, a3)) => {
                        let n = match d {
                            Some(v) => count_of(v),
                            None => 0,
                        };
                        match dashes_at(ps, fl, hi, a3, n, n, Seq::empty()) {
                            Err(e) => Err(e),
                            Ok((Err(w), a)) => Ok((Err(w), a)),
                            Ok((Ok(dashes), a4)) => Ok(
                                (
                                    Ok(
                                        PatternLineView {
                                            angle: at as usize,
                                            base_point,
                                            offset,
                                            dashes,
                                        },
                                    ),
                                    a4,
                                ),
                            ),
                        }
                    },
                },
            },
        }
    }
}

/// The pattern lines: `k` more, until one does not read -- what it says
/// is wrong is then the pattern's warning.
pub open spec fn pattern_lines_at(
    ps: Seq<PairView>,
    fl: Seq<Option<bool>>,
    hi: nat,
    at: nat,
    k: nat,
    acc: Seq<PatternLineView>,
) -> Result<(Seq<PatternLineView>, Option<Seq<char>>), ReadErrorView>
    decreases k,
{
    if k == 0 {
        Ok((acc, None))
    } else {
        match pattern_line_at(ps, fl, hi, at) {
            Err(e) => Err(e),
            Ok((Err(w), _)) => Ok((acc, Some(w))),
            Ok((Ok(l), a)) => pattern_lines_at(ps, fl, hi, a, (k - 1) as nat, acc.push(l)),
        }
    }
}

/// The pattern after the paths (from `at`): the line families the first
/// 78 counts, with what their walk found wrong.
pub open spec fn pattern_at(ps: Seq<PairView>, fl: Seq<Option<bool>>, hi: nat, at: nat) -> Result<
    (Seq<PatternLineView>, Option<Seq<char>>),
    ReadErrorView,
> {
    match first_index(ps, at, hi, 78) {
        None => Ok((Seq::empty(), None)),
        Some(i) => match integer_of(ps[i as int]) {
            Err(e) => Err(e),
            Ok(v) => pattern_lines_at(ps, fl, hi, i + 1, count_of(v), Seq::empty()),
        },
    }
}

/// The ACI palette's colour for `index`, as `uncad_model::color::aci_to_rgb`
/// gives it.
pub uninterp spec fn aci_rgb(index: u16) -> Option<u32>;

/// `uncad_model::color::aci_to_rgb`: the packed RGB of an ACI index, from
/// the crate's palette table. Claimed: the colour is the one `aci_rgb`
/// names; the table covers the indices 0 to 256 and no others.
#[verifier::external_body]
fn aci_to_rgb(index: u16) -> (r: Option<u32>)
    ensures
        r == aci_rgb(index),
        r is Some <==> index <= 256,
{
    uncad_model::color::aci_to_rgb(index)
}

/// The ACI index a 63 names: its magnitude, as a `u16` keeps it.
pub open spec fn aci_index(v: int) -> u16 {
    ((if v < 0 {
        -v
    } else {
        v
    }) % 65536) as u16
}

/// A true colour (421) as packed RGB: its low 24 bits.
pub open spec fn true_rgb(v: int) -> u32 {
    ((v as i64) as u32) & 0xff_ffffu32
}

/// Reads the gradient's colour records from `ps[i..hi]`: a 463 opens one
/// (its value the position), and up to the next 463 or 460 its colour is
/// the last 421, or -- while it has none -- the palette's colour for a 63.
pub open spec fn stops_at(
    ps: Seq<PairView>,
    fl: Seq<Option<bool>>,
    hi: nat,
    i: nat,
    current: Option<(usize, Option<u32>)>,
    acc: Seq<StopAt>,
) -> Result<Seq<StopAt>, ReadErrorView>
    decreases hi - i,
{
    let closed = match current {
        Some((pos, c)) => acc.push(
            StopAt {
                position: pos,
                color: match c {
                    Some(x) => x,
                    None => 0,
                },
            },
        ),
        None => acc,
    };
    if i >= hi {
        Ok(closed)
    } else {
        let p = ps[i as int];
        if p.code == 463 {
            if fl[i as int] is None {
                Err(bad_number(p))
            } else {
                stops_at(ps, fl, hi, i + 1, Some((i as usize, None)), closed)
            }
        } else if p.code == 460 {
            stops_at(ps, fl, hi, i + 1, None, closed)
        } else {
            match current {
                None => stops_at(ps, fl, hi, i + 1, None, acc),
                Some((pos, c)) => if p.code == 421 {
                    match integer_of(p) {
                        Err(e) => Err(e),
                        Ok(v) => stops_at(ps, fl, hi, i + 1, Some((pos, Some(true_rgb(v)))), acc),
                    }
                } else if p.code == 63 && c is None {
                    match integer_of(p) {
                        Err(e) => Err(e),
                        Ok(v) => stops_at(ps, fl, hi, i + 1, Some((pos, aci_rgb(aci_index(v)))), acc),
                    }
                } else {
                    stops_at(ps, fl, hi, i + 1, current, acc)
                },
            }
        }
    }
}

/// The gradient, when 450 says the fill is one: its colour records, 452
/// single colour, 462 tint, 470 name (radial when `SPHERICAL` or
/// `HEMISPHERICAL`, in any case), 460 angle. No gradient where it states
/// no colour record.
pub open spec fn gradient_at(ps: Seq<PairView>, fl: Seq<Option<bool>>, lo: nat, hi: nat) -> Result<
    Option<GradientView>,
    ReadErrorView,
> {
    match int_field(ps, lo, hi, 450, i64::MIN as int, i64::MAX as int) {
        Err(e) => Err(e),
        Ok(g) => if g != Some(1int) {
            Ok(None)
        } else {
            match stops_at(ps, fl, hi, lo, None, Seq::empty()) {
                Err(e) => Err(e),
                Ok(stops) => match int_field(ps, lo, hi, 452, i64::MIN as int, i64::MAX as int) {
                    Err(e) => Err(e),
                    Ok(s) => match number_field(ps, fl, lo, hi, 462) {
                        Err(e) => Err(e),
                        Ok(tint) => if stops.len() == 0 {
                            Ok(None)
                        } else {
                            match number_field(ps, fl, lo, hi, 460) {
                                Err(e) => Err(e),
                                Ok(angle) => {
                                    let radial = match first_index(ps, lo, hi, 470) {
                                        Some(n) => {
                                            let name = ascii_uppercase(trimmed(ps[n as int].value));
                                            name == "SPHERICAL"@ || name == "HEMISPHERICAL"@
                                        },
                                        None => false,
                                    };
                                    Ok(
                                        Some(
                                            GradientView {
                                                radial,
                                                angle,
                                                tint,
                                                single: s == Some(1int),
                                                stops,
                                            },
                                        ),
                                    )
                                },
                            }
                        },
                    },
                },
            }
        },
    }
}

/// The fill style (75) after the paths: 0 normal, 1 outer, 2 ignore; any
/// other value, or none, does not say.
pub open spec fn style_at(ps: Seq<PairView>, lo: nat, hi: nat) -> Result<Option<FillStyle>, ReadErrorView> {
    match int_field(ps, lo, hi, 75, i64::MIN as int, i64::MAX as int) {
        Err(e) => Err(e),
        Ok(v) => Ok(
            if v == Some(0int) {
                Some(FillStyle::Normal)
            } else if v == Some(1int) {
                Some(FillStyle::Outer)
            } else if v == Some(2int) {
                Some(FillStyle::Ignore)
            } else {
                None
            },
        ),
    }
}

/// The header, from `at` up to and including the path count (91): the
/// last elevation, extrusion components and fill flag before it. `None`
/// for the count when the record states none.
pub open spec fn head_at(ps: Seq<PairView>, fl: Seq<Option<bool>>, hi: nat, at: nat, h: HeadView) -> Result<
    (HeadView, Option<nat>, nat),
    ReadErrorView,
>
    decreases hi - at,
{
    if at >= hi {
        Ok((h, None, at))
    } else {
        let p = ps[at as int];
        let c = p.code;
        if c == 30 || c == 210 || c == 220 || c == 230 {
            if fl[at as int] is None {
                Err(bad_number(p))
            } else {
                let i = Some(at as usize);
                let (x, y, z) = h.extrusion;
                head_at(
                    ps,
                    fl,
                    hi,
                    at + 1,
                    if c == 30 {
                        HeadView { elevation: i, ..h }
                    } else if c == 210 {
                        HeadView { extrusion: (i, y, z), ..h }
                    } else if c == 220 {
                        HeadView { extrusion: (x, i, z), ..h }
                    } else {
                        HeadView { extrusion: (x, y, i), ..h }
                    },
                )
            }
        } else if c == 70 {
            match integer_of(p) {
                Err(e) => Err(e),
                Ok(v) => head_at(ps, fl, hi, at + 1, HeadView { solid_fill: v != 0, ..h }),
            }
        } else if c == 91 {
            match integer_of(p) {
                Err(e) => Err(e),
                Ok(v) => Ok((h, Some(count_of(v)), at + 1)),
            }
        } else {
            head_at(ps, fl, hi, at + 1, h)
        }
    }
}

/// Where a HATCH's own groups start: after its `AcDbHatch` marker, or at
/// the start of the record when it has none.
pub open spec fn hatch_start(ps: Seq<PairView>, lo: nat, hi: nat) -> nat
    decreases hi - lo,
{
    if lo >= hi {
        hi
    } else if ps[lo as int].code == 100 && trimmed(ps[lo as int].value) == "AcDbHatch"@ {
        lo + 1
    } else {
        hatch_start(ps, lo + 1, hi)
    }
}

/// A HATCH record `ps[lo..hi]`, read in order (see the module's
/// documentation): the header, the paths, then -- unless a path does not
/// read -- the fill style, the pattern and the gradient.
pub open spec fn hatch_of(ps: Seq<PairView>, fl: Seq<Option<bool>>, lo: nat, hi: nat) -> Result<
    HatchView,
    ReadErrorView,
> {
    let start = if hatch_start(ps, lo, hi) < hi {
        hatch_start(ps, lo, hi)
    } else {
        lo
    };
    let blank = HeadView { elevation: None, extrusion: (None, None, None), solid_fill: false };
    match head_at(ps, fl, hi, start, blank) {
        Err(e) => Err(e),
        Ok((h, None, _)) => Ok(
            HatchView {
                elevation: h.elevation,
                extrusion_x: h.extrusion.0,
                extrusion_y: h.extrusion.1,
                extrusion_z: h.extrusion.2,
                solid_fill: h.solid_fill,
                paths: Seq::empty(),
                style: None,
                pattern_lines: Seq::empty(),
                gradient: None,
                warning: None,
            },
        ),
        Ok((h, Some(n), a)) => match paths_at(ps, fl, hi, a, n, Seq::empty()) {
            Err(e) => Err(e),
            Ok((paths, Some(w), _)) => Ok(
                HatchView {
                    elevation: h.elevation,
                    extrusion_x: h.extrusion.0,
                    extrusion_y: h.extrusion.1,
                    extrusion_z: h.extrusion.2,
                    solid_fill: h.solid_fill,
                    paths,
                    style: None,
                    pattern_lines: Seq::empty(),
                    gradient: None,
                    warning: Some(hatch_structure(w)),
                },
            ),
            Ok((paths, None, a2)) => match style_at(ps, a2, hi) {
                Err(e) => Err(e),
                Ok(style) => match pattern_at(ps, fl, hi, a2) {
                    Err(e) => Err(e),
                    Ok((lines, pw)) => match gradient_at(ps, fl, a2, hi) {
                        Err(e) => Err(e),
                        Ok(g) => Ok(
                            HatchView {
                                elevation: h.elevation,
                                extrusion_x: h.extrusion.0,
                                extrusion_y: h.extrusion.1,
                                extrusion_z: h.extrusion.2,
                                solid_fill: h.solid_fill,
                                paths,
                                style,
                                pattern_lines: lines,
                                gradient: g,
                                warning: match pw {
                                    Some(w) => Some(hatch_structure(w)),
                                    None => None,
                                },
                            },
                        ),
                    },
                },
            },
        },
    }
}

// ---------------------------------------------------------------------
// The walk in code: each step does what the spec function of its name
// says.

fn here_at(ps: &Vec<Pair>, hi: usize, at: usize, code: i32) -> (r: bool)
    requires
        hi <= ps@.len(),
    ensures
        r == here(views(ps@), hi as nat, at as nat, code),
{
    at < hi && ps[at].code == code
}

/// `a`, the decimal form of `n`, `b`, then the decimal form of `m`.
fn said(a: &str, n: usize, b: &str, m: usize) -> (r: String)
    ensures
        r@ == a@ + decimal(n as nat) + b@ + decimal(m as nat),
{
    let mut r = concat(a, decimal_string(n as u64).as_str());
    r.append(b);
    r.append(decimal_string(m as u64).as_str());
    r
}

fn number_step(ps: &Vec<Pair>, fl: &Vec<Option<bool>>, hi: usize, at: usize, code: i32) -> (r: Result<
    (Option<usize>, usize),
    ReadError,
>)
    requires
        at <= hi <= ps@.len(),
        fl@.len() == ps@.len(),
    ensures
        match number_at(views(ps@), fl@, hi as nat, at as nat, code) {
            Ok((x, a)) => r matches Ok((y, b)) && y == x && b == a,
            Err(e) => r matches Err(x) && x@ == e,
        },
        r matches Ok((_, b)) ==> at <= b <= hi,
{
    if at < hi && ps[at].code == code {
        if fl[at].is_some() {
            Ok((Some(at), at + 1))
        } else {
            Err(bad(ps[at]))
        }
    } else {
        Ok((None, at))
    }
}

fn pair_step(ps: &Vec<Pair>, fl: &Vec<Option<bool>>, hi: usize, at: usize, x: i32, y: i32) -> (r: Result<
    (Option<Point2At>, usize),
    ReadError,
>)
    requires
        at <= hi <= ps@.len(),
        fl@.len() == ps@.len(),
    ensures
        match pair_at(views(ps@), fl@, hi as nat, at as nat, x, y) {
            Ok((p, a)) => r matches Ok((q, b)) && q == p && b == a,
            Err(e) => r matches Err(z) && z@ == e,
        },
        r matches Ok((_, b)) ==> at <= b <= hi,
{
    if !(at < hi && ps[at].code == x) {
        return Ok((None, at));
    }
    if fl[at].is_none() {
        return Err(bad(ps[at]));
    }
    match number_step(ps, fl, hi, at + 1, y) {
        Ok((iy, a)) => Ok((Some(Point2At { x: at, y: iy }), a)),
        Err(e) => Err(e),
    }
}

/// An exec integer as the spec's.
pub open spec fn int_view(v: Option<i64>) -> Option<int> {
    match v {
        Some(x) => Some(x as int),
        None => None,
    }
}

fn int_step(ps: &Vec<Pair>, hi: usize, at: usize, code: i32) -> (r: Result<(Option<i64>, usize), ReadError>)
    requires
        at <= hi <= ps@.len(),
    ensures
        match int_at(views(ps@), hi as nat, at as nat, code) {
            Ok((v, a)) => r matches Ok((w, b)) && int_view(w) == v && b == a,
            Err(e) => r matches Err(x) && x@ == e,
        },
        r matches Ok((_, b)) ==> at <= b <= hi,
{
    if at < hi && ps[at].code == code {
        match integer(ps[at]) {
            Ok(v) => Ok((Some(v), at + 1)),
            Err(e) => Err(e),
        }
    } else {
        Ok((None, at))
    }
}

fn skip_step(ps: &Vec<Pair>, hi: usize, at: usize, code: i32, k: usize) -> (r: usize)
    requires
        at <= hi <= ps@.len(),
    ensures
        r == skipped(views(ps@), hi as nat, at as nat, code, k as nat),
        at <= r <= hi,
{
    let ghost pv = views(ps@);
    let mut a = at;
    let mut left = k;
    while left > 0 && a < hi && ps[a].code == code
        invariant
            pv == views(ps@),
            at <= a <= hi <= ps@.len(),
            skipped(pv, hi as nat, at as nat, code, k as nat) == skipped(
                pv,
                hi as nat,
                a as nat,
                code,
                left as nat,
            ),
        decreases left,
    {
        a = a + 1;
        left = left - 1;
    }
    a
}

fn vertices_step(ps: &Vec<Pair>, fl: &Vec<Option<bool>>, hi: usize, at: usize, n: usize, bulge: bool) -> (r:
    Result<(Result<Vec<(Point2At, Option<usize>)>, String>, usize), ReadError>)
    requires
        at <= hi <= ps@.len(),
        fl@.len() == ps@.len(),
    ensures
        match vertices_at(views(ps@), fl@, hi as nat, at as nat, n as nat, n as nat, bulge, Seq::empty()) {
            Ok((Ok(v), a)) => r matches Ok((Ok(x), b)) && x@ == v && b == a,
            Ok((Err(w), a)) => r matches Ok((Err(x), b)) && x@ == w && b == a,
            Err(e) => r matches Err(x) && x@ == e,
        },
        r matches Ok((_, b)) ==> at <= b <= hi,
{
    let ghost pv = views(ps@);
    let mut acc: Vec<(Point2At, Option<usize>)> = Vec::new();
    let mut a = at;
    let mut k = n;
    while k > 0
        invariant
            pv == views(ps@),
            fl@.len() == ps@.len(),
            at <= a <= hi <= ps@.len(),
            vertices_at(pv, fl@, hi as nat, at as nat, n as nat, n as nat, bulge, Seq::empty())
                == vertices_at(pv, fl@, hi as nat, a as nat, k as nat, n as nat, bulge, acc@),
        decreases k,
    {
        match pair_step(ps, fl, hi, a, 10, 20) {
            Err(e) => {
                return Err(e);
            },
            Ok((None, b)) => {
                return Ok((Err(said("a polyline path states ", n, " vertices but has ", acc.len())), b));
            },
            Ok((Some(p), b)) => {
                let (bv, c) = if bulge {
                    match number_step(ps, fl, hi, b, 42) {
                        Ok(x) => x,
                        Err(e) => {
                            return Err(e);
                        },
                    }
                } else {
                    (None, b)
                };
                acc.push((p, bv));
                a = c;
                k = k - 1;
            },
        }
    }
    Ok((Ok(acc), a))
}

fn angles_step(ps: &Vec<Pair>, fl: &Vec<Option<bool>>, hi: usize, at: usize) -> (r: Result<
    ((Option<usize>, Option<usize>, Option<usize>, Option<usize>), usize),
    ReadError,
>)
    requires
        at <= hi <= ps@.len(),
        fl@.len() == ps@.len(),
    ensures
        match angles_at(views(ps@), fl@, hi as nat, at as nat) {
            Ok((v, a)) => r matches Ok((w, b)) && w == v && b == a,
            Err(e) => r matches Err(x) && x@ == e,
        },
        r matches Ok((_, b)) ==> at <= b <= hi,
{
    let (r, a1) = match number_step(ps, fl, hi, at, 40) {
        Ok(x) => x,
        Err(e) => {
            return Err(e);
        },
    };
    let (s, a2) = match number_step(ps, fl, hi, a1, 50) {
        Ok(x) => x,
        Err(e) => {
            return Err(e);
        },
    };
    let (t, a3) = match number_step(ps, fl, hi, a2, 51) {
        Ok(x) => x,
        Err(e) => {
            return Err(e);
        },
    };
    let (w, a4) = match number_step(ps, fl, hi, a3, 73) {
        Ok(x) => x,
        Err(e) => {
            return Err(e);
        },
    };
    Ok(((r, s, t, w), a4))
}

/// An exec edge that may be none, as the spec's.
pub open spec fn edge_opt_view(e: Option<EdgeAt>) -> Option<EdgeView> {
    match e {
        Some(x) => Some(x@),
        None => None,
    }
}

fn line_edge_step(ps: &Vec<Pair>, fl: &Vec<Option<bool>>, hi: usize, at: usize) -> (r: Result<
    (Result<Option<EdgeAt>, String>, usize),
    ReadError,
>)
    requires
        at <= hi <= ps@.len(),
        fl@.len() == ps@.len(),
    ensures
        match line_edge_at(views(ps@), fl@, hi as nat, at as nat) {
            Ok((Ok(v), a)) => r matches Ok((Ok(x), b)) && edge_opt_view(x) == v && b == a,
            Ok((Err(w), a)) => r matches Ok((Err(x), b)) && x@ == w && b == a,
            Err(e) => r matches Err(x) && x@ == e,
        },
        r matches Ok((_, b)) ==> at <= b <= hi,
{
    match pair_step(ps, fl, hi, at, 10, 20) {
        Err(e) => Err(e),
        Ok((None, a)) => Ok((Err(concat("an edge carries no ", "start point")), a)),
        Ok((Some(start), a)) => match pair_step(ps, fl, hi, a, 11, 21) {
            Err(e) => Err(e),
            Ok((end, b)) => Ok((Ok(Some(EdgeAt::Line { start, end })), b)),
        },
    }
}

fn arc_edge_step(ps: &Vec<Pair>, fl: &Vec<Option<bool>>, hi: usize, at: usize) -> (r: Result<
    (Result<Option<EdgeAt>, String>, usize),
    ReadError,
>)
    requires
        at <= hi <= ps@.len(),
        fl@.len() == ps@.len(),
    ensures
        match arc_edge_at(views(ps@), fl@, hi as nat, at as nat) {
            Ok((Ok(v), a)) => r matches Ok((Ok(x), b)) && edge_opt_view(x) == v && b == a,
            Ok((Err(w), a)) => r matches Ok((Err(x), b)) && x@ == w && b == a,
            Err(e) => r matches Err(x) && x@ == e,
        },
        r matches Ok((_, b)) ==> at <= b <= hi,
{
    match pair_step(ps, fl, hi, at, 10, 20) {
        Err(e) => Err(e),
        Ok((None, a)) => Ok((Err(concat("an edge carries no ", "center")), a)),
        Ok((Some(center), a)) => match angles_step(ps, fl, hi, a) {
            Err(e) => Err(e),
            Ok(((radius, start_angle, end_angle, ccw), b)) => Ok(
                (Ok(Some(EdgeAt::Arc { center, radius, start_angle, end_angle, ccw })), b),
            ),
        },
    }
}

fn ellipse_edge_step(ps: &Vec<Pair>, fl: &Vec<Option<bool>>, hi: usize, at: usize) -> (r: Result<
    (Result<Option<EdgeAt>, String>, usize),
    ReadError,
>)
    requires
        at <= hi <= ps@.len(),
        fl@.len() == ps@.len(),
    ensures
        match ellipse_edge_at(views(ps@), fl@, hi as nat, at as nat) {
            Ok((Ok(v), a)) => r matches Ok((Ok(x), b)) && edge_opt_view(x) == v && b == a,
            Ok((Err(w), a)) => r matches Ok((Err(x), b)) && x@ == w && b == a,
            Err(e) => r matches Err(x) && x@ == e,
        },
        r matches Ok((_, b)) ==> at <= b <= hi,
{
    match pair_step(ps, fl, hi, at, 10, 20) {
        Err(e) => Err(e),
        Ok((None, a)) => Ok((Err(concat("an edge carries no ", "center")), a)),
        Ok((Some(center), a)) => match pair_step(ps, fl, hi, a, 11, 21) {
            Err(e) => Err(e),
            Ok((None, b)) => Ok((Err(concat("an edge carries no ", "major axis endpoint")), b)),
            Ok((Some(end), b)) => match angles_step(ps, fl, hi, b) {
                Err(e) => Err(e),
                Ok(((ratio, start_angle, end_angle, ccw), c)) => Ok(
                    (Ok(Some(EdgeAt::Ellipse { center, end, ratio, start_angle, end_angle, ccw })), c),
                ),
            },
        },
    }
}

fn controls_step(ps: &Vec<Pair>, fl: &Vec<Option<bool>>, hi: usize, at: usize, n: usize) -> (r: Result<
    (Result<Vec<Point2At>, String>, usize),
    ReadError,
>)
    requires
        at <= hi <= ps@.len(),
        fl@.len() == ps@.len(),
    ensures
        match controls_at(views(ps@), fl@, hi as nat, at as nat, n as nat, n as nat, Seq::empty()) {
            Ok((Ok(v), a)) => r matches Ok((Ok(x), b)) && x@ == v && b == a,
            Ok((Err(w), a)) => r matches Ok((Err(x), b)) && x@ == w && b == a,
            Err(e) => r matches Err(x) && x@ == e,
        },
        r matches Ok((_, b)) ==> at <= b <= hi,
{
    let ghost pv = views(ps@);
    let mut acc: Vec<Point2At> = Vec::new();
    let mut a = at;
    let mut k = n;
    while k > 0
        invariant
            pv == views(ps@),
            fl@.len() == ps@.len(),
            at <= a <= hi <= ps@.len(),
            controls_at(pv, fl@, hi as nat, at as nat, n as nat, n as nat, Seq::empty()) == controls_at(
                pv,
                fl@,
                hi as nat,
                a as nat,
                k as nat,
                n as nat,
                acc@,
            ),
        decreases k,
    {
        match pair_step(ps, fl, hi, a, 10, 20) {
            Err(e) => {
                return Err(e);
            },
            Ok((None, b)) => {
                return Ok(
                    (Err(said("a spline edge states ", n, " control points but has ", acc.len())), b),
                );
            },
            Ok((Some(p), b)) => {
                acc.push(p);
                a = b;
                k = k - 1;
            },
        }
    }
    Ok((Ok(acc), a))
}

fn fit_step(ps: &Vec<Pair>, fl: &Vec<Option<bool>>, hi: usize, at: usize, n: usize) -> (r: Result<
    usize,
    ReadError,
>)
    requires
        at <= hi <= ps@.len(),
        fl@.len() == ps@.len(),
    ensures
        match fit_at(views(ps@), fl@, hi as nat, at as nat, n as nat) {
            Ok(a) => r matches Ok(b) && b == a,
            Err(e) => r matches Err(x) && x@ == e,
        },
        r matches Ok(b) ==> at <= b <= hi,
{
    let ghost pv = views(ps@);
    let mut a = at;
    let mut k = n;
    while k > 0
        invariant
            pv == views(ps@),
            fl@.len() == ps@.len(),
            at <= a <= hi <= ps@.len(),
            fit_at(pv, fl@, hi as nat, at as nat, n as nat) == fit_at(pv, fl@, hi as nat, a as nat, k as nat),
        decreases k,
    {
        match pair_step(ps, fl, hi, a, 11, 21) {
            Err(e) => {
                return Err(e);
            },
            Ok((None, b)) => {
                return Ok(b);
            },
            Ok((Some(_), b)) => {
                a = b;
                k = k - 1;
            },
        }
    }
    Ok(a)
}

fn spline_tail_step(ps: &Vec<Pair>, fl: &Vec<Option<bool>>, hi: usize, at: usize, rational: bool, n: usize) -> (r:
    Result<usize, ReadError>)
    requires
        at <= hi <= ps@.len(),
        fl@.len() == ps@.len(),
    ensures
        match spline_tail_at(views(ps@), fl@, hi as nat, at as nat, rational, n as nat) {
            Ok(a) => r matches Ok(b) && b == a,
            Err(e) => r matches Err(x) && x@ == e,
        },
        r matches Ok(b) ==> at <= b <= hi,
{
    let a7 = if rational {
        skip_step(ps, hi, at, 42, n)
    } else {
        at
    };
    let (fit, a8) = match int_step(ps, hi, a7, 97) {
        Ok(x) => x,
        Err(e) => {
            return Err(e);
        },
    };
    let a9 = match fit {
        Some(v) => match fit_step(ps, fl, hi, a8, count(v)) {
            Ok(a) => a,
            Err(e) => {
                return Err(e);
            },
        },
        None => a8,
    };
    let (_, a10) = match pair_step(ps, fl, hi, a9, 12, 22) {
        Ok(x) => x,
        Err(e) => {
            return Err(e);
        },
    };
    let (_, a11) = match pair_step(ps, fl, hi, a10, 13, 23) {
        Ok(x) => x,
        Err(e) => {
            return Err(e);
        },
    };
    Ok(a11)
}

#[verifier::rlimit(40)]
fn spline_edge_step(ps: &Vec<Pair>, fl: &Vec<Option<bool>>, hi: usize, at: usize) -> (r: Result<
    (Result<Option<EdgeAt>, String>, usize),
    ReadError,
>)
    requires
        at <= hi <= ps@.len(),
        fl@.len() == ps@.len(),
    ensures
        match spline_edge_at(views(ps@), fl@, hi as nat, at as nat) {
            Ok((Ok(v), a)) => r matches Ok((Ok(x), b)) && edge_opt_view(x) == v && b == a,
            Ok((Err(w), a)) => r matches Ok((Err(x), b)) && x@ == w && b == a,
            Err(e) => r matches Err(x) && x@ == e,
        },
        r matches Ok((_, b)) ==> at <= b <= hi,
{
    let a1 = if here_at(ps, hi, at, 94) {
        at + 1
    } else {
        at
    };
    let (rat, a2) = match number_step(ps, fl, hi, a1, 73) {
        Ok(x) => x,
        Err(e) => {
            return Err(e);
        },
    };
    let rational = match rat {
        Some(i) => fl[i] == Some(true),
        None => false,
    };
    let a3 = if here_at(ps, hi, a2, 74) {
        a2 + 1
    } else {
        a2
    };
    let (kn, a4) = match int_step(ps, hi, a3, 95) {
        Ok(x) => x,
        Err(e) => {
            return Err(e);
        },
    };
    let knots = match kn {
        Some(v) => count(v),
        None => 0,
    };
    if !here_at(ps, hi, a4, 96) {
        return Ok((Err(concat("an edge carries no ", "control point count (96)")), a4));
    }
    let nv = match integer(ps[a4]) {
        Ok(v) => v,
        Err(e) => {
            return Err(e);
        },
    };
    assert(views(ps@)[a4 as int] == ps@[a4 as int]@);
    let n = count(nv);
    let a5 = skip_step(ps, hi, a4 + 1, 40, knots);
    let (cps, a6) = match controls_step(ps, fl, hi, a5, n) {
        Err(e) => {
            return Err(e);
        },
        Ok((Err(w), a)) => {
            return Ok((Err(w), a));
        },
        Ok((Ok(cps), a6)) => (cps, a6),
    };
    let a11 = match spline_tail_step(ps, fl, hi, a6, rational, n) {
        Ok(a) => a,
        Err(e) => {
            return Err(e);
        },
    };
    Ok((Ok(Some(EdgeAt::Spline { control_points: cps })), a11))
}

fn edge_step(ps: &Vec<Pair>, fl: &Vec<Option<bool>>, hi: usize, at: usize) -> (r: Result<
    (Result<Option<EdgeAt>, String>, usize),
    ReadError,
>)
    requires
        at <= hi <= ps@.len(),
        fl@.len() == ps@.len(),
    ensures
        match edge_at(views(ps@), fl@, hi as nat, at as nat) {
            Ok((Ok(v), a)) => r matches Ok((Ok(x), b)) && edge_opt_view(x) == v && b == a,
            Ok((Err(w), a)) => r matches Ok((Err(x), b)) && x@ == w && b == a,
            Err(e) => r matches Err(x) && x@ == e,
        },
        r matches Ok((_, b)) ==> at <= b <= hi,
{
    if !here_at(ps, hi, at, 72) {
        return Ok((Err(owned("an edge does not start with its kind (72)")), at));
    }
    assert(views(ps@)[at as int] == ps@[at as int]@);
    let kind = match integer(ps[at]) {
        Ok(v) => v,
        Err(e) => {
            return Err(e);
        },
    };
    if kind == 1 {
        line_edge_step(ps, fl, hi, at + 1)
    } else if kind == 2 {
        arc_edge_step(ps, fl, hi, at + 1)
    } else if kind == 3 {
        ellipse_edge_step(ps, fl, hi, at + 1)
    } else if kind == 4 {
        spline_edge_step(ps, fl, hi, at + 1)
    } else {
        Ok((Ok(None), at + 1))
    }
}

fn edges_step(ps: &Vec<Pair>, fl: &Vec<Option<bool>>, hi: usize, at: usize, n: usize) -> (r: Result<
    (Result<Vec<EdgeAt>, String>, usize),
    ReadError,
>)
    requires
        at <= hi <= ps@.len(),
        fl@.len() == ps@.len(),
    ensures
        match edges_at(views(ps@), fl@, hi as nat, at as nat, n as nat, Seq::empty()) {
            Ok((Ok(v), a)) => r matches Ok((Ok(x), b)) && edge_views(x@) == v && b == a,
            Ok((Err(w), a)) => r matches Ok((Err(x), b)) && x@ == w && b == a,
            Err(e) => r matches Err(x) && x@ == e,
        },
        r matches Ok((_, b)) ==> at <= b <= hi,
{
    let ghost pv = views(ps@);
    let mut acc: Vec<EdgeAt> = Vec::new();
    let mut a = at;
    let mut k = n;
    assert(edge_views(acc@) =~= Seq::<EdgeView>::empty());
    while k > 0
        invariant
            pv == views(ps@),
            fl@.len() == ps@.len(),
            at <= a <= hi <= ps@.len(),
            edges_at(pv, fl@, hi as nat, at as nat, n as nat, Seq::empty()) == edges_at(
                pv,
                fl@,
                hi as nat,
                a as nat,
                k as nat,
                edge_views(acc@),
            ),
        decreases k,
    {
        match edge_step(ps, fl, hi, a) {
            Err(e) => {
                return Err(e);
            },
            Ok((Err(w), b)) => {
                return Ok((Err(w), b));
            },
            Ok((Ok(None), b)) => {
                a = b;
                k = k - 1;
            },
            Ok((Ok(Some(e)), b)) => {
                let ghost before = acc@;
                acc.push(e);
                assert(edge_views(acc@) =~= edge_views(before).push(e@));
                a = b;
                k = k - 1;
            },
        }
    }
    Ok((Ok(acc), a))
}

fn sources_step(ps: &Vec<Pair>, hi: usize, at: usize) -> (r: Result<usize, ReadError>)
    requires
        at <= hi <= ps@.len(),
    ensures
        match sources_at(views(ps@), hi as nat, at as nat) {
            Ok(a) => r matches Ok(b) && b == a,
            Err(e) => r matches Err(x) && x@ == e,
        },
        r matches Ok(b) ==> at <= b <= hi,
{
    match int_step(ps, hi, at, 97) {
        Err(e) => Err(e),
        Ok((None, a)) => Ok(a),
        Ok((Some(v), a)) => Ok(skip_step(ps, hi, a, 330, count(v))),
    }
}

#[verifier::rlimit(40)]
fn path_step(ps: &Vec<Pair>, fl: &Vec<Option<bool>>, hi: usize, at: usize) -> (r: Result<
    (Result<PathAt, String>, usize),
    ReadError,
>)
    requires
        at <= hi <= ps@.len(),
        fl@.len() == ps@.len(),
    ensures
        match path_at(views(ps@), fl@, hi as nat, at as nat) {
            Ok((Ok(v), a)) => r matches Ok((Ok(x), b)) && x@ == v && b == a,
            Ok((Err(w), a)) => r matches Ok((Err(x), b)) && x@ == w && b == a,
            Err(e) => r matches Err(x) && x@ == e,
        },
        r matches Ok((_, b)) ==> at <= b <= hi,
{
    if !here_at(ps, hi, at, 92) {
        return Ok((Err(owned("a boundary path does not start with its type (92)")), at));
    }
    assert(views(ps@)[at as int] == ps@[at as int]@);
    let flags = match integer(ps[at]) {
        Ok(v) => v,
        Err(e) => {
            return Err(e);
        },
    };
    let a = at + 1;
    let (path, b) = if flags & 2 != 0 {
        let (hb, a1) = match int_step(ps, hi, a, 72) {
            Ok(x) => x,
            Err(e) => {
                return Err(e);
            },
        };
        let bulge = match hb {
            Some(v) => v != 0,
            None => false,
        };
        let a2 = if here_at(ps, hi, a1, 73) {
            a1 + 1
        } else {
            a1
        };
        if !here_at(ps, hi, a2, 93) {
            return Ok((Err(owned("a polyline path states no vertex count (93)")), a2));
        }
        assert(views(ps@)[a2 as int] == ps@[a2 as int]@);
        let nv = match integer(ps[a2]) {
            Ok(v) => v,
            Err(e) => {
                return Err(e);
            },
        };
        match vertices_step(ps, fl, hi, a2 + 1, count(nv), bulge) {
            Err(e) => {
                return Err(e);
            },
            Ok((Err(w), b)) => {
                return Ok((Err(w), b));
            },
            Ok((Ok(vs), b)) => (PathAt::Polyline(vs), b),
        }
    } else {
        if !here_at(ps, hi, a, 93) {
            return Ok((Err(owned("an edge path states no edge count (93)")), a));
        }
        assert(views(ps@)[a as int] == ps@[a as int]@);
        let nv = match integer(ps[a]) {
            Ok(v) => v,
            Err(e) => {
                return Err(e);
            },
        };
        match edges_step(ps, fl, hi, a + 1, count(nv)) {
            Err(e) => {
                return Err(e);
            },
            Ok((Err(w), b)) => {
                return Ok((Err(w), b));
            },
            Ok((Ok(es), b)) => (PathAt::Edges(es), b),
        }
    };
    match sources_step(ps, hi, b) {
        Err(e) => Err(e),
        Ok(c) => Ok((Ok(path), c)),
    }
}

fn paths_step(ps: &Vec<Pair>, fl: &Vec<Option<bool>>, hi: usize, at: usize, n: usize) -> (r: Result<
    (Vec<PathAt>, Option<String>, usize),
    ReadError,
>)
    requires
        at <= hi <= ps@.len(),
        fl@.len() == ps@.len(),
    ensures
        match paths_at(views(ps@), fl@, hi as nat, at as nat, n as nat, Seq::empty()) {
            Ok((v, w, a)) => r matches Ok((x, y, b)) && path_views(x@) == v && b == a && match y {
                Some(m) => w == Some(m@),
                None => w is None,
            },
            Err(e) => r matches Err(x) && x@ == e,
        },
        r matches Ok((_, _, b)) ==> at <= b <= hi,
{
    let ghost pv = views(ps@);
    let mut acc: Vec<PathAt> = Vec::new();
    let mut a = at;
    let mut k = n;
    assert(path_views(acc@) =~= Seq::<PathView>::empty());
    while k > 0
        invariant
            pv == views(ps@),
            fl@.len() == ps@.len(),
            at <= a <= hi <= ps@.len(),
            paths_at(pv, fl@, hi as nat, at as nat, n as nat, Seq::empty()) == paths_at(
                pv,
                fl@,
                hi as nat,
                a as nat,
                k as nat,
                path_views(acc@),
            ),
        decreases k,
    {
        match path_step(ps, fl, hi, a) {
            Err(e) => {
                return Err(e);
            },
            Ok((Err(w), b)) => {
                return Ok((acc, Some(w), b));
            },
            Ok((Ok(p), b)) => {
                let ghost before = acc@;
                acc.push(p);
                assert(path_views(acc@) =~= path_views(before).push(p@));
                a = b;
                k = k - 1;
            },
        }
    }
    Ok((acc, None, a))
}

fn dashes_step(ps: &Vec<Pair>, fl: &Vec<Option<bool>>, hi: usize, at: usize, n: usize) -> (r: Result<
    (Result<Vec<usize>, String>, usize),
    ReadError,
>)
    requires
        at <= hi <= ps@.len(),
        fl@.len() == ps@.len(),
    ensures
        match dashes_at(views(ps@), fl@, hi as nat, at as nat, n as nat, n as nat, Seq::empty()) {
            Ok((Ok(v), a)) => r matches Ok((Ok(x), b)) && x@ == v && b == a,
            Ok((Err(w), a)) => r matches Ok((Err(x), b)) && x@ == w && b == a,
            Err(e) => r matches Err(x) && x@ == e,
        },
        r matches Ok((_, b)) ==> at <= b <= hi,
{
    let ghost pv = views(ps@);
    let mut acc: Vec<usize> = Vec::new();
    let mut a = at;
    let mut k = n;
    while k > 0
        invariant
            pv == views(ps@),
            fl@.len() == ps@.len(),
            at <= a <= hi <= ps@.len(),
            dashes_at(pv, fl@, hi as nat, at as nat, n as nat, n as nat, Seq::empty()) == dashes_at(
                pv,
                fl@,
                hi as nat,
                a as nat,
                k as nat,
                n as nat,
                acc@,
            ),
        decreases k,
    {
        if a < hi && ps[a].code == 49 {
            if fl[a].is_none() {
                return Err(bad(ps[a]));
            }
            acc.push(a);
            a = a + 1;
            k = k - 1;
        } else {
            return Ok((Err(said("a pattern line states ", n, " dashes but has ", acc.len())), a));
        }
    }
    Ok((Ok(acc), a))
}

fn pattern_line_step(ps: &Vec<Pair>, fl: &Vec<Option<bool>>, hi: usize, at: usize) -> (r: Result<
    (Result<PatternLineAt, String>, usize),
    ReadError,
>)
    requires
        at <= hi <= ps@.len(),
        fl@.len() == ps@.len(),
    ensures
        match pattern_line_at(views(ps@), fl@, hi as nat, at as nat) {
            Ok((Ok(v), a)) => r matches Ok((Ok(x), b)) && x@ == v && b == a,
            Ok((Err(w), a)) => r matches Ok((Err(x), b)) && x@ == w && b == a,
            Err(e) => r matches Err(x) && x@ == e,
        },
        r matches Ok((_, b)) ==> at <= b <= hi,
{
    if !here_at(ps, hi, at, 53) {
        return Ok((Err(owned("a pattern line does not start with its angle (53)")), at));
    }
    if fl[at].is_none() {
        return Err(bad(ps[at]));
    }
    let (base_point, a1) = match pair_step(ps, fl, hi, at + 1, 43, 44) {
        Ok(x) => x,
        Err(e) => {
            return Err(e);
        },
    };
    let (offset, a2) = match pair_step(ps, fl, hi, a1, 45, 46) {
        Ok(x) => x,
        Err(e) => {
            return Err(e);
        },
    };
    let (d, a3) = match int_step(ps, hi, a2, 79) {
        Ok(x) => x,
        Err(e) => {
            return Err(e);
        },
    };
    let n = match d {
        Some(v) => count(v),
        None => 0,
    };
    match dashes_step(ps, fl, hi, a3, n) {
        Err(e) => Err(e),
        Ok((Err(w), a)) => Ok((Err(w), a)),
        Ok((Ok(dashes), a4)) => Ok((Ok(PatternLineAt { angle: at, base_point, offset, dashes }), a4)),
    }
}

fn pattern_lines_step(ps: &Vec<Pair>, fl: &Vec<Option<bool>>, hi: usize, at: usize, n: usize) -> (r: Result<
    (Vec<PatternLineAt>, Option<String>),
    ReadError,
>)
    requires
        at <= hi <= ps@.len(),
        fl@.len() == ps@.len(),
    ensures
        match pattern_lines_at(views(ps@), fl@, hi as nat, at as nat, n as nat, Seq::empty()) {
            Ok((v, w)) => r matches Ok((x, y)) && pattern_views(x@) == v && match y {
                Some(m) => w == Some(m@),
                None => w is None,
            },
            Err(e) => r matches Err(x) && x@ == e,
        },
{
    let ghost pv = views(ps@);
    let mut acc: Vec<PatternLineAt> = Vec::new();
    let mut a = at;
    let mut k = n;
    assert(pattern_views(acc@) =~= Seq::<PatternLineView>::empty());
    while k > 0
        invariant
            pv == views(ps@),
            fl@.len() == ps@.len(),
            at <= a <= hi <= ps@.len(),
            pattern_lines_at(pv, fl@, hi as nat, at as nat, n as nat, Seq::empty()) == pattern_lines_at(
                pv,
                fl@,
                hi as nat,
                a as nat,
                k as nat,
                pattern_views(acc@),
            ),
        decreases k,
    {
        match pattern_line_step(ps, fl, hi, a) {
            Err(e) => {
                return Err(e);
            },
            Ok((Err(w), _)) => {
                return Ok((acc, Some(w)));
            },
            Ok((Ok(l), b)) => {
                let ghost before = acc@;
                acc.push(l);
                assert(pattern_views(acc@) =~= pattern_views(before).push(l@));
                a = b;
                k = k - 1;
            },
        }
    }
    Ok((acc, None))
}

fn pattern_step(ps: &Vec<Pair>, fl: &Vec<Option<bool>>, hi: usize, at: usize) -> (r: Result<
    (Vec<PatternLineAt>, Option<String>),
    ReadError,
>)
    requires
        at <= hi <= ps@.len(),
        fl@.len() == ps@.len(),
    ensures
        match pattern_at(views(ps@), fl@, hi as nat, at as nat) {
            Ok((v, w)) => r matches Ok((x, y)) && pattern_views(x@) == v && match y {
                Some(m) => w == Some(m@),
                None => w is None,
            },
            Err(e) => r matches Err(x) && x@ == e,
        },
{
    match find(ps, at, hi, 78) {
        None => {
            let v: Vec<PatternLineAt> = Vec::new();
            assert(pattern_views(v@) =~= Seq::<PatternLineView>::empty());
            Ok((v, None))
        },
        Some(i) => {
            assert(views(ps@)[i as int] == ps@[i as int]@);
            match integer(ps[i]) {
                Err(e) => Err(e),
                Ok(v) => pattern_lines_step(ps, fl, hi, i + 1, count(v)),
            }
        },
    }
}

fn stops_step(ps: &Vec<Pair>, fl: &Vec<Option<bool>>, lo: usize, hi: usize) -> (r: Result<
    Vec<StopAt>,
    ReadError,
>)
    requires
        lo <= hi <= ps@.len(),
        fl@.len() == ps@.len(),
    ensures
        match stops_at(views(ps@), fl@, hi as nat, lo as nat, None, Seq::empty()) {
            Ok(v) => r matches Ok(x) && x@ == v,
            Err(e) => r matches Err(x) && x@ == e,
        },
{
    let ghost pv = views(ps@);
    let mut acc: Vec<StopAt> = Vec::new();
    let mut current: Option<(usize, Option<u32>)> = None;
    let mut i = lo;
    while i < hi
        invariant
            pv == views(ps@),
            fl@.len() == ps@.len(),
            lo <= i <= hi <= ps@.len(),
            stops_at(pv, fl@, hi as nat, lo as nat, None, Seq::empty()) == stops_at(
                pv,
                fl@,
                hi as nat,
                i as nat,
                current,
                acc@,
            ),
        decreases hi - i,
    {
        let p = ps[i];
        assert(pv[i as int] == p@);
        if p.code == 463 || p.code == 460 {
            if p.code == 463 && fl[i].is_none() {
                return Err(bad(p));
            }
            match current {
                Some((pos, c)) => {
                    let color = match c {
                        Some(x) => x,
                        None => 0,
                    };
                    acc.push(StopAt { position: pos, color });
                },
                None => {},
            }
            current = if p.code == 463 {
                Some((i, None))
            } else {
                None
            };
        } else {
            match current {
                None => {},
                Some((pos, c)) => {
                    if p.code == 421 {
                        match integer(p) {
                            Err(e) => {
                                return Err(e);
                            },
                            Ok(v) => {
                                current = Some((pos, Some((v as u32) & 0xff_ffffu32)));
                            },
                        }
                    } else if p.code == 63 && c.is_none() {
                        match integer(p) {
                            Err(e) => {
                                return Err(e);
                            },
                            Ok(v) => {
                                let m: u64 = if v < 0 {
                                    (-(v as i128)) as u64
                                } else {
                                    v as u64
                                };
                                let index = (m % 65536) as u16;
                                current = Some((pos, aci_to_rgb(index)));
                            },
                        }
                    }
                },
            }
        }
        i = i + 1;
    }
    match current {
        Some((pos, c)) => {
            let color = match c {
                Some(x) => x,
                None => 0,
            };
            acc.push(StopAt { position: pos, color });
        },
        None => {},
    }
    Ok(acc)
}

fn gradient_step(ps: &Vec<Pair>, fl: &Vec<Option<bool>>, lo: usize, hi: usize) -> (r: Result<
    Option<GradientAt>,
    ReadError,
>)
    requires
        lo <= hi <= ps@.len(),
        fl@.len() == ps@.len(),
    ensures
        match gradient_at(views(ps@), fl@, lo as nat, hi as nat) {
            Ok(Some(v)) => r matches Ok(Some(x)) && x@ == v,
            Ok(None) => r matches Ok(None),
            Err(e) => r matches Err(x) && x@ == e,
        },
{
    let g = match int_in(ps, lo, hi, 450, i64::MIN, i64::MAX) {
        Ok(g) => g,
        Err(e) => {
            return Err(e);
        },
    };
    if g != Some(1i64) {
        return Ok(None);
    }
    let stops = match stops_step(ps, fl, lo, hi) {
        Ok(s) => s,
        Err(e) => {
            return Err(e);
        },
    };
    let s = match int_in(ps, lo, hi, 452, i64::MIN, i64::MAX) {
        Ok(s) => s,
        Err(e) => {
            return Err(e);
        },
    };
    let tint = match number_field_at(ps, fl, lo, hi, 462) {
        Ok(t) => t,
        Err(e) => {
            return Err(e);
        },
    };
    if stops.len() == 0 {
        return Ok(None);
    }
    let angle = match number_field_at(ps, fl, lo, hi, 460) {
        Ok(a) => a,
        Err(e) => {
            return Err(e);
        },
    };
    let radial = match find(ps, lo, hi, 470) {
        Some(n) => {
            assert(views(ps@)[n as int] == ps@[n as int]@);
            let name = to_ascii_uppercase(trim(ps[n].value));
            str_eq(name.as_str(), "SPHERICAL") || str_eq(name.as_str(), "HEMISPHERICAL")
        },
        None => false,
    };
    Ok(Some(GradientAt { radial, angle, tint, single: s == Some(1i64), stops }))
}

fn style_step(ps: &Vec<Pair>, lo: usize, hi: usize) -> (r: Result<Option<FillStyle>, ReadError>)
    requires
        lo <= hi <= ps@.len(),
    ensures
        match style_at(views(ps@), lo as nat, hi as nat) {
            Ok(v) => r matches Ok(x) && x == v,
            Err(e) => r matches Err(x) && x@ == e,
        },
{
    match int_in(ps, lo, hi, 75, i64::MIN, i64::MAX) {
        Err(e) => Err(e),
        Ok(v) => Ok(
            match v {
                Some(0) => Some(FillStyle::Normal),
                Some(1) => Some(FillStyle::Outer),
                Some(2) => Some(FillStyle::Ignore),
                _ => None,
            },
        ),
    }
}

fn start_step(ps: &Vec<Pair>, lo: usize, hi: usize) -> (r: usize)
    requires
        lo <= hi <= ps@.len(),
    ensures
        r == hatch_start(views(ps@), lo as nat, hi as nat),
        lo <= r <= hi,
{
    let ghost pv = views(ps@);
    let mut i = lo;
    while i < hi
        invariant
            pv == views(ps@),
            lo <= i <= hi <= ps@.len(),
            hatch_start(pv, lo as nat, hi as nat) == hatch_start(pv, i as nat, hi as nat),
        decreases hi - i,
    {
        let p = ps[i];
        assert(pv[i as int] == p@);
        if p.code == 100 && str_eq(trim(p.value), "AcDbHatch") {
            return i + 1;
        }
        i = i + 1;
    }
    hi
}

/// The header as the code reads it: elevation, extrusion components, fill
/// flag, path count, and where the walk is after it.
pub open spec fn head_view(
    h: (Option<usize>, Option<usize>, Option<usize>, Option<usize>, bool, Option<usize>, usize),
) -> (HeadView, Option<nat>, nat) {
    (
        HeadView { elevation: h.0, extrusion: (h.1, h.2, h.3), solid_fill: h.4 },
        match h.5 {
            Some(n) => Some(n as nat),
            None => None,
        },
        h.6 as nat,
    )
}

fn head_step(ps: &Vec<Pair>, fl: &Vec<Option<bool>>, hi: usize, start: usize) -> (r: Result<
    (Option<usize>, Option<usize>, Option<usize>, Option<usize>, bool, Option<usize>, usize),
    ReadError,
>)
    requires
        start <= hi <= ps@.len(),
        fl@.len() == ps@.len(),
    ensures
        match head_at(
            views(ps@),
            fl@,
            hi as nat,
            start as nat,
            HeadView { elevation: None, extrusion: (None, None, None), solid_fill: false },
        ) {
            Ok(v) => r matches Ok(x) && head_view(x) == v,
            Err(e) => r matches Err(x) && x@ == e,
        },
        r matches Ok(x) ==> start <= x.6 <= hi,
{
    let ghost pv = views(ps@);
    let ghost blank = HeadView { elevation: None, extrusion: (None, None, None), solid_fill: false };
    let mut elevation: Option<usize> = None;
    let mut ex: Option<usize> = None;
    let mut ey: Option<usize> = None;
    let mut ez: Option<usize> = None;
    let mut solid_fill = false;
    let mut at = start;
    while at < hi
        invariant
            pv == views(ps@),
            fl@.len() == ps@.len(),
            start <= at <= hi <= ps@.len(),
            blank == (HeadView { elevation: None, extrusion: (None, None, None), solid_fill: false }),
            head_at(pv, fl@, hi as nat, start as nat, blank) == head_at(
                pv,
                fl@,
                hi as nat,
                at as nat,
                HeadView { elevation, extrusion: (ex, ey, ez), solid_fill },
            ),
        decreases hi - at,
    {
        let p = ps[at];
        assert(pv[at as int] == p@);
        let c = p.code;
        if c == 30 || c == 210 || c == 220 || c == 230 {
            if fl[at].is_none() {
                return Err(bad(p));
            }
            if c == 30 {
                elevation = Some(at);
            } else if c == 210 {
                ex = Some(at);
            } else if c == 220 {
                ey = Some(at);
            } else {
                ez = Some(at);
            }
        } else if c == 70 {
            match integer(p) {
                Err(e) => {
                    return Err(e);
                },
                Ok(v) => {
                    solid_fill = v != 0;
                },
            }
        } else if c == 91 {
            match integer(p) {
                Err(e) => {
                    return Err(e);
                },
                Ok(v) => {
                    return Ok((elevation, ex, ey, ez, solid_fill, Some(count(v)), at + 1));
                },
            }
        }
        at = at + 1;
    }
    Ok((elevation, ex, ey, ez, solid_fill, None, at))
}

/// A HATCH record `ps[lo..hi]`, read in order (see `hatch_of`); `fl` says
/// of each pair whether its value is a number, and a nonzero one.
#[verifier::rlimit(40)]
pub fn hatch(ps: &Vec<Pair>, fl: &Vec<Option<bool>>, lo: usize, hi: usize) -> (r: Result<HatchAt, ReadError>)
    requires
        lo <= hi <= ps@.len(),
        fl@.len() == ps@.len(),
    ensures
        match hatch_of(views(ps@), fl@, lo as nat, hi as nat) {
            Ok(v) => r matches Ok(x) && x@ == v,
            Err(e) => r matches Err(x) && x@ == e,
        },
{
    let ghost pv = views(ps@);
    let found = start_step(ps, lo, hi);
    let start = if found < hi {
        found
    } else {
        lo
    };
    let (elevation, ex, ey, ez, solid_fill, count_stated, at) = match head_step(ps, fl, hi, start) {
        Ok(x) => x,
        Err(e) => {
            return Err(e);
        },
    };
    let n = match count_stated {
        None => {
            let paths: Vec<PathAt> = Vec::new();
            let lines: Vec<PatternLineAt> = Vec::new();
            assert(path_views(paths@) =~= Seq::<PathView>::empty());
            assert(pattern_views(lines@) =~= Seq::<PatternLineView>::empty());
            return Ok(
                HatchAt {
                    elevation,
                    extrusion_x: ex,
                    extrusion_y: ey,
                    extrusion_z: ez,
                    solid_fill,
                    paths,
                    style: None,
                    pattern_lines: lines,
                    gradient: None,
                    warning: None,
                },
            );
        },
        Some(n) => n,
    };
    let (paths, warned, a2) = match paths_step(ps, fl, hi, at, n) {
        Ok(x) => x,
        Err(e) => {
            return Err(e);
        },
    };
    if let Some(w) = warned {
        let lines: Vec<PatternLineAt> = Vec::new();
        assert(pattern_views(lines@) =~= Seq::<PatternLineView>::empty());
        let mut m = concat("HATCH_STRUCTURE: ", w.as_str());
        m.append("; what was read before it is kept");
        return Ok(
            HatchAt {
                elevation,
                extrusion_x: ex,
                extrusion_y: ey,
                extrusion_z: ez,
                solid_fill,
                paths,
                style: None,
                pattern_lines: lines,
                gradient: None,
                warning: Some(m),
            },
        );
    }
    let style = match style_step(ps, a2, hi) {
        Ok(s) => s,
        Err(e) => {
            return Err(e);
        },
    };
    let (lines, pw) = match pattern_step(ps, fl, hi, a2) {
        Ok(x) => x,
        Err(e) => {
            return Err(e);
        },
    };
    let gradient = match gradient_step(ps, fl, a2, hi) {
        Ok(g) => g,
        Err(e) => {
            return Err(e);
        },
    };
    let warning = match pw {
        Some(w) => {
            let mut m = concat("HATCH_STRUCTURE: ", w.as_str());
            m.append("; what was read before it is kept");
            Some(m)
        },
        None => None,
    };
    Ok(
        HatchAt {
            elevation,
            extrusion_x: ex,
            extrusion_y: ey,
            extrusion_z: ez,
            solid_fill,
            paths,
            style,
            pattern_lines: lines,
            gradient,
            warning,
        },
    )
}

} // verus!
