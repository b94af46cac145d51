use undxf::hatch::{hatch, EdgeAt, FillStyle, HatchAt, PathAt, Point2At, StopAt};
use undxf::pairs::{pairs, Pair};

const HEAD: [(i32, &str); 8] = [
    (10, "0"),
    (20, "0"),
    (30, "0"),
    (210, "0"),
    (220, "0"),
    (230, "1"),
    (2, "ANSI31"),
    (71, "0"),
];

/// The text of one HATCH record whose own groups are `groups`.
fn record(groups: &[(i32, &str)]) -> String {
    let mut text = String::from("  5\n2D\n  8\n0\n100\nAcDbEntity\n100\nAcDbHatch\n");
    for (code, value) in groups {
        text.push_str(&format!("{code:>3}\n{value}\n"));
    }
    text
}

/// Whether each pair holds a number, and a nonzero one.
fn numbers(ps: &[Pair<'_>]) -> Vec<Option<bool>> {
    ps.iter().map(|p| p.value.trim().parse::<f64>().ok().map(|v| v != 0.0)).collect()
}

fn read(text: &str) -> (Vec<Pair<'_>>, HatchAt) {
    let ps = pairs(text).unwrap();
    let fl = numbers(&ps);
    let h = hatch(&ps, &fl, 0, ps.len()).unwrap();
    (ps, h)
}

fn value<'a>(ps: &[Pair<'a>], i: usize) -> &'a str {
    ps[i].value
}

fn number(ps: &[Pair<'_>], i: usize) -> f64 {
    ps[i].value.trim().parse().unwrap()
}

fn radians(ps: &[Pair<'_>], i: Option<usize>) -> f64 {
    number(ps, i.unwrap()).to_radians()
}

fn xy<'a>(ps: &[Pair<'a>], p: Point2At) -> (&'a str, &'a str) {
    (ps[p.x].value, ps[p.y.unwrap()].value)
}

fn with(extra: &[(i32, &'static str)]) -> Vec<(i32, &'static str)> {
    let mut g: Vec<(i32, &str)> = HEAD.to_vec();
    g.extend_from_slice(extra);
    g
}

#[test]
fn a_polyline_path_keeps_its_bulges_and_a_solid_fill_its_flag() {
    let text = record(&with(&[
        (70, "1"),
        (91, "1"),
        (92, "2"),
        (72, "1"),
        (73, "1"),
        (93, "3"),
        (10, "0"),
        (20, "0"),
        (42, "0"),
        (10, "4"),
        (20, "0"),
        (42, "1"),
        (10, "4"),
        (20, "4"),
        (42, "0"),
        (97, "0"),
        (75, "0"),
        (76, "1"),
        (98, "0"),
    ]));
    let (ps, h) = read(&text);
    assert!(h.solid_fill);
    let [PathAt::Polyline(v)] = h.paths.as_slice() else {
        panic!("{:?}", h.paths);
    };
    assert_eq!(v.len(), 3);
    assert_eq!(xy(&ps, v[1].0), ("4", "0"));
    assert_eq!(value(&ps, v[1].1.unwrap()), "1");
    assert!(h.pattern_lines.is_empty() && h.gradient.is_none());
    assert_eq!(h.style, Some(FillStyle::Normal));
    assert_eq!(h.warning, None);
}

#[test]
fn an_edge_path_reads_each_kind_of_edge_with_its_angles_in_radians() {
    let text = record(&with(&[
        (70, "0"),
        (91, "1"),
        (92, "1"),
        (93, "4"),
        (72, "1"),
        (10, "0"),
        (20, "0"),
        (11, "4"),
        (21, "0"),
        (72, "2"),
        (10, "4"),
        (20, "2"),
        (40, "2"),
        (50, "-90"),
        (51, "90"),
        (73, "1"),
        (72, "3"),
        (10, "2"),
        (20, "4"),
        (11, "2"),
        (21, "0"),
        (40, "0.5"),
        (50, "0"),
        (51, "180"),
        (73, "0"),
        (72, "4"),
        (94, "2"),
        (73, "1"),
        (74, "0"),
        (95, "6"),
        (96, "3"),
        (40, "0"),
        (40, "0"),
        (40, "0"),
        (40, "1"),
        (40, "1"),
        (40, "1"),
        (10, "0"),
        (20, "4"),
        (10, "-1"),
        (20, "2"),
        (10, "0"),
        (20, "0"),
        (42, "1"),
        (42, "0.7"),
        (42, "1"),
        (97, "0"),
        (97, "0"),
        (75, "0"),
        (76, "1"),
        (98, "0"),
    ]));
    let (ps, h) = read(&text);
    assert_eq!(h.warning, None);
    assert!(!h.solid_fill);
    let [PathAt::Edges(e)] = h.paths.as_slice() else {
        panic!("{:?}", h.paths);
    };
    assert_eq!(e.len(), 4);
    let EdgeAt::Line { start, end } = e[0] else { panic!("{:?}", e[0]) };
    assert_eq!((xy(&ps, start), xy(&ps, end.unwrap())), (("0", "0"), ("4", "0")));
    let EdgeAt::Arc { center, radius, start_angle, end_angle, ccw } = e[1] else { panic!("{:?}", e[1]) };
    assert_eq!(xy(&ps, center), ("4", "2"));
    assert_eq!(
        [radius, start_angle, end_angle, ccw].map(|i| value(&ps, i.unwrap())),
        ["2", "-90", "90", "1"]
    );
    assert!((radians(&ps, start_angle) + std::f64::consts::FRAC_PI_2).abs() < 1e-15);
    assert!((radians(&ps, end_angle) - std::f64::consts::FRAC_PI_2).abs() < 1e-15);
    let EdgeAt::Ellipse { center, end, ratio, start_angle, end_angle, ccw } = e[2] else {
        panic!("{:?}", e[2])
    };
    assert_eq!((xy(&ps, center), xy(&ps, end)), (("2", "4"), ("2", "0")));
    assert_eq!(
        [ratio, start_angle, end_angle, ccw].map(|i| value(&ps, i.unwrap())),
        ["0.5", "0", "180", "0"]
    );
    assert!((radians(&ps, end_angle) - std::f64::consts::PI).abs() < 1e-15);
    let EdgeAt::Spline { control_points } = &e[3] else { panic!("{:?}", e[3]) };
    let points: Vec<_> = control_points.iter().map(|p| xy(&ps, *p)).collect();
    assert_eq!(points, [("0", "4"), ("-1", "2"), ("0", "0")]);
}

#[test]
fn pattern_lines_pair_their_base_point_and_offset_groups() {
    let text = record(&with(&[
        (70, "0"),
        (91, "0"),
        (75, "0"),
        (76, "1"),
        (52, "0"),
        (41, "1"),
        (77, "0"),
        (78, "1"),
        (53, "45"),
        (43, "1"),
        (44, "2"),
        (45, "-2.2"),
        (46, "2.2"),
        (79, "2"),
        (49, "3"),
        (49, "-1"),
        (98, "0"),
    ]));
    let (ps, h) = read(&text);
    assert_eq!(h.warning, None);
    let [line] = h.pattern_lines.as_slice() else {
        panic!("{:?}", h.pattern_lines);
    };
    assert_eq!(value(&ps, line.angle), "45");
    assert_eq!(xy(&ps, line.base_point.unwrap()), ("1", "2"));
    assert_eq!(xy(&ps, line.offset.unwrap()), ("-2.2", "2.2"));
    let dashes: Vec<_> = line.dashes.iter().map(|i| value(&ps, *i)).collect();
    assert_eq!(dashes, ["3", "-1"]);
}

#[test]
fn a_gradient_carries_its_stops_in_order_and_its_name_says_radial() {
    let text = record(&with(&[
        (70, "1"),
        (91, "0"),
        (75, "0"),
        (76, "1"),
        (98, "0"),
        (450, "1"),
        (451, "0"),
        (452, "0"),
        (453, "2"),
        (463, "1"),
        (63, "5"),
        (421, "255"),
        (463, "0"),
        (63, "1"),
        (421, "16711680"),
        (460, "0.5"),
        (461, "0"),
        (462, "0"),
        (470, "SPHERICAL"),
    ]));
    let (ps, h) = read(&text);
    let g = h.gradient.expect("a gradient");
    assert_eq!(g.stops.len(), 2);
    assert_eq!((value(&ps, g.stops[0].position), g.stops[0].color), ("1", 0x0000ff));
    assert_eq!((value(&ps, g.stops[1].position), g.stops[1].color), ("0", 0xff0000));
    assert!(g.radial && !g.single);
    assert_eq!(value(&ps, g.angle.unwrap()), "0.5");
    // Ordered by position: the red stop (0) first, the blue one (1) last.
    let mut stops = g.stops.clone();
    stops.sort_by(|a, b| number(&ps, a.position).total_cmp(&number(&ps, b.position)));
    assert_eq!((stops[0].color, stops[1].color), (0xff0000, 0x0000ff));
    assert_eq!(value(&ps, g.tint.unwrap()), "0");
}

#[test]
fn a_stop_without_a_true_colour_takes_the_palettes_colour_for_its_index() {
    let text = record(&with(&[
        (70, "1"),
        (91, "0"),
        (450, "1"),
        (452, "1"),
        (463, "0"),
        (63, "1"),
        (463, "1"),
        (63, "2"),
        (463, "0.5"),
        (470, "LINEAR"),
    ]));
    let (ps, h) = read(&text);
    let g = h.gradient.expect("a gradient");
    let colours: Vec<u32> = g.stops.iter().map(|s: &StopAt| s.color).collect();
    assert_eq!(colours, [0xff0000, 0xffff00, 0]);
    assert_eq!(value(&ps, g.stops[2].position), "0.5");
    assert!(!g.radial && g.single);
    assert_eq!(g.angle, None);
}

#[test]
fn a_path_that_stops_short_of_its_count_keeps_what_was_read_and_says_so() {
    let text = record(&with(&[
        (70, "1"),
        (91, "2"),
        (92, "2"),
        (72, "0"),
        (73, "1"),
        (93, "3"),
        (10, "0"),
        (20, "0"),
        (10, "4"),
        (20, "0"),
        (97, "0"),
        (75, "0"),
    ]));
    let (_, h) = read(&text);
    assert!(h.paths.is_empty(), "{:?}", h.paths);
    let warning = h.warning.expect("a warning");
    assert!(warning.starts_with("HATCH_STRUCTURE:"), "{warning}");
    assert!(warning.ends_with("; what was read before it is kept"), "{warning}");
}

#[test]
fn the_elevation_and_extrusion_come_from_the_header_and_default_when_absent() {
    let text = record(&[
        (10, "0"),
        (20, "0"),
        (30, "2.5"),
        (210, "0"),
        (220, "0"),
        (230, "-1"),
        (2, "SOLID"),
        (70, "1"),
        (71, "0"),
        (91, "0"),
    ]);
    let (ps, h) = read(&text);
    assert_eq!(h.warning, None);
    assert_eq!(value(&ps, h.elevation.unwrap()), "2.5");
    assert_eq!(
        [h.extrusion_x, h.extrusion_y, h.extrusion_z].map(|i| value(&ps, i.unwrap())),
        ["0", "0", "-1"]
    );
    let text = record(&[(2, "SOLID"), (70, "1"), (71, "0"), (91, "0")]);
    let (_, h) = read(&text);
    assert_eq!((h.elevation, h.extrusion_x, h.extrusion_y, h.extrusion_z), (None, None, None, None));
    assert!(h.solid_fill);
}

#[test]
fn the_fill_style_after_the_paths_is_read_and_an_undefined_one_is_none() {
    let style = |code: &'static str| {
        let text = record(&[(2, "SOLID"), (70, "1"), (71, "0"), (91, "0"), (75, code), (76, "1"), (98, "0")]);
        read(&text).1.style
    };
    assert_eq!(style("0"), Some(FillStyle::Normal));
    assert_eq!(style("1"), Some(FillStyle::Outer));
    assert_eq!(style("2"), Some(FillStyle::Ignore));
    assert_eq!(style("5"), None);
}

#[test]
fn a_header_value_that_is_not_a_number_is_the_error_that_names_it() {
    let text = record(&[(30, "high"), (70, "1"), (91, "0")]);
    let ps = pairs(&text).unwrap();
    let fl = numbers(&ps);
    let err = hatch(&ps, &fl, 0, ps.len()).unwrap_err();
    assert_eq!(err, undxf::ReadError::BadNumber { line: 9, code: 30, text: "high".to_string() });
}
