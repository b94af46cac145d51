use undxf::pairs::{pairs, Pair};
use undxf::record::NameRef;
use undxf::style::{
    dim_style, dimunit, layout, layout_split, since_r2000, AngularUnitFormat, DimStyleAt,
    FractionFormat, LinearUnitFormat, PaperUnits, PlotRotation, XyAt,
};
use undxf::ReadError;

const PLAIN: &str = "100\nAcDbSymbolTableRecord\n100\nAcDbDimStyleTableRecord\n  2\nPLAIN\n 70\n0\n";
const FULL: &str = "100\nAcDbSymbolTableRecord\n100\nAcDbDimStyleTableRecord\n  2\nFULL\n 70\n0\n  3\n<>mm\n 40\n2\n 41\n2.5\n 45\n0.5\n 47\n0.1\n 48\n0.2\n 71\n1\n 72\n1\n 78\n8\n140\n2.5\n144\n25.4\n179\n1\n271\n2\n272\n3\n275\n1\n276\n2\n277\n4\n";

fn numbers(ps: &[Pair<'_>]) -> Vec<Option<bool>> {
    ps.iter().map(|p| p.value.trim().parse::<f64>().ok().map(|v| v != 0.0)).collect()
}

fn style(text: &str, r2000: bool) -> (Vec<Pair<'_>>, DimStyleAt) {
    let ps = pairs(text).unwrap();
    let fl = numbers(&ps);
    let s = dim_style("S".to_string(), &ps, &fl, 0, ps.len(), r2000).unwrap();
    (ps, s)
}

fn at<'a>(ps: &[Pair<'a>], i: Option<usize>) -> Option<&'a str> {
    i.map(|i| ps[i].value)
}

#[test]
fn an_unwritten_variable_is_its_starting_value_where_every_template_shares_it() {
    let (_, s) = style(PLAIN, true);
    assert_eq!(s.name, "S");
    assert_eq!(s.post, "");
    assert_eq!((s.scale, s.length_factor, s.tolerance_upper, s.tolerance_lower, s.rounding), (None, None, None, None, None));
    assert!(!s.tolerances && !s.limits);
    assert_eq!(s.linear_unit_format, Some(LinearUnitFormat::Decimal));
    assert_eq!(s.angular_unit_format, Some(AngularUnitFormat::DecimalDegrees));
    assert_eq!(s.angular_decimal_places, Some(0));
    assert_eq!(s.fraction_format, Some(FractionFormat::Horizontal));
    assert_eq!((s.text_height, s.arrow_size), (None, None));
    assert_eq!((s.decimal_places, s.tolerance_decimal_places, s.zero_suppression), (None, None, None));
}

#[test]
fn a_written_variable_is_read_as_the_file_states_it() {
    let (ps, s) = style(FULL, true);
    assert_eq!(s.post, "<>mm");
    assert_eq!(at(&ps, s.scale), Some("2"));
    assert_eq!(at(&ps, s.length_factor), Some("25.4"));
    assert!(s.tolerances && s.limits);
    assert_eq!((at(&ps, s.tolerance_upper), at(&ps, s.tolerance_lower)), (Some("0.1"), Some("0.2")));
    assert_eq!(at(&ps, s.rounding), Some("0.5"));
    assert_eq!(s.linear_unit_format, Some(LinearUnitFormat::Architectural));
    assert_eq!(s.angular_unit_format, Some(AngularUnitFormat::DegreesMinutesSeconds));
    assert_eq!(s.angular_decimal_places, Some(1));
    assert_eq!(s.fraction_format, Some(FractionFormat::NotStacked));
    assert_eq!((at(&ps, s.text_height), at(&ps, s.arrow_size)), (Some("2.5"), Some("2.5")));
    assert_eq!((s.decimal_places, s.tolerance_decimal_places, s.zero_suppression), (Some(2), Some(3), Some(8)));
}

#[test]
fn a_variable_that_came_with_r2000_is_not_stated_by_an_earlier_file() {
    let (_, s) = style(PLAIN, false);
    assert_eq!((s.linear_unit_format, s.fraction_format, s.angular_decimal_places), (None, None, None));
    assert_eq!(s.angular_unit_format, Some(AngularUnitFormat::DecimalDegrees));
    assert_eq!(since_r2000(None, 2, false), None);
    assert_eq!(since_r2000(None, 2, true), Some(2));
    assert_eq!(since_r2000(Some(5), 2, false), Some(5));
}

#[test]
fn before_r2000_one_variable_says_both_formats() {
    let with = |value: &str| format!("{PLAIN}270\n{value}\n");
    let six = with("6");
    let (_, s) = style(&six, false);
    assert_eq!((s.linear_unit_format, s.fraction_format), (Some(LinearUnitFormat::Architectural), Some(FractionFormat::NotStacked)));
    let four = with("4");
    let (_, s) = style(&four, false);
    assert_eq!((s.linear_unit_format, s.fraction_format), (Some(LinearUnitFormat::Architectural), None));
    let (_, s) = style(&six, true);
    assert_eq!(s.linear_unit_format, Some(LinearUnitFormat::Decimal));
    assert_eq!(dimunit(7), (Some(LinearUnitFormat::Fractional), Some(FractionFormat::NotStacked)));
    assert_eq!(dimunit(8), (Some(LinearUnitFormat::WindowsDesktop), None));
    assert_eq!(dimunit(9), (None, None));
}

#[test]
fn a_style_value_that_is_not_a_number_is_the_error_that_names_it() {
    let text = format!("{PLAIN} 40\nbig\n 41\nbigger\n");
    let ps = pairs(&text).unwrap();
    let fl = numbers(&ps);
    assert_eq!(
        dim_style("S".to_string(), &ps, &fl, 0, ps.len(), true).unwrap_err(),
        ReadError::BadNumber { line: 9, code: 40, text: "big".to_string() }
    );
}

const LAYOUT: &str = "  5\n1E\n100\nAcDbPlotSettings\n  1\nSetup\n  4\nA4\n 40\n5\n 41\n6\n 42\n7\n 43\n8\n 44\n297\n 45\n210\n 46\n1\n 47\n2\n 72\n1\n 73\n1\n142\n1\n143\n50\n100\nAcDbLayout\n  1\nSheet 1\n 71\n2\n 10\n0\n 20\n0\n 11\n420\n 21\n297\n330\n1f\n";

#[test]
fn a_layout_reads_each_value_from_its_own_part() {
    let ps = pairs(LAYOUT).unwrap();
    let fl = numbers(&ps);
    assert_eq!(layout_split(&ps, 0, ps.len()), 16);
    let l = layout(&ps, &fl, 0, ps.len()).unwrap().unwrap();
    assert_eq!(l.name, "Sheet 1");
    assert_eq!(l.tab_order, 2);
    assert_eq!(l.block, NameRef::Unresolved("1F".to_string()));
    assert_eq!((l.limits_min, l.limits_max), (XyAt { x: Some(19), y: Some(20) }, XyAt { x: Some(21), y: Some(22) }));
    assert_eq!(l.paper_name, "A4");
    assert_eq!((at(&ps, l.paper_width), at(&ps, l.paper_height)), (Some("297"), Some("210")));
    assert_eq!(
        [l.margin_left, l.margin_bottom, l.margin_right, l.margin_top].map(|i| at(&ps, i)),
        [Some("5"), Some("6"), Some("7"), Some("8")]
    );
    assert_eq!(l.plot_origin, XyAt { x: Some(10), y: Some(11) });
    assert_eq!((l.paper_units, l.rotation), (Some(PaperUnits::Millimeters), Some(PlotRotation::Counterclockwise90)));
    assert_eq!((at(&ps, l.scale_numerator), at(&ps, l.scale_denominator)), (Some("1"), Some("50")));
}

#[test]
fn a_layout_without_a_name_of_its_own_is_not_read() {
    let text = LAYOUT.replace("  1\nSheet 1\n", "");
    let ps = pairs(&text).unwrap();
    let fl = numbers(&ps);
    assert_eq!(layout(&ps, &fl, 0, ps.len()).unwrap(), None);
    let text = LAYOUT.replace("330\n1f\n", "330\n0\n").replace(" 71\n2\n", "");
    let ps = pairs(&text).unwrap();
    let fl = numbers(&ps);
    let l = layout(&ps, &fl, 0, ps.len()).unwrap().unwrap();
    assert_eq!((l.block, l.tab_order), (NameRef::Absent, 0));
}
