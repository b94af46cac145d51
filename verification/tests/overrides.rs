use undxf::overrides::{style_overrides, OverrideAt};
use undxf::pairs::{pairs, Pair};
use undxf::ReadError;

const DIMENSION: &str = "  5\n2A\n  8\n0\n  2\n*D1\n 10\n0\n 20\n0\n 30\n0\n 11\n5\n 21\n1\n 31\n0\n 70\n0\n  3\nSTANDARD\n 13\n0\n 23\n0\n 33\n0\n 14\n10\n 24\n0\n 34\n0\n";

fn numbers(ps: &[Pair<'_>]) -> Vec<Option<bool>> {
    ps.iter().map(|p| p.value.trim().parse::<f64>().ok().map(|v| v != 0.0)).collect()
}

fn read(text: &str) -> Result<Vec<(u16, OverrideAt)>, ReadError> {
    let ps = pairs(text).unwrap();
    style_overrides(&ps, &numbers(&ps), 0, ps.len())
}

#[test]
fn every_kind_of_value_is_read_in_file_order() {
    let eed = "1001\nACAD\n1000\nDSTYLE\n1002\n{\n1070\n41\n1040\n0.24\n1070\n271\n1070\n0\n1070\n3\n1000\n<> mm\n1070\n341\n1005\n77A\n1002\n}\n";
    let text = format!("{DIMENSION}{eed}");
    let ps = pairs(&text).unwrap();
    let got = style_overrides(&ps, &numbers(&ps), 0, ps.len()).unwrap();
    assert_eq!(got.len(), 4);
    let OverrideAt::Real(i) = got[0].1 else { panic!("{:?}", got[0]) };
    assert_eq!((got[0].0, ps[i].value.parse::<f64>().unwrap()), (41, 0.24));
    assert_eq!(
        got[1..],
        [
            (271, OverrideAt::Integer(0)),
            (3, OverrideAt::Text("<> mm".to_string())),
            (341, OverrideAt::Handle("77A".to_string())),
        ]
    );
}

#[test]
fn no_list_is_an_empty_list_and_other_applications_are_not_read() {
    let other = "1001\nOTHERAPP\n1000\nDSTYLE\n1002\n{\n1070\n41\n1040\n9\n1002\n}\n";
    assert_eq!(read(DIMENSION).unwrap(), []);
    assert_eq!(read(&format!("{DIMENSION}{other}")).unwrap(), []);
    // A list under ACAD after another application's data is read.
    let acad = "1001\nACAD\n1000\nDSTYLE\n1002\n{\n1070\n271\n1071\n3\n1002\n}\n";
    assert_eq!(read(&format!("{DIMENSION}{other}{acad}")).unwrap(), [(271, OverrideAt::Integer(3))]);
}

#[test]
fn a_variable_without_a_value_of_its_kinds_is_passed_over_and_the_list_ends_at_its_brace() {
    let eed = "1001\nACAD\n1000\nDSTYLE\n1002\n{\n1070\n40\n1010\n1\n1070\n178\n1070\n2\n1002\n}\n1070\n41\n1070\n5\n";
    assert_eq!(read(&format!("{DIMENSION}{eed}")).unwrap(), [(178, OverrideAt::Integer(2))]);
}

#[test]
fn a_variable_or_a_value_that_is_not_a_number_is_the_error_that_names_it() {
    let eed = "1001\nACAD\n1000\nDSTYLE\n1002\n{\n1070\n41\n1040\nbig\n1002\n}\n";
    let text = format!("{DIMENSION}{eed}");
    let line = 2 * pairs(&text).unwrap().iter().position(|p| p.value == "big").unwrap() + 1;
    assert_eq!(read(&text).unwrap_err(), ReadError::BadNumber { line, code: 1040, text: "big".to_string() });
    let eed = "1001\nACAD\n1000\nDSTYLE\n1002\n{\n1070\n-1\n1070\n0\n1002\n}\n";
    assert!(matches!(read(&format!("{DIMENSION}{eed}")), Err(ReadError::BadNumber { code: 1070, .. })));
}
