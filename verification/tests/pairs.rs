use undxf::pairs::{pairs, ReadError};

#[test]
fn two_lines_are_one_pair_and_the_value_keeps_its_spaces() {
    let p = pairs("  0\nSECTION\n  1\n  hello \r\n").unwrap();
    assert_eq!(p.len(), 2);
    assert_eq!((p[0].code, p[0].value, p[0].line), (0, "SECTION", 1));
    assert_eq!((p[1].code, p[1].value, p[1].line), (1, "  hello ", 3));
}

#[test]
fn a_code_that_is_not_an_integer_and_a_missing_value_are_errors_with_lines() {
    assert_eq!(
        pairs("  0\nSECTION\nabc\nx\n").unwrap_err(),
        ReadError::BadGroupCode {
            line: 3,
            text: "abc".into()
        }
    );
    assert_eq!(
        pairs("  0\nSECTION\n  2").unwrap_err(),
        ReadError::TruncatedPair { line: 3 }
    );
}

#[test]
fn pair_j_is_on_line_2j_plus_1_and_an_end_of_file_marker_is_not_a_pair() {
    let p = pairs("  0\nSECTION\n  2\nENTITIES\n  0\nEOF\n\x1a").unwrap();
    assert_eq!(p.len(), 3);
    for (j, pair) in p.iter().enumerate() {
        assert_eq!(pair.line, 2 * j + 1);
    }
    assert_eq!(p[2].value, "EOF");
}

#[test]
fn a_group_code_outside_i32_is_not_an_integer() {
    assert_eq!(
        pairs("99999999999\nX\n").unwrap_err(),
        ReadError::BadGroupCode {
            line: 1,
            text: "99999999999".into()
        }
    );
}

#[test]
fn an_empty_last_value_is_a_value_and_only_the_last_line_end_is_dropped() {
    let p = pairs("  0\nSECTION\n  1\n\n").unwrap();
    assert_eq!(p.len(), 2);
    assert_eq!((p[1].code, p[1].value, p[1].line), (1, "", 3));
    let p = pairs("  0\nSECTION\n  1\n\r\n\x1a\x1a").unwrap();
    assert_eq!((p[1].value, p.len()), ("", 2));
    // A blank line after the last pair is no pair.
    assert_eq!(pairs("  0\nEOF\n\n").unwrap().len(), 1);
}

#[test]
fn blank_lines_after_the_last_pair_end_the_pairs() {
    let p = pairs("  0\nEOF\n\n\n").unwrap();
    assert_eq!(p.len(), 1);
    assert_eq!((p[0].code, p[0].value, p[0].line), (0, "EOF", 1));
    let p = pairs("  0\nEOF\r\n\r\n\u{1a}").unwrap();
    assert_eq!(p.len(), 1);
    assert_eq!(p[0].value, "EOF");
    // A blank line with a pair after it is a group code that is no integer.
    assert_eq!(
        pairs("  0\nEOF\n\n  0\nX\n").unwrap_err(),
        ReadError::BadGroupCode { line: 3, text: String::new() }
    );
}
