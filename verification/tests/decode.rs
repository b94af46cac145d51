use undxf::decode::{decode, encoding_for, multibyte, string};
use undxf::record::NameRef;
use undxf::resolve::resolve_name;

#[test]
fn code_page_names_map_to_their_encodings_case_insensitively() {
    assert_eq!(encoding_for("ANSI_949").map(|e| e.name()), Some("EUC-KR"));
    assert_eq!(
        encoding_for("ansi_1252").map(|e| e.name()),
        Some("windows-1252")
    );
    assert_eq!(
        encoding_for("ANSI_932").map(|e| e.name()),
        Some("Shift_JIS")
    );
    assert_eq!(encoding_for("ANSI_9999"), None);
    assert_eq!(encoding_for("UTF-8"), None);
}

#[test]
fn valid_utf8_is_taken_as_is_whatever_the_header_says() {
    let text =
        "  0\nSECTION\n  2\nHEADER\n  9\n$DWGCODEPAGE\n  3\nANSI_949\n  0\nENDSEC\n  0\nEOF\n";
    let (out, warnings) = decode(text.as_bytes());
    assert_eq!(out, text);
    assert!(warnings.is_empty());
}

#[test]
fn cp949_bytes_decode_under_a_declared_code_page_and_a_bad_byte_is_said() {
    let mut bytes = b"  0\nSECTION\n  2\nHEADER\n  9\n$ACADVER\n  1\nAC1015\n  9\n$DWGCODEPAGE\n  3\nANSI_949\n  0\nENDSEC\n  1\n".to_vec();
    bytes.extend_from_slice(b"\xB5\xB5\xB8\xE9\n"); // U+B3C4 U+BA74 in CP949
    let (out, warnings) = decode(&bytes);
    assert!(out.ends_with("\u{b3c4}\u{ba74}\n"), "{out:?}");
    assert!(warnings.is_empty());

    bytes.extend_from_slice(b"  1\n\xFF\xFF\n");
    let (out, warnings) = decode(&bytes);
    assert!(out.contains('\u{fffd}'));
    assert_eq!(warnings.len(), 1);
    assert!(warnings[0].starts_with("TEXT_ENCODING"));
}

#[test]
fn an_unknown_code_page_is_reported_not_guessed() {
    let bytes = b"  9\n$DWGCODEPAGE\n  3\nANSI_9999\n  0\nENDSEC\n  1\n\xB5\xB5\n";
    let (_, warnings) = decode(bytes);
    assert_eq!(warnings.len(), 1);
    assert!(warnings[0].starts_with("CODEPAGE_UNSUPPORTED: ANSI_9999"));
}

#[test]
fn a_unicode_escape_reads_as_the_character_in_text_and_in_names() {
    // The escape is storage; the percent code is the text's own.
    assert_eq!(string("108\\U+00B0 %%c32"), "108\u{b0} %%c32");
    // A layer's name and an entity's reference to it are undone alike, so
    // the reference still resolves.
    let declared = vec![string("\\U+0410\\U+043D")];
    assert_eq!(declared, ["\u{410}\u{43d}"]);
    assert_eq!(
        resolve_name(NameRef::Unresolved(string("\\U+0410\\U+043D")), &declared),
        NameRef::Resolved("\u{410}\u{43d}".to_string())
    );
    assert_eq!(string("plain"), "plain");
}

#[test]
fn caret_notation_reads_as_the_control_character() {
    assert_eq!(string("{\\Fgdt;j}%%v0.1^J10"), "{\\Fgdt;j}%%v0.1\n10");
}

#[test]
fn an_escape_of_an_ascii_character_is_left_as_written() {
    // Undoing `\U+005C` would make a backslash that starts an MTEXT code.
    assert_eq!(string("\\U+005CP"), "\\U+005CP");
}

#[test]
fn a_multibyte_escape_goes_through_the_code_page_it_names() {
    // \M+3 is code page 949; B5B5 is U+B3C4 there.
    assert_eq!(string("\\M+3B5B5"), "\u{b3c4}");
    assert_eq!(multibyte(949, [0xB5, 0xB5]), Some('\u{b3c4}'));
    assert_eq!(multibyte(9999, [0xB5, 0xB5]), None);
    // Two bytes that are two characters are no one character.
    assert_eq!(multibyte(1252, [0x41, 0x42]), None);
}

#[test]
fn a_code_page_the_header_declares_is_found_whatever_follows_it_in_the_file() {
    let head = "  9\n$DWGCODEPAGE\n  3\nANSI_1252\n  0\nENDSEC\n";
    let mut bytes = head.as_bytes().to_vec();
    // A comment long enough that a group code line ends at byte 65536: the
    // pair it begins is cut off where the header is looked for.
    bytes.extend_from_slice(b"999\n");
    let fill = 65532 - bytes.len() - 1;
    bytes.extend(std::iter::repeat(b'x').take(fill));
    bytes.push(b'\n');
    bytes.extend_from_slice(b"  1\n");
    assert_eq!(bytes.len(), 65536);
    bytes.extend_from_slice(b"caf\xe9\n  0\nEOF\n");
    let (text, warnings) = decode(&bytes);
    assert!(warnings.is_empty(), "{warnings:?}");
    assert!(text.ends_with("  1\ncaf\u{e9}\n  0\nEOF\n"));
}
