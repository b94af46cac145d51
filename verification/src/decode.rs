//! From the file's bytes to text: which code page the header declares, and
//! what to do with it.
//!
//! A DXF file from before R2007 stores its strings in the 8-bit code page
//! its header names (`$DWGCODEPAGE`); from R2007 on, strings are UTF-8.
//! Bytes that are valid UTF-8 are taken as UTF-8 whatever the header says
//! -- an ASCII-only file is both, and a file written by a tool that puts
//! UTF-8 text under a legacy header reads right that way. Anything else is
//! decoded through the declared code page, and what could not be decoded
//! is said in the drawing's diagnostics, never dropped in silence.

use vstd::prelude::*;
use vstd::string::StrSliceExecFns;
use vstd::utf8::{decode_utf8, encode_utf8, valid_utf8};
use encoding_rs::Encoding;
use crate::pairs::{pairs, text_pairs, views, Pair, PairView, ReadError, ReadErrorView};
use crate::text::{ascii_uppercase, concat, decimal, decimal_string, owned, str_eq, to_ascii_uppercase, trim, trimmed};

verus! {

#[verifier::external_type_specification]
#[verifier::external_body]
pub struct ExEncoding(Encoding);

/// The encoding `encoding_rs::Encoding::for_label` answers a label with.
pub uninterp spec fn label_encoding(label: Seq<u8>) -> Option<Encoding>;

/// The text and the "had errors" flag that
/// `encoding_rs::Encoding::decode_without_bom_handling` gives for an
/// encoding and bytes.
pub uninterp spec fn decoding(encoding: Encoding, bytes: Seq<u8>) -> (Seq<char>, bool);

/// The text `String::from_utf8_lossy` gives for bytes.
pub uninterp spec fn lossy(bytes: Seq<u8>) -> Seq<char>;

/// The labels this reader asks `encoding_rs` for, each of which its label
/// table lists.
pub open spec fn is_code_page_label(label: Seq<char>) -> bool {
    ||| label == "shift_jis"@
    ||| label == "gbk"@
    ||| label == "euc-kr"@
    ||| label == "big5"@
    ||| label == "windows-874"@
    ||| label == "windows-1250"@
    ||| label == "windows-1251"@
    ||| label == "windows-1252"@
    ||| label == "windows-1253"@
    ||| label == "windows-1254"@
    ||| label == "windows-1255"@
    ||| label == "windows-1256"@
    ||| label == "windows-1257"@
    ||| label == "windows-1258"@
}

/// `encoding_rs::Encoding::for_label`: the encoding a WHATWG label names.
/// Claimed: the answer is the one `label_encoding` names, and every label
/// of `is_code_page_label` is in the crate's label table, so it has an
/// answer.
#[verifier::external_body]
fn for_label(label: &str) -> (r: Option<&'static Encoding>)
    ensures
        r.is_some() == label_encoding(encode_utf8(label@)).is_some(),
        r matches Some(e) ==> *e == label_encoding(encode_utf8(label@)).unwrap(),
        is_code_page_label(label@) ==> r.is_some(),
{
    Encoding::for_label(label.as_bytes())
}

/// `encoding_rs::Encoding::decode_without_bom_handling`: the bytes decoded
/// through the encoding, malformed sequences read as U+FFFD, and whether
/// there were any. Claimed: the result is the one `decoding` names. The
/// bound on the length keeps the crate's buffer-size arithmetic, which
/// panics on overflow, within `usize`.
#[verifier::external_body]
fn decode_with(encoding: &'static Encoding, bytes: &[u8]) -> (r: (String, bool))
    requires
        bytes@.len() <= usize::MAX / 4,
    ensures
        (r.0@, r.1) == decoding(*encoding, bytes@),
{
    let (text, had_errors) = encoding.decode_without_bom_handling(bytes);
    (text.into_owned(), had_errors)
}

/// `std::str::from_utf8`: the text, when the bytes are valid UTF-8.
#[verifier::external_body]
fn from_utf8(bytes: &[u8]) -> (r: Option<&str>)
    ensures
        r.is_some() == valid_utf8(bytes@),
        r matches Some(s) ==> s@ == decode_utf8(bytes@),
{
    std::str::from_utf8(bytes).ok()
}

/// `String::from_utf8_lossy`: the bytes as UTF-8, invalid sequences as
/// U+FFFD. Claimed: the text is the one `lossy` names, and -- as its
/// documentation says -- bytes that are valid UTF-8 come back as the text
/// they encode.
#[verifier::external_body]
fn from_utf8_lossy(bytes: &[u8]) -> (r: String)
    ensures
        r@ == lossy(bytes@),
        valid_utf8(bytes@) ==> r@ == decode_utf8(bytes@),
{
    String::from_utf8_lossy(bytes).into_owned()
}

/// The version from which DXF text is UTF-8 (R2007).
pub open spec fn utf8_from() -> Seq<char> {
    "AC1021"@
}

/// How far into the file the HEADER section is looked for.
pub const HEADER_SCAN: usize = 65536;

/// `a < b` in the order `str` compares by.
pub open spec fn lex_lt(a: Seq<char>, b: Seq<char>) -> bool
    decreases a.len(),
{
    if b.len() == 0 {
        false
    } else if a.len() == 0 {
        true
    } else if a[0] != b[0] {
        (a[0] as u32) < (b[0] as u32)
    } else {
        lex_lt(a.drop_first(), b.drop_first())
    }
}

/// `a >= b`, comparing strings the way `str`'s `Ord` does.
pub fn str_ge(a: &str, b: &str) -> (r: bool)
    ensures
        r == !lex_lt(a@, b@),
{
    let n = a.unicode_len();
    let m = b.unicode_len();
    let mut i: usize = 0;
    assert(a@.skip(0) =~= a@);
    assert(b@.skip(0) =~= b@);
    while i < n && i < m
        invariant
            n == a@.len(),
            m == b@.len(),
            i <= n,
            i <= m,
            forall|j: int| 0 <= j < i ==> a@[j] == b@[j],
            lex_lt(a@, b@) == lex_lt(a@.skip(i as int), b@.skip(i as int)),
        decreases n - i,
    {
        let x = a.get_char(i);
        let y = b.get_char(i);
        if x != y {
            assert(a@.skip(i as int)[0] == x);
            assert(b@.skip(i as int)[0] == y);
            return (x as u32) >= (y as u32);
        }
        assert(a@.skip(i as int).drop_first() =~= a@.skip(i + 1));
        assert(b@.skip(i as int).drop_first() =~= b@.skip(i + 1));
        i = i + 1;
    }
    i >= m
}

/// `$ACADVER` and `$DWGCODEPAGE` as the pairs `ps[i..]` state them: the
/// value after each, trimmed, the last one before an `ENDSEC` counting.
pub open spec fn header_scan(
    ps: Seq<PairView>,
    i: nat,
    version: Option<Seq<char>>,
    codepage: Option<Seq<char>>,
) -> (Option<Seq<char>>, Option<Seq<char>>)
    decreases ps.len() - i,
{
    if i + 1 >= ps.len() {
        (version, codepage)
    } else if ps[i as int].code == 0 && ps[i as int].value == "ENDSEC"@ {
        (version, codepage)
    } else {
        let v = trimmed(ps[i + 1 as int].value);
        if ps[i as int].code == 9 && ps[i as int].value == "$ACADVER"@ {
            header_scan(ps, i + 1, Some(v), codepage)
        } else if ps[i as int].code == 9 && ps[i as int].value == "$DWGCODEPAGE"@ {
            header_scan(ps, i + 1, version, Some(v))
        } else {
            header_scan(ps, i + 1, version, codepage)
        }
    }
}

/// `b` up to and including its last line feed; nothing where it has none.
pub open spec fn upto_last_lf(b: Seq<u8>) -> Seq<u8>
    decreases b.len(),
{
    if b.len() == 0 || b.last() == 10 {
        b
    } else {
        upto_last_lf(b.drop_last())
    }
}

/// `b`, whose lines end in line feeds, without its last line.
pub open spec fn without_last_line(b: Seq<u8>) -> Seq<u8> {
    upto_last_lf(
        if b.len() > 0 && b.last() == 10 {
            b.drop_last()
        } else {
            b
        },
    )
}

/// Where the header is looked for: the whole file when it is no longer
/// than `HEADER_SCAN` bytes; else its first `HEADER_SCAN` bytes, without
/// the line they cut through.
pub open spec fn header_bytes(bytes: Seq<u8>) -> Seq<u8> {
    if bytes.len() <= HEADER_SCAN {
        bytes
    } else {
        upto_last_lf(bytes.subrange(0, HEADER_SCAN as int))
    }
}

/// The version and code page the header declares: the pairs of
/// `header_bytes`, read as lossy UTF-8, up to the HEADER's `0/ENDSEC`
/// (see `header_scan`). Where those bytes end after a group code, the pair
/// it begins is not among them: the pairs are read without that last line.
/// Neither, where the bytes do not make pairs.
pub open spec fn header_of(bytes: Seq<u8>) -> (Option<Seq<char>>, Option<Seq<char>>) {
    let head = header_bytes(bytes);
    match text_pairs(lossy(head)) {
        Ok(ps) => header_scan(ps, 0, None, None),
        Err(ReadErrorView::TruncatedPair { .. }) => match text_pairs(lossy(without_last_line(head))) {
            Ok(ps) => header_scan(ps, 0, None, None),
            Err(_) => (None, None),
        },
        Err(_) => (None, None),
    }
}

/// How many bytes of `b` come up to and including its last line feed (see
/// `upto_last_lf`).
fn upto_last_lf_len(b: &[u8]) -> (r: usize)
    ensures
        r <= b@.len(),
        b@.subrange(0, r as int) == upto_last_lf(b@),
{
    let mut k: usize = b.len();
    assert(b@.subrange(0, k as int) =~= b@);
    while k > 0 && b[k - 1] != 10
        invariant
            k <= b@.len(),
            upto_last_lf(b@) == upto_last_lf(b@.subrange(0, k as int)),
        decreases k,
    {
        assert(b@.subrange(0, k as int).drop_last() =~= b@.subrange(0, k - 1));
        k = k - 1;
    }
    k
}

/// What `header_scan` finds in the pairs of `text`; the error, where it
/// does not make pairs.
fn scan_pairs(text: &str) -> (r: Result<(Option<String>, Option<String>), ReadError>)
    ensures
        match text_pairs(text@) {
            Ok(ps) => r matches Ok(x) && (
                match x.0 {
                    Some(s) => Some(s@),
                    None => None,
                },
                match x.1 {
                    Some(s) => Some(s@),
                    None => None,
                },
            ) == header_scan(ps, 0, None, None),
            Err(e) => r matches Err(x) && x@ == e,
        },
{
    let ps = match pairs(text) {
        Ok(ps) => ps,
        Err(e) => {
            return Err(e);
        },
    };
    Ok(scan(&ps))
}

/// `$ACADVER` and `$DWGCODEPAGE` from the HEADER section, when present
/// (see `header_of`).
fn header(bytes: &[u8]) -> (r: (Option<String>, Option<String>))
    ensures
        (
            match r.0 {
                Some(s) => Some(s@),
                None => None,
            },
            match r.1 {
                Some(s) => Some(s@),
                None => None,
            },
        ) == header_of(bytes@),
{
    let head = if bytes.len() <= HEADER_SCAN {
        bytes
    } else {
        let prefix = slice_prefix(bytes, HEADER_SCAN);
        let n = upto_last_lf_len(prefix);
        slice_prefix(prefix, n)
    };
    assert(head@ == header_bytes(bytes@));
    let text = from_utf8_lossy(head);
    match scan_pairs(text.as_str()) {
        Ok(found) => found,
        Err(ReadError::TruncatedPair { .. }) => {
            let body = if head.len() > 0 && head[head.len() - 1] == 10 {
                slice_prefix(head, head.len() - 1)
            } else {
                head
            };
            let n = upto_last_lf_len(body);
            let shorter = slice_prefix(body, n);
            assert(shorter@ == without_last_line(head@));
            let text = from_utf8_lossy(shorter);
            match scan_pairs(text.as_str()) {
                Ok(found) => found,
                Err(_) => (None, None),
            }
        },
        Err(_) => (None, None),
    }
}

/// `$ACADVER` and `$DWGCODEPAGE` as the pairs `ps` state them (see
/// `header_scan`).
fn scan(ps: &Vec<Pair>) -> (r: (Option<String>, Option<String>))
    ensures
        (
            match r.0 {
                Some(s) => Some(s@),
                None => None,
            },
            match r.1 {
                Some(s) => Some(s@),
                None => None,
            },
        ) == header_scan(views(ps@), 0, None, None),
{
    let ghost pv = views(ps@);
    let mut version: Option<String> = None;
    let mut codepage: Option<String> = None;
    let mut i: usize = 0;
    while ps.len() > 0 && i < ps.len() - 1
        invariant_except_break
            pv == views(ps@),
            i <= ps.len(),
            header_scan(pv, 0, None, None) == header_scan(
                pv,
                i as nat,
                match version {
                    Some(s) => Some(s@),
                    None => None,
                },
                match codepage {
                    Some(s) => Some(s@),
                    None => None,
                },
            ),
        ensures
            header_scan(pv, 0, None, None) == (
                match version {
                    Some(s) => Some(s@),
                    None => None,
                },
                match codepage {
                    Some(s) => Some(s@),
                    None => None,
                },
            ),
        decreases ps.len() - i,
    {
        let p: Pair = ps[i];
        let v: Pair = ps[i + 1];
        assert(pv[i as int] == p@);
        assert(pv[i + 1] == v@);
        if p.code == 0 && str_eq(p.value, "ENDSEC") {
            break;
        }
        if p.code == 9 {
            if str_eq(p.value, "$ACADVER") {
                version = Some(owned(trim(v.value)));
            } else if str_eq(p.value, "$DWGCODEPAGE") {
                codepage = Some(owned(trim(v.value)));
            }
        }
        i = i + 1;
    }
    (version, codepage)
}

/// The first `n` bytes of `b`.
fn slice_prefix(b: &[u8], n: usize) -> (r: &[u8])
    requires
        n <= b@.len(),
    ensures
        r@ == b@.subrange(0, n as int),
{
    vstd::slice::slice_subrange(b, 0, n)
}

/// The code page number a `$DWGCODEPAGE` name states: what follows `ANSI_`
/// or `DOS`, in any case.
pub open spec fn page_number(name: Seq<char>) -> Option<Seq<char>> {
    let u = ascii_uppercase(name);
    if u.len() >= 5 && u.subrange(0, 5) == "ANSI_"@ {
        Some(u.skip(5))
    } else if u.len() >= 3 && u.subrange(0, 3) == "DOS"@ {
        Some(u.skip(3))
    } else {
        None
    }
}

/// The label of the encoding a code page number means: the code pages the
/// DXF reference lists.
pub open spec fn number_label(n: Seq<char>) -> Option<Seq<char>> {
    if n == "932"@ {
        Some("shift_jis"@)
    } else if n == "936"@ {
        Some("gbk"@)
    } else if n == "949"@ {
        Some("euc-kr"@)
    } else if n == "950"@ {
        Some("big5"@)
    } else if n == "874"@ {
        Some("windows-874"@)
    } else if n == "1250"@ || n == "1251"@ || n == "1252"@ || n == "1253"@ || n == "1254"@
        || n == "1255"@ || n == "1256"@ || n == "1257"@ || n == "1258"@ {
        Some("windows-"@ + n)
    } else {
        None
    }
}

/// The label of the encoding a `$DWGCODEPAGE` name means.
pub open spec fn code_page_label(name: Seq<char>) -> Option<Seq<char>> {
    match page_number(name) {
        Some(n) => number_label(n),
        None => None,
    }
}

/// The encoding a code page name means, when it means one.
pub open spec fn code_page_encoding(name: Seq<char>) -> Option<Encoding> {
    match code_page_label(name) {
        Some(l) => label_encoding(encode_utf8(l)),
        None => None,
    }
}

proof fn lemma_windows_labels(n: Seq<char>)
    requires
        n == "1250"@ || n == "1251"@ || n == "1252"@ || n == "1253"@ || n == "1254"@ || n
            == "1255"@ || n == "1256"@ || n == "1257"@ || n == "1258"@,
    ensures
        is_code_page_label("windows-"@ + n),
{
    reveal_strlit("windows-");
    reveal_strlit("1250");
    reveal_strlit("1251");
    reveal_strlit("1252");
    reveal_strlit("1253");
    reveal_strlit("1254");
    reveal_strlit("1255");
    reveal_strlit("1256");
    reveal_strlit("1257");
    reveal_strlit("1258");
    reveal_strlit("windows-1250");
    reveal_strlit("windows-1251");
    reveal_strlit("windows-1252");
    reveal_strlit("windows-1253");
    reveal_strlit("windows-1254");
    reveal_strlit("windows-1255");
    reveal_strlit("windows-1256");
    reveal_strlit("windows-1257");
    reveal_strlit("windows-1258");
    if n == "1250"@ {
        assert("windows-"@ + n =~= "windows-1250"@);
    } else if n == "1251"@ {
        assert("windows-"@ + n =~= "windows-1251"@);
    } else if n == "1252"@ {
        assert("windows-"@ + n =~= "windows-1252"@);
    } else if n == "1253"@ {
        assert("windows-"@ + n =~= "windows-1253"@);
    } else if n == "1254"@ {
        assert("windows-"@ + n =~= "windows-1254"@);
    } else if n == "1255"@ {
        assert("windows-"@ + n =~= "windows-1255"@);
    } else if n == "1256"@ {
        assert("windows-"@ + n =~= "windows-1256"@);
    } else if n == "1257"@ {
        assert("windows-"@ + n =~= "windows-1257"@);
    } else {
        assert("windows-"@ + n =~= "windows-1258"@);
    }
}

/// The encoding a `$DWGCODEPAGE` name means. The names are the `ANSI_`
/// forms the DXF reference lists; case does not matter.
pub fn encoding_for(name: &str) -> (r: Option<&'static Encoding>)
    ensures
        match code_page_encoding(name@) {
            Some(e) => r matches Some(x) && *x == e,
            None => r is None,
        },
        code_page_label(name@) is Some <==> r is Some,
{
    let upper = to_ascii_uppercase(name);
    let u = upper.as_str();
    let len = u.unicode_len();
    let number: &str = if len >= 5 && str_eq(u.substring_char(0, 5), "ANSI_") {
        u.substring_char(5, len)
    } else if len >= 3 && str_eq(u.substring_char(0, 3), "DOS") {
        u.substring_char(3, len)
    } else {
        return None;
    };
    assert(page_number(name@) == Some(number@)) by {
        assert(u@.skip(5) =~= u@.subrange(5, len as int));
        assert(u@.skip(3) =~= u@.subrange(3, len as int));
    }
    let label: String = if str_eq(number, "932") {
        owned("shift_jis")
    } else if str_eq(number, "936") {
        owned("gbk")
    } else if str_eq(number, "949") {
        owned("euc-kr")
    } else if str_eq(number, "950") {
        owned("big5")
    } else if str_eq(number, "874") {
        owned("windows-874")
    } else if str_eq(number, "1250") || str_eq(number, "1251") || str_eq(number, "1252")
        || str_eq(number, "1253") || str_eq(number, "1254") || str_eq(number, "1255")
        || str_eq(number, "1256") || str_eq(number, "1257") || str_eq(number, "1258") {
        proof {
            lemma_windows_labels(number@);
        }
        concat("windows-", number)
    } else {
        return None;
    };
    for_label(label.as_str())
}

/// What a `\M+` escape's two bytes are in code page `codepage`: the one
/// character they decode to without error, if there is one.
pub open spec fn multibyte_char(codepage: u16, bytes: Seq<u8>) -> Option<char> {
    match code_page_encoding("ANSI_"@ + decimal(codepage as nat)) {
        Some(e) => {
            let (text, had_errors) = decoding(e, bytes);
            if !had_errors && text.len() == 1 {
                Some(text[0])
            } else {
                None
            }
        },
        None => None,
    }
}

/// A `\M+` escape's two bytes in the code page it names.
pub fn multibyte(codepage: u16, bytes: [u8; 2]) -> (r: Option<char>)
    ensures
        r == multibyte_char(codepage, bytes@),
{
    let digits = decimal_string(codepage as u64);
    let name = concat("ANSI_", digits.as_str());
    let encoding = match encoding_for(name.as_str()) {
        Some(e) => e,
        None => {
            return None;
        },
    };
    let (text, had_errors) = decode_with(encoding, vstd::array::array_as_slice(&bytes));
    let t = text.as_str();
    if !had_errors && t.unicode_len() == 1 {
        Some(t.get_char(0))
    } else {
        None
    }
}

/// The text of `text` with its `\U+XXXX` and `\M+nXXXX` escapes undone, as
/// `uncad_model::text::decode_escapes` undoes them with [`multibyte`] for
/// the code pages.
pub uninterp spec fn escapes_undone(text: Seq<char>) -> Seq<char>;

/// `uncad_model::text::decode_escapes`, with [`multibyte`] reading a `\M+`
/// escape's bytes. Claimed: the text is the one `escapes_undone` names,
/// and a text without a backslash comes back as it is (its source returns
/// such a text unchanged before looking for escapes).
#[verifier::external_body]
fn decode_escapes(text: &str) -> (r: String)
    ensures
        r@ == escapes_undone(text@),
        !text@.contains('\\') ==> r@ == text@,
{
    uncad_model::text::decode_escapes(text, multibyte).into_owned()
}

/// `s` with its caret notation undone: `^` and a space is a caret, `^`
/// and a character from `@` to `_` the control character 0x40 below it,
/// and any other caret is left as written.
pub open spec fn caret_undone(s: Seq<char>) -> Seq<char>
    decreases s.len(),
{
    if s.len() == 0 {
        s
    } else if s[0] == '^' && s.len() >= 2 && s[1] == ' ' {
        seq!['^'] + caret_undone(s.skip(2))
    } else if s[0] == '^' && s.len() >= 2 && 0x40 <= (s[1] as u32) <= 0x5f {
        seq![((s[1] as u32) - 0x40) as char] + caret_undone(s.skip(2))
    } else {
        seq![s[0]] + caret_undone(s.drop_first())
    }
}

/// `uncad_model::text::decode_caret`: `text` with its caret notation
/// undone, as its documentation and source define it (see
/// `caret_undone`).
#[verifier::external_body]
fn decode_caret(text: &str) -> (r: String)
    ensures
        r@ == caret_undone(text@),
{
    uncad_model::text::decode_caret(text).into_owned()
}

/// A string value as the model carries it: the file's storage of it undone.
/// Escapes start with a backslash, so a value without one has none to undo.
pub open spec fn stored(value: Seq<char>) -> Seq<char> {
    caret_undone(
        if value.contains('\\') {
            escapes_undone(value)
        } else {
            value
        },
    )
}

proof fn lemma_no_caret(s: Seq<char>)
    requires
        !s.contains('^'),
    ensures
        caret_undone(s) == s,
    decreases s.len(),
{
    if s.len() > 0 {
        assert(s[0] != '^');
        let t = s.drop_first();
        assert(!t.contains('^')) by {
            if t.contains('^') {
                let j = choose|j: int| 0 <= j < t.len() && t[j] == '^';
                assert(s[j + 1] == '^');
            }
        }
        lemma_no_caret(t);
        assert(seq![s[0]] + t =~= s);
    }
}

/// A value with neither a backslash nor a caret is carried as written: it
/// holds no escape and no caret notation to undo.
pub proof fn a_plain_value_is_kept(value: Seq<char>)
    requires
        !value.contains('\\'),
        !value.contains('^'),
    ensures
        stored(value) == value,
{
    lemma_no_caret(value);
}

/// A string value as the model carries it: the file's storage of it undone
/// -- its `\U+` / `\M+` escapes and its caret notation. Every string this
/// crate puts into the model goes through here, names as well as text, so
/// that a name an entity refers by and the table entry it names are undone
/// alike.
pub fn string(value: &str) -> (r: String)
    ensures
        r@ == stored(value@),
{
    let escaped = decode_escapes(value);
    decode_caret(escaped.as_str())
}

/// What the decoding says when the header declares a UTF-8 version but the
/// bytes are not UTF-8.
pub open spec fn warning_utf8_declared() -> Seq<char> {
    "TEXT_ENCODING: the file declares a version whose text is UTF-8, but its bytes are not valid UTF-8; invalid sequences read as U+FFFD"@
}

/// What the decoding says when the bytes are not UTF-8 and no code page is
/// named.
pub open spec fn warning_no_code_page() -> Seq<char> {
    "TEXT_ENCODING: the file's bytes are not valid UTF-8 and its header names no code page; invalid sequences read as U+FFFD"@
}

/// What the decoding says of a code page it has no encoding for.
pub open spec fn warning_unsupported(name: Seq<char>) -> Seq<char> {
    "CODEPAGE_UNSUPPORTED: "@ + name
        + "; the file's text was read as UTF-8 and its non-ASCII strings are wrong"@
}

/// What the decoding says of bytes the code page has no character for.
pub open spec fn warning_undecodable(name: Seq<char>) -> Seq<char> {
    "TEXT_ENCODING: bytes that code page "@ + name + " has no character for read as U+FFFD"@
}

/// The text a file's bytes decode to, and the warnings the decoding raises.
pub open spec fn decoded(bytes: Seq<u8>) -> (Seq<char>, Seq<Seq<char>>) {
    if valid_utf8(bytes) {
        (decode_utf8(bytes), seq![])
    } else {
        let (version, codepage) = header_of(bytes);
        if version is Some && !lex_lt(version.unwrap(), utf8_from()) {
            (lossy(bytes), seq![warning_utf8_declared()])
        } else {
            match codepage {
                None => (lossy(bytes), seq![warning_no_code_page()]),
                Some(name) => match code_page_encoding(name) {
                    None => (lossy(bytes), seq![warning_unsupported(name)]),
                    Some(e) => {
                        let (text, had_errors) = decoding(e, bytes);
                        (
                            text,
                            if had_errors {
                                seq![warning_undecodable(name)]
                            } else {
                                seq![]
                            },
                        )
                    },
                },
            }
        }
    }
}

/// The views of a sequence of strings.
pub open spec fn string_views(v: Seq<String>) -> Seq<Seq<char>> {
    v.map_values(|s: String| s@)
}

/// The text of `bytes`, and the warnings the decoding raised (empty when
/// every byte read as the file intended).
pub fn decode(bytes: &[u8]) -> (r: (String, Vec<String>))
    requires
        valid_utf8(bytes@) || bytes@.len() <= usize::MAX / 4,
    ensures
        (r.0@, string_views(r.1@)) == decoded(bytes@),
{
    if let Some(text) = from_utf8(bytes) {
        let w: Vec<String> = Vec::new();
        assert(string_views(w@) =~= Seq::<Seq<char>>::empty());
        return (owned(text), w);
    }
    let (version, codepage) = header(bytes);
    let mut warnings: Vec<String> = Vec::new();
    let declares_utf8 = match &version {
        Some(v) => str_ge(v.as_str(), "AC1021"),
        None => false,
    };
    if declares_utf8 {
        warnings.push(owned("TEXT_ENCODING: the file declares a version whose text is UTF-8, but its bytes are not valid UTF-8; invalid sequences read as U+FFFD"));
        assert(string_views(warnings@) =~= seq![warning_utf8_declared()]);
        return (from_utf8_lossy(bytes), warnings);
    }
    let name = match codepage {
        Some(name) => name,
        None => {
            warnings.push(owned("TEXT_ENCODING: the file's bytes are not valid UTF-8 and its header names no code page; invalid sequences read as U+FFFD"));
            assert(string_views(warnings@) =~= seq![warning_no_code_page()]);
            return (from_utf8_lossy(bytes), warnings);
        },
    };
    let encoding = match encoding_for(name.as_str()) {
        Some(e) => e,
        None => {
            let mut w = concat("CODEPAGE_UNSUPPORTED: ", name.as_str());
            w.append("; the file's text was read as UTF-8 and its non-ASCII strings are wrong");
            warnings.push(w);
            assert(string_views(warnings@) =~= seq![warning_unsupported(name@)]);
            return (from_utf8_lossy(bytes), warnings);
        },
    };
    let (text, had_errors) = decode_with(encoding, bytes);
    if had_errors {
        let mut w = concat("TEXT_ENCODING: bytes that code page ", name.as_str());
        w.append(" has no character for read as U+FFFD");
        warnings.push(w);
        assert(string_views(warnings@) =~= seq![warning_undecodable(name@)]);
    } else {
        assert(string_views(warnings@) =~= Seq::<Seq<char>>::empty());
    }
    (text, warnings)
}

} // verus!
