//! The DXF text as a sequence of (group code, value) pairs: every two lines
//! of an ASCII DXF file are one pair, the first a small integer and the
//! second its value.

use vstd::prelude::*;
use vstd::string::StringSliceAdditionalSpecFns;
use vstd::utf8::{
    decode_utf8, encode_utf8, encode_utf8_decode_utf8, encode_utf8_valid_utf8, is_char_boundary,
    is_char_boundary_iff_not_is_continuation_byte, is_char_boundary_start_end_of_seq,
};
use crate::number::{int_in_range, parse_int};
use crate::text::{owned, trim, trimmed};

verus! {

/// One group code and its value, with the line the code was read on.
#[derive(Debug, Clone, Copy, PartialEq, Eq)]
pub struct Pair<'a> {
    pub code: i32,
    pub value: &'a str,
    /// 1-based line of the code, for error messages.
    pub line: usize,
}

/// Why a file could not be read. Every variant names the line.
#[derive(Debug, Clone, PartialEq, Eq)]
#[non_exhaustive]
pub enum ReadError {
    /// A group code line that is not an integer.
    BadGroupCode { line: usize, text: String },
    /// The text ends after a group code, before its value.
    TruncatedPair { line: usize },
    /// A value that must be a number is not one.
    BadNumber { line: usize, code: i32, text: String },
    /// The pairs do not form the sections and records a DXF file has.
    Structure { line: usize, detail: String },
}

/// A pair as the contracts speak of it.
pub struct PairView {
    pub code: i32,
    pub value: Seq<char>,
    pub line: nat,
}

/// A read error as the contracts speak of it.
pub enum ReadErrorView {
    BadGroupCode { line: nat, text: Seq<char> },
    TruncatedPair { line: nat },
    BadNumber { line: nat, code: i32, text: Seq<char> },
    Structure { line: nat, detail: Seq<char> },
}

impl<'a> View for Pair<'a> {
    type V = PairView;

    open spec fn view(&self) -> PairView {
        PairView { code: self.code, value: self.value@, line: self.line as nat }
    }
}

impl View for ReadError {
    type V = ReadErrorView;

    open spec fn view(&self) -> ReadErrorView {
        match self {
            ReadError::BadGroupCode { line, text } => ReadErrorView::BadGroupCode {
                line: *line as nat,
                text: text@,
            },
            ReadError::TruncatedPair { line } => ReadErrorView::TruncatedPair { line: *line as nat },
            ReadError::BadNumber { line, code, text } => ReadErrorView::BadNumber {
                line: *line as nat,
                code: *code,
                text: text@,
            },
            ReadError::Structure { line, detail } => ReadErrorView::Structure {
                line: *line as nat,
                detail: detail@,
            },
        }
    }
}

/// The views of a sequence of pairs.
pub open spec fn views(ps: Seq<Pair>) -> Seq<PairView> {
    ps.map_values(|p: Pair| p@)
}

/// `b` split at every line feed, as `str::split('\n')` splits: one more
/// line than there are line feeds, an empty one where two meet or at an
/// end.
pub open spec fn lines(b: Seq<u8>) -> Seq<Seq<u8>>
    decreases b.len(),
{
    if b.len() == 0 {
        seq![Seq::empty()]
    } else {
        let rest = lines(b.drop_first());
        if b[0] == 10 {
            seq![Seq::<u8>::empty()] + rest
        } else {
            rest.update(0, seq![b[0]] + rest[0])
        }
    }
}

/// `b` without the end-of-file markers (0x1A) at its end.
pub open spec fn strip_subs(b: Seq<u8>) -> Seq<u8>
    decreases b.len(),
{
    if b.len() > 0 && b.last() == 26 {
        strip_subs(b.drop_last())
    } else {
        b
    }
}

/// `b` without the end-of-file markers (0x1A) at its end, and then without
/// the line feed that ends its last line: every line before it, an empty
/// one included, is still a line of the text.
#[verifier::opaque]
pub open spec fn trim_file_end(b: Seq<u8>) -> Seq<u8> {
    let c = strip_subs(b);
    if c.len() > 0 && c.last() == 10 {
        c.drop_last()
    } else {
        c
    }
}

/// A line without the carriage return of a CR LF line end.
pub open spec fn strip_cr(b: Seq<u8>) -> Seq<u8> {
    if b.len() > 0 && b.last() == 13 {
        b.drop_last()
    } else {
        b
    }
}

/// A line made of nothing but carriage returns and end-of-file markers
/// (0x1A): what is left of the line ends at the end of a file.
pub open spec fn ends_only(l: Seq<u8>) -> bool {
    forall|j: int| 0 <= j < l.len() ==> l[j] == 13 || l[j] == 26
}

/// Lines `k..` are nothing but line ends.
pub open spec fn only_line_ends(ls: Seq<Seq<u8>>, k: nat) -> bool {
    forall|j: int| k <= j < ls.len() ==> #[trigger] ends_only(ls[j])
}

/// The pairs that lines `i..` make: line `i` a group code, trimmed and read
/// as an `i32`, line `i + 1` its value. A blank code line with nothing but
/// line ends after it ends the pairs; a code line that is not an integer,
/// or a code line with no value after it, is the error that names it.
pub open spec fn pairs_from(ls: Seq<Seq<u8>>, i: nat) -> Result<Seq<PairView>, ReadErrorView>
    decreases ls.len() - i,
{
    if i >= ls.len() {
        Ok(seq![])
    } else {
        let code_text = trimmed(decode_utf8(ls[i as int]));
        if code_text.len() == 0 && only_line_ends(ls, i + 1) {
            Ok(seq![])
        } else {
            match int_in_range(encode_utf8(code_text), i32::MIN as int, i32::MAX as int) {
                None => Err(ReadErrorView::BadGroupCode { line: i + 1, text: code_text }),
                Some(code) => if i + 1 >= ls.len() {
                    Err(ReadErrorView::TruncatedPair { line: i + 1 })
                } else {
                    let pair = PairView {
                        code: code as i32,
                        value: decode_utf8(strip_cr(ls[i + 1 as int])),
                        line: i + 1,
                    };
                    match pairs_from(ls, i + 2) {
                        Ok(rest) => Ok(seq![pair] + rest),
                        Err(e) => Err(e),
                    }
                },
            }
        }
    }
}

/// Every pair of `text`, in order.
pub open spec fn text_pairs(text: Seq<char>) -> Result<Seq<PairView>, ReadErrorView> {
    pairs_from(lines(trim_file_end(encode_utf8(text))), 0)
}

proof fn lemma_lines_no_newline(a: Seq<u8>)
    requires
        forall|j: int| 0 <= j < a.len() ==> a[j] != 10,
    ensures
        lines(a) == seq![a],
    decreases a.len(),
{
    if a.len() > 0 {
        lemma_lines_no_newline(a.drop_first());
        assert(seq![a[0]] + a.drop_first() =~= a);
        assert(lines(a) =~= seq![a]);
    } else {
        assert(a =~= Seq::<u8>::empty());
    }
}

proof fn lemma_lines_split(a: Seq<u8>, t: Seq<u8>)
    requires
        forall|j: int| 0 <= j < a.len() ==> a[j] != 10,
    ensures
        lines(a + seq![10u8] + t) == seq![a] + lines(t),
    decreases a.len(),
{
    let b = a + seq![10u8] + t;
    if a.len() == 0 {
        assert(b.drop_first() =~= t);
        assert(a =~= Seq::<u8>::empty());
    } else {
        lemma_lines_split(a.drop_first(), t);
        assert(b.drop_first() =~= a.drop_first() + seq![10u8] + t);
        assert(seq![a[0]] + a.drop_first() =~= a);
        assert(lines(b) =~= seq![a] + lines(t));
    }
}

/// The lines of `t` are nothing but line ends exactly where its bytes are
/// nothing but line feeds, carriage returns and end-of-file markers.
proof fn lemma_lines_ends(t: Seq<u8>)
    ensures
        (forall|j: int| 0 <= j < t.len() ==> t[j] == 10 || t[j] == 13 || t[j] == 26)
            <==> only_line_ends(lines(t), 0),
    decreases t.len(),
{
    if t.len() > 0 {
        let rest = t.drop_first();
        lemma_lines_ends(rest);
        lemma_lines_len(rest);
        let r = lines(rest);
        if t[0] == 10 {
            assert(lines(t) =~= seq![Seq::<u8>::empty()] + r);
            if only_line_ends(lines(t), 0) {
                assert forall|j: int| 0 <= j < r.len() implies #[trigger] ends_only(r[j]) by {
                    assert(lines(t)[j + 1] == r[j]);
                }
            }
            if only_line_ends(r, 0) {
                assert forall|j: int| 0 <= j < lines(t).len() implies #[trigger] ends_only(
                    lines(t)[j],
                ) by {
                    if j > 0 {
                        assert(lines(t)[j] == r[j - 1]);
                    }
                }
            }
            if forall|j: int| 0 <= j < rest.len() ==> rest[j] == 10 || rest[j] == 13 || rest[j] == 26 {
                assert forall|j: int| 0 <= j < t.len() implies t[j] == 10 || t[j] == 13 || t[j]
                    == 26 by {
                    if j > 0 {
                        assert(t[j] == rest[j - 1]);
                    }
                }
            }
        } else {
            let first = seq![t[0]] + r[0];
            assert(lines(t) == r.update(0, first));
            if forall|j: int| 0 <= j < t.len() ==> t[j] == 10 || t[j] == 13 || t[j] == 26 {
                assert forall|j: int| 0 <= j < rest.len() implies rest[j] == 10 || rest[j] == 13
                    || rest[j] == 26 by {
                    assert(rest[j] == t[j + 1]);
                }
                assert(ends_only(r[0]));
                assert forall|j: int| 0 <= j < lines(t).len() implies #[trigger] ends_only(
                    lines(t)[j],
                ) by {
                    if j == 0 {
                        assert forall|m: int| 0 <= m < first.len() implies first[m] == 13
                            || first[m] == 26 by {
                            if m > 0 {
                                assert(first[m] == r[0][m - 1]);
                            }
                        }
                    } else {
                        assert(lines(t)[j] == r[j]);
                    }
                }
            }
            if only_line_ends(lines(t), 0) {
                assert(ends_only(lines(t)[0]));
                assert(first[0] == t[0]);
                assert forall|j: int| 0 <= j < r.len() implies #[trigger] ends_only(r[j]) by {
                    if j == 0 {
                        assert forall|m: int| 0 <= m < r[0].len() implies r[0][m] == 13
                            || r[0][m] == 26 by {
                            assert(first[m + 1] == r[0][m]);
                        }
                    } else {
                        assert(lines(t)[j] == r[j]);
                    }
                }
                assert forall|j: int| 0 <= j < t.len() implies t[j] == 10 || t[j] == 13 || t[j]
                    == 26 by {
                    if j > 0 {
                        assert(t[j] == rest[j - 1]);
                    }
                }
            }
        }
    } else {
        assert(lines(t) =~= seq![Seq::<u8>::empty()]);
        assert(ends_only(lines(t)[0]));
    }
}

/// Whether `s` is nothing but line feeds, carriage returns and end-of-file
/// markers.
fn all_line_ends(s: &str) -> (r: bool)
    ensures
        r <==> only_line_ends(lines(s.spec_bytes()), 0),
{
    let b = s.as_bytes();
    proof {
        lemma_lines_ends(b@);
    }
    let mut i: usize = 0;
    while i < b.len()
        invariant
            b@ == s.spec_bytes(),
            i <= b.len(),
            forall|j: int| 0 <= j < i ==> b@[j] == 10 || b@[j] == 13 || b@[j] == 26,
        decreases b.len() - i,
    {
        if b[i] != 10 && b[i] != 13 && b[i] != 26 {
            proof {
                lemma_lines_ends(b@);
                assert(!(b@[i as int] == 10 || b@[i as int] == 13 || b@[i as int] == 26));
            }
            return false;
        }
        i = i + 1;
    }
    proof {
        lemma_lines_ends(b@);
    }
    true
}

proof fn lemma_lines_len(b: Seq<u8>)
    ensures
        lines(b).len() >= 1,
    decreases b.len(),
{
    if b.len() > 0 {
        lemma_lines_len(b.drop_first());
    }
}

/// A byte below 0x80 in a string's encoding starts a character.
proof fn lemma_ascii_boundary(s: Seq<char>, i: int)
    requires
        0 <= i < encode_utf8(s).len(),
        encode_utf8(s)[i] < 0x80,
    ensures
        is_char_boundary(encode_utf8(s), i),
{
    encode_utf8_valid_utf8(s);
    is_char_boundary_iff_not_is_continuation_byte(encode_utf8(s), i);
}

/// Splits `s` at byte `i`, where an ASCII byte stands.
fn split_at_ascii<'a>(s: &'a str, i: usize) -> (r: (&'a str, &'a str))
    requires
        i < s.spec_bytes().len(),
        s.spec_bytes()[i as int] < 0x80,
    ensures
        r.0.spec_bytes() == s.spec_bytes().subrange(0, i as int),
        r.1.spec_bytes() == s.spec_bytes().subrange(i as int, s.spec_bytes().len() as int),
{
    proof {
        lemma_ascii_boundary(s@, i as int);
    }
    s.split_at(i)
}

/// `s` without its first character, an ASCII one.
fn skip_ascii<'a>(s: &'a str) -> (r: &'a str)
    requires
        s.spec_bytes().len() > 0,
        s.spec_bytes()[0] < 0x80,
    ensures
        r.spec_bytes() == s.spec_bytes().drop_first(),
{
    let ghost b = s.spec_bytes();
    proof {
        encode_utf8_valid_utf8(s@);
        assert(vstd::utf8::length_of_first_scalar(b) == 1);
        assert(is_char_boundary(b.subrange(1, b.len() as int), 0));
        assert(vstd::utf8::pop_first_scalar(b) =~= b.subrange(1, b.len() as int));
        assert(is_char_boundary(b, 1));
    }
    let (_, rest) = s.split_at(1);
    assert(rest.spec_bytes() =~= b.drop_first());
    rest
}

/// The first line of `s`, and what follows its line feed when it has one.
fn split_line<'a>(s: &'a str) -> (r: (&'a str, Option<&'a str>))
    ensures
        forall|j: int| 0 <= j < r.0.spec_bytes().len() ==> r.0.spec_bytes()[j] != 10,
        match r.1 {
            Some(t) => s.spec_bytes() == r.0.spec_bytes() + seq![10u8] + t.spec_bytes(),
            None => s.spec_bytes() == r.0.spec_bytes(),
        },
        lines(s.spec_bytes()) == seq![r.0.spec_bytes()] + match r.1 {
            Some(t) => lines(t.spec_bytes()),
            None => Seq::empty(),
        },
{
    let b = s.as_bytes();
    let mut i: usize = 0;
    while i < b.len()
        invariant
            b@ == s.spec_bytes(),
            i <= b.len(),
            forall|j: int| 0 <= j < i ==> b@[j] != 10,
        decreases b.len() - i,
    {
        if b[i] == 10 {
            let (line, tail) = split_at_ascii(s, i);
            let after = skip_ascii(tail);
            proof {
                assert(b@ =~= line.spec_bytes() + seq![10u8] + after.spec_bytes());
                lemma_lines_split(line.spec_bytes(), after.spec_bytes());
            }
            return (line, Some(after));
        }
        i = i + 1;
    }
    proof {
        lemma_lines_no_newline(b@);
        assert(seq![b@] + Seq::<Seq<u8>>::empty() =~= seq![b@]);
    }
    (s, None)
}

/// `s` without a carriage return at its end.
fn without_cr<'a>(s: &'a str) -> (r: &'a str)
    ensures
        r.spec_bytes() == strip_cr(s.spec_bytes()),
{
    let b = s.as_bytes();
    if b.len() > 0 && b[b.len() - 1] == 13 {
        let (head, _) = split_at_ascii(s, b.len() - 1);
        assert(head.spec_bytes() =~= b@.drop_last());
        head
    } else {
        s
    }
}

/// `s` without the end-of-file markers at its end and the line feed that
/// ends its last line.
fn without_file_end<'a>(s: &'a str) -> (r: &'a str)
    ensures
        r.spec_bytes() == trim_file_end(s.spec_bytes()),
{
    reveal(trim_file_end);
    let b = s.as_bytes();
    let mut k: usize = b.len();
    assert(b@.subrange(0, k as int) =~= b@);
    while k > 0 && b[k - 1] == 26
        invariant
            b@ == s.spec_bytes(),
            k <= b.len(),
            strip_subs(b@) == strip_subs(b@.subrange(0, k as int)),
            k < b.len() ==> b@[k as int] == 26,
        decreases k,
    {
        assert(b@.subrange(0, k as int).drop_last() =~= b@.subrange(0, k - 1));
        k = k - 1;
    }
    assert(strip_subs(b@.subrange(0, k as int)) == b@.subrange(0, k as int));
    if k > 0 && b[k - 1] == 10 {
        assert(b@.subrange(0, k as int).drop_last() =~= b@.subrange(0, k - 1));
        k = k - 1;
    }
    assert(k < b.len() ==> b@[k as int] < 0x80);
    if k == b.len() {
        assert(b@.subrange(0, k as int) =~= b@);
        s
    } else {
        let (head, _) = split_at_ascii(s, k);
        head
    }
}

/// Every pair of the text, in order. A value keeps its bytes as written
/// except for the line ending; a group code line is trimmed.
pub fn pairs(text: &str) -> (r: Result<Vec<Pair<'_>>, ReadError>)
    ensures
        match text_pairs(text@) {
            Ok(ps) => r matches Ok(v) && views(v@) == ps,
            Err(e) => r matches Err(err) && err@ == e,
        },
{
    // A DOS-era file ends with a SUB (0x1A) end-of-file marker after its
    // last line; it is not a group code, and neither is the line end after
    // the last line.
    let body = without_file_end(text);
    let total = body.as_bytes().len();
    let ghost bytes = body.spec_bytes();
    let ghost ls = lines(bytes);
    proof {
        lemma_lines_len(bytes);
    }
    let mut out: Vec<Pair> = Vec::new();
    let mut rest: &str = body;
    let mut k: usize = 0;
    let ghost mut pos: int = 0;
    loop
        invariant_except_break
            bytes == body.spec_bytes(),
            bytes == trim_file_end(encode_utf8(text@)),
            bytes.len() == total,
            ls == lines(bytes),
            k <= pos <= bytes.len(),
            k < ls.len(),
            rest.spec_bytes() == bytes.subrange(pos, bytes.len() as int),
            lines(rest.spec_bytes()) == ls.subrange(k as int, ls.len() as int),
            pairs_from(ls, 0) == match pairs_from(ls, k as nat) {
                Ok(tail) => Ok(views(out@) + tail),
                Err(e) => Err(e),
            },
        ensures
            pairs_from(ls, 0) == Ok::<Seq<PairView>, ReadErrorView>(views(out@)),
        decreases bytes.len() - pos,
    {
        let (code_line, after) = split_line(rest);
        let code_text = trim(code_line);
        let ghost sk = ls.subrange(k as int, ls.len() as int);
        proof {
            encode_utf8_decode_utf8(code_line@);
            encode_utf8_decode_utf8(code_text@);
            assert(sk[0] == ls[k as int]);
            assert(code_text@ == trimmed(decode_utf8(ls[k as int])));
            match after {
                Some(t) => {
                    lemma_lines_len(t.spec_bytes());
                    assert(k + 1 < ls.len()) by {
                        assert(sk.len() >= 2);
                    }
                },
                None => {
                    assert(k + 1 == ls.len()) by {
                        assert(sk.len() == 1);
                    }
                },
            }
        }
        let ends_here = code_text.is_empty() && match after {
            None => true,
            Some(t) => all_line_ends(t),
        };
        proof {
            if let Some(t) = after {
                assert(sk =~= seq![code_line.spec_bytes()] + lines(t.spec_bytes()));
                assert(sk.len() == ls.len() - k);
                assert(lines(t.spec_bytes()).len() == ls.len() - k - 1);
                assert(only_line_ends(ls, (k + 1) as nat) == only_line_ends(lines(t.spec_bytes()), 0))
                    by {
                    assert forall|j: int| k + 1 <= j < ls.len() implies ls[j] == lines(
                        t.spec_bytes(),
                    )[j - k - 1] by {
                        assert(sk.len() == ls.len() - k);
                        assert(sk[j - k] == ls[j]);
                        assert(sk[j - k] == lines(t.spec_bytes())[j - k - 1]);
                    }
                    if only_line_ends(ls, (k + 1) as nat) {
                        assert forall|m: int| 0 <= m < lines(t.spec_bytes()).len() implies
                            #[trigger] ends_only(lines(t.spec_bytes())[m]) by {
                            assert(ls[m + k + 1] == lines(t.spec_bytes())[m]);
                        }
                    }
                    if only_line_ends(lines(t.spec_bytes()), 0) {
                        assert forall|j: int| k + 1 <= j < ls.len() implies #[trigger] ends_only(
                            ls[j],
                        ) by {
                            assert(ls[j] == lines(t.spec_bytes())[j - k - 1]);
                        }
                    }
                }
            }
        }
        if ends_here {
            proof {
                assert(views(out@) + Seq::<PairView>::empty() =~= views(out@));
            }
            break;
        }
        proof {
            assert(rest.spec_bytes().len() >= 1) by {
                if after.is_none() && code_line.spec_bytes().len() == 0 {
                    assert(code_line@ =~= Seq::<char>::empty());
                    assert(code_text@ =~= Seq::<char>::empty());
                }
            }
        }
        let line = k + 1;
        let code = match parse_int(code_text.as_bytes(), i32::MIN as i64, i32::MAX as i64) {
            Some(c) => c as i32,
            None => {
                proof {
                    assert(pairs_from(ls, k as nat) == Err::<Seq<PairView>, ReadErrorView>(
                        ReadErrorView::BadGroupCode { line: (k + 1) as nat, text: code_text@ },
                    ));
                }
                return Err(ReadError::BadGroupCode { line, text: owned(code_text) });
            },
        };
        let value_rest = match after {
            Some(t) => t,
            None => {
                proof {
                    assert(pairs_from(ls, k as nat) == Err::<Seq<PairView>, ReadErrorView>(
                        ReadErrorView::TruncatedPair { line: (k + 1) as nat },
                    ));
                }
                return Err(ReadError::TruncatedPair { line });
            },
        };
        let (value_line, after2) = split_line(value_rest);
        let value = without_cr(value_line);
        let pair = Pair { code, value, line };
        proof {
            assert(sk =~= seq![code_line.spec_bytes()] + lines(value_rest.spec_bytes()));
            assert(sk[1] == ls[k + 1]);
            assert(ls[k + 1] == value_line.spec_bytes());
            encode_utf8_decode_utf8(value@);
            assert(pair@.value == decode_utf8(strip_cr(ls[k + 1])));
            assert(pairs_from(ls, k as nat) == match pairs_from(ls, (k + 2) as nat) {
                Ok(tail) => Ok(seq![pair@] + tail),
                Err(e) => Err(e),
            });
        }
        let ghost old_out = out@;
        out.push(pair);
        proof {
            assert(views(out@) =~= views(old_out) + seq![pair@]);
        }
        match after2 {
            Some(t) => {
                proof {
                    let mid = pos + code_line.spec_bytes().len() + 1;
                    assert(rest.spec_bytes().subrange(
                        code_line.spec_bytes().len() + 1 as int,
                        rest.spec_bytes().len() as int,
                    ) =~= value_rest.spec_bytes());
                    assert(value_rest.spec_bytes() =~= bytes.subrange(mid, bytes.len() as int));
                    let new_pos = mid + value_line.spec_bytes().len() + 1;
                    assert(value_rest.spec_bytes().subrange(
                        value_line.spec_bytes().len() + 1 as int,
                        value_rest.spec_bytes().len() as int,
                    ) =~= t.spec_bytes());
                    assert(t.spec_bytes() =~= bytes.subrange(new_pos, bytes.len() as int));
                    assert(sk =~= seq![code_line.spec_bytes()] + (seq![value_line.spec_bytes()]
                        + lines(t.spec_bytes())));
                    assert(sk.len() == ls.len() - k);
                    assert(lines(t.spec_bytes()).len() == ls.len() - (k + 2));
                    assert forall|j: int| 0 <= j < ls.len() - (k + 2) implies ls.subrange(
                        k + 2,
                        ls.len() as int,
                    )[j] == lines(t.spec_bytes())[j] by {
                        assert(sk[j + 2] == ls[k + 2 + j]);
                        assert(sk[j + 2] == lines(t.spec_bytes())[j]);
                    }
                    assert(ls.subrange(k + 2, ls.len() as int) =~= lines(t.spec_bytes()));
                    lemma_lines_len(t.spec_bytes());
                    pos = new_pos;
                    match pairs_from(ls, (k + 2) as nat) {
                        Ok(tail) => {
                            assert(views(old_out) + (seq![pair@] + tail) =~= views(out@) + tail);
                        },
                        Err(e) => {},
                    }
                }
                rest = t;
                k = k + 2;
            },
            None => {
                proof {
                    assert(sk =~= seq![code_line.spec_bytes()] + seq![value_line.spec_bytes()]);
                    assert(sk.len() == ls.len() - k);
                    assert(sk.len() == 2);
                    assert(k + 2 == ls.len());
                    assert(pairs_from(ls, (k + 2) as nat) == Ok::<Seq<PairView>, ReadErrorView>(
                        Seq::empty(),
                    ));
                    assert(views(old_out) + (seq![pair@] + Seq::<PairView>::empty()) =~= views(
                        out@,
                    ));
                }
                break;
            },
        }
    }
    Ok(out)
}

} // verus!
