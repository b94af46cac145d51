//! The way in: a text, or a file's bytes, to its pairs and outline. Binary
//! DXF is refused; the ASCII form is read.

use vstd::prelude::*;
use vstd::utf8::encode_utf8;
use crate::outline::{outline, outline_of, Outline, OutlineView};
use crate::pairs::{pairs, text_pairs, views, Pair, PairView, ReadError, ReadErrorView};
use crate::text::owned;

verus! {

/// The error a binary DXF is refused with.
pub open spec fn binary_error() -> ReadErrorView {
    ReadErrorView::Structure {
        line: 1,
        detail: "binary DXF is not read; this crate reads the ASCII form"@,
    }
}

/// The error a binary DXF is refused with: it names line 1.
pub fn binary() -> (r: ReadError)
    ensures
        r@ == binary_error(),
{
    ReadError::Structure {
        line: 1,
        detail: owned("binary DXF is not read; this crate reads the ASCII form"),
    }
}

/// `b` begins with `prefix`.
pub open spec fn has_prefix(b: Seq<u8>, prefix: Seq<u8>) -> bool {
    prefix.len() <= b.len() && b.subrange(0, prefix.len() as int) == prefix
}

/// `b` begins with `prefix`.
pub fn starts_with(b: &[u8], prefix: &[u8]) -> (r: bool)
    ensures
        r == has_prefix(b@, prefix@),
{
    if prefix.len() > b.len() {
        return false;
    }
    let mut i: usize = 0;
    while i < prefix.len()
        invariant
            prefix@.len() <= b@.len(),
            i <= prefix@.len(),
            forall|j: int| 0 <= j < i ==> b@[j] == prefix@[j],
        decreases prefix@.len() - i,
    {
        if b[i] != prefix[i] {
            assert(b@.subrange(0, prefix@.len() as int)[i as int] != prefix@[i as int]);
            return false;
        }
        i = i + 1;
    }
    assert(b@.subrange(0, prefix@.len() as int) =~= prefix@);
    true
}

/// The bytes a binary DXF file starts with.
pub open spec fn binary_mark() -> Seq<u8> {
    encode_utf8("AutoCAD Binary DXF"@)
}

/// The bytes are a binary DXF file.
pub fn is_binary(bytes: &[u8]) -> (r: bool)
    ensures
        r == has_prefix(bytes@, binary_mark()),
{
    starts_with(bytes, "AutoCAD Binary DXF".as_bytes())
}

/// What reading a text gives before the model is built from it: its pairs
/// and its outline, the outline's error with what was read before it -- or
/// the error that stops the reading before there are pairs.
pub open spec fn text_read(text: Seq<char>) -> Result<
    (Seq<PairView>, OutlineView, Option<ReadErrorView>),
    ReadErrorView,
> {
    if has_prefix(encode_utf8(text), binary_mark()) {
        Err(binary_error())
    } else {
        match text_pairs(text) {
            Err(e) => Err(e),
            Ok(ps) => {
                let (o, e) = outline_of(ps);
                Ok((ps, o, e))
            },
        }
    }
}

/// Reads a text to its pairs and outline (see `text_read`). A binary DXF
/// is refused at line 1; text that does not make pairs is the error that
/// names its line.
pub fn read_text(text: &str) -> (r: Result<(Vec<Pair<'_>>, Outline, Option<ReadError>), ReadError>)
    ensures
        match text_read(text@) {
            Ok((ps, o, e)) => r matches Ok(x) && views(x.0@) == ps && x.1@ == o && match x.2 {
                Some(err) => e == Some(err@),
                None => e is None,
            },
            Err(e) => r matches Err(x) && x@ == e,
        },
{
    if is_binary(text.as_bytes()) {
        return Err(binary());
    }
    let ps = match pairs(text) {
        Ok(ps) => ps,
        Err(e) => {
            return Err(e);
        },
    };
    let (o, e) = outline(&ps);
    Ok((ps, o, e))
}

} // verus!
