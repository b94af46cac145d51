//! What holds of the reader as a whole: of every text, every file's bytes,
//! every reference and every dimension, not of chosen examples.

use vstd::prelude::*;
use vstd::utf8::{decode_utf8, encode_utf8, valid_utf8};
use crate::decode::{
    code_page_encoding, decoded, decoding, header_of, lex_lt, lossy, utf8_from,
    warning_unsupported,
};
use crate::entity::{
    common_head_of, dimension_kind_of, kind_of_flag_spec, CommonHeadView, DimensionKind,
    HANDLELESS_ID_BASE,
};
use crate::number::{all_digits, hex_u64, lemma_digits_value_nonneg};
use crate::record::first_index;
use crate::text::ascii_uppercase;
use crate::outline::{
    add_item, add_member, at_end, begin_group, chain_pair, close_group, emit_group,
    entities_pair, in_block_pair, lemma_step_wf, mlinestyle_record, outline_of, parent_pair,
    run, start, step, table_pair, table_record, wf, GroupView, ItemView, Member, Mode,
    ReaderView,
};
use crate::pairs::{lines, only_line_ends, pairs_from, strip_cr, text_pairs, trim_file_end, PairView, ReadErrorView};
use crate::read::{binary_error, binary_mark, has_prefix, text_read};
use crate::record::RefView;
use crate::number::int_in_range;
use crate::resolve::{resolved_in, text_style_resolved};
use crate::text::trimmed;
use crate::entity::{attachment_of, justification_of, Attachment, Horizontal, Vertical};
use crate::hatch::{edge_at, gradient_at, here, integer_of, style_at, EdgeView, FillStyle};
use crate::entity::{linetype_of, text_override_of, LineTypeView, TextOverrideView};
use crate::style::{
    paper_units_of, plot_rotation_of, PaperUnits, PlotRotation, angular_unit_of, dim_style_of, dimunit_of, fraction_of, int_value_of, linear_unit_of,
    AngularUnitFormat, FractionFormat, LinearUnitFormat,
};
use crate::decode::{label_encoding, page_number};
use crate::record::int_field;

verus! {

/// Bytes that are valid UTF-8 are taken as UTF-8, whatever the header
/// says, and the decoding has nothing to say about them.
pub proof fn valid_utf8_is_taken_as_is(bytes: Seq<u8>)
    requires
        valid_utf8(bytes),
    ensures
        decoded(bytes) == (decode_utf8(bytes), Seq::<Seq<char>>::empty()),
{
}

/// The decoding says at most one thing, and when it says nothing every
/// byte read as the file intended: the bytes were UTF-8, or the header
/// named a code page this reader knows and every byte had a character in
/// it.
pub proof fn a_silent_decoding_read_every_byte(bytes: Seq<u8>)
    ensures
        decoded(bytes).1.len() <= 1,
        decoded(bytes).1.len() == 0 ==> {
            ||| valid_utf8(bytes) && decoded(bytes).0 == decode_utf8(bytes)
            ||| match header_of(bytes).1 {
                Some(name) => match code_page_encoding(name) {
                    Some(e) => decoding(e, bytes) == (decoded(bytes).0, false),
                    None => false,
                },
                None => false,
            }
        },
{
}

/// A code page this reader does not know is reported by its name, not
/// guessed: the bytes that are not UTF-8 are read as UTF-8 anyway, with
/// the invalid sequences as U+FFFD.
pub proof fn an_unknown_code_page_is_reported_not_guessed(bytes: Seq<u8>)
    requires
        !valid_utf8(bytes),
        !(header_of(bytes).0 is Some && !lex_lt(header_of(bytes).0.unwrap(), utf8_from())),
        header_of(bytes).1 is Some,
        code_page_encoding(header_of(bytes).1.unwrap()) is None,
    ensures
        decoded(bytes) == (lossy(bytes), seq![warning_unsupported(header_of(bytes).1.unwrap())]),
{
}

/// The group code a code line reads as: its text, trimmed, as an `i32`.
pub open spec fn code_of_line(line: Seq<u8>) -> Option<int> {
    int_in_range(encode_utf8(trimmed(decode_utf8(line))), i32::MIN as int, i32::MAX as int)
}

/// What the pairs of lines `i..` are, pair by pair, and what an error
/// there names.
pub open spec fn pairs_law(ls: Seq<Seq<u8>>, i: nat, r: Result<Seq<PairView>, ReadErrorView>) -> bool {
    match r {
        Ok(ps) => {
            &&& i <= ls.len() ==> i + 2 * ps.len() <= ls.len()
            &&& i + 2 * ps.len() < ls.len() ==> {
                &&& trimmed(decode_utf8(ls[(i + 2 * ps.len()) as int])).len() == 0
                &&& only_line_ends(ls, i + 2 * ps.len() + 1)
            }
            &&& forall|j: int|
                #![trigger ps[j]]
                0 <= j < ps.len() ==> {
                    &&& ps[j].line == i + 2 * j + 1
                    &&& code_of_line(ls[i + 2 * j]) == Some(ps[j].code as int)
                    &&& ps[j].value == decode_utf8(strip_cr(ls[i + 2 * j + 1]))
                }
        },
        Err(ReadErrorView::BadGroupCode { line, text }) => {
            &&& i < line <= ls.len()
            &&& (line - i) % 2 == 1
            &&& text == trimmed(decode_utf8(ls[line - 1]))
            &&& code_of_line(ls[line - 1]) is None
            &&& !(text.len() == 0 && only_line_ends(ls, line))
        },
        Err(ReadErrorView::TruncatedPair { line }) => line == ls.len(),
        Err(_) => false,
    }
}

proof fn lemma_pairs_from_lines(ls: Seq<Seq<u8>>, i: nat)
    ensures
        pairs_law(ls, i, pairs_from(ls, i)),
    decreases ls.len() + 1 - i,
{
    if i < ls.len() {
        lemma_pairs_from_lines(ls, i + 2);
        let code_text = trimmed(decode_utf8(ls[i as int]));
        if code_text.len() == 0 && only_line_ends(ls, i + 1) {
        } else if let Some(code) = int_in_range(encode_utf8(code_text), i32::MIN as int, i32::MAX as int) {
            if i + 1 < ls.len() {
                if let Ok(ps) = pairs_from(ls, i) {
                    let rest = pairs_from(ls, i + 2)->Ok_0;
                    assert(ps =~= seq![ps[0]] + rest);
                    assert(ps.len() == rest.len() + 1);
                    assert forall|j: int| #![trigger ps[j]] 0 <= j < ps.len() implies {
                        &&& ps[j].line == i + 2 * j + 1
                        &&& code_of_line(ls[i + 2 * j]) == Some(ps[j].code as int)
                        &&& ps[j].value == decode_utf8(strip_cr(ls[i + 2 * j + 1]))
                    } by {
                        if j > 0 {
                            assert(ps[j] == rest[j - 1]);
                        }
                    }
                }
            }
        }
    }
}

/// Every two lines of the text are one pair: the lines are the text's,
/// split at line feeds, without its end-of-file markers and the line feed
/// that ends its last line. Pair `j` has its group code on line `2j + 1`,
/// read as an `i32` once trimmed, and its value on the next line as
/// written, without the carriage return of a CR LF line end; the pairs end
/// at the end of the lines or at a blank code line with nothing but line
/// ends (carriage returns, end-of-file markers) after it. A code line that
/// is no `i32`, and does not end the pairs so, is the error that names it
/// and its text; a code line with no value after it is the error that
/// names the last line.
pub proof fn every_two_lines_are_one_pair(text: Seq<char>)
    ensures
        pairs_law(lines(trim_file_end(encode_utf8(text))), 0, text_pairs(text)),
{
    lemma_pairs_from_lines(lines(trim_file_end(encode_utf8(text))), 0);
}

/// A binary DXF is refused, with an error that names line 1.
pub proof fn a_binary_file_is_refused_at_line_1(text: Seq<char>)
    requires
        has_prefix(encode_utf8(text), binary_mark()),
    ensures
        text_read(text) == Err::<(Seq<PairView>, crate::outline::OutlineView, Option<ReadErrorView>), ReadErrorView>(binary_error()),
        binary_error() matches ReadErrorView::Structure { line, .. } && line == 1,
{
}


/// The ordinals of a chain's records.
pub open spec fn member_ordinals(ms: Seq<Member>) -> Seq<u64> {
    ms.map_values(|m: Member| m.ordinal)
}

/// An entity's ordinal, then those of its chain's records.
pub open spec fn group_ordinals(g: GroupView) -> Seq<u64> {
    seq![g.ordinal] + member_ordinals(g.members)
}

/// The ordinals an item lists: an entity's and its chain's; none for the
/// other items.
pub open spec fn item_ordinals(i: ItemView) -> Seq<u64> {
    match i {
        ItemView::Entity(g) => group_ordinals(g),
        _ => Seq::empty(),
    }
}

/// The ordinals the items list, in order.
pub open spec fn ordinals(items: Seq<ItemView>) -> Seq<u64>
    decreases items.len(),
{
    if items.len() == 0 {
        Seq::empty()
    } else {
        ordinals(items.drop_last()) + item_ordinals(items.last())
    }
}

/// The numbers 1 to `n`.
pub open spec fn upto(n: nat) -> Seq<u64> {
    Seq::new(n, |i: int| (i + 1) as u64)
}

/// `o` numbers its places 1, 2, 3, ... in order.
pub open spec fn is_numbering(o: Seq<u64>) -> bool {
    forall|i: int| 0 <= i < o.len() ==> #[trigger] o[i] == i + 1
}

/// Between two pairs, every entity and chain record read so far is listed
/// once, in order: in the items, then in the entity being read.
spec fn counted(s: ReaderView) -> bool {
    match s.mode {
        Mode::GroupRecord(_) | Mode::Chain | Mode::SeqEnd => ordinals(s.out.items)
            + group_ordinals(s.group) == upto(s.ordinal as nat),
        Mode::ChainMember(_) => ordinals(s.out.items) + group_ordinals(s.group) + seq![s.ordinal]
            == upto(s.ordinal as nat),
        _ => ordinals(s.out.items) == upto(s.ordinal as nat),
    }
}

proof fn lemma_ordinals_push(items: Seq<ItemView>, item: ItemView)
    ensures
        ordinals(items.push(item)) == ordinals(items) + item_ordinals(item),
{
    assert(items.push(item).drop_last() =~= items);
}

proof fn lemma_upto_push(n: nat)
    requires
        n < u64::MAX,
    ensures
        upto(n + 1) == upto(n).push((n + 1) as u64),
{
    assert(upto(n + 1) =~= upto(n).push((n + 1) as u64));
}

proof fn lemma_add_item(s: ReaderView, item: ItemView)
    requires
        item_ordinals(item) =~= Seq::<u64>::empty(),
    ensures
        ordinals(add_item(s, item).out.items) == ordinals(s.out.items),
        add_item(s, item).mode == s.mode,
        add_item(s, item).ordinal == s.ordinal,
        add_item(s, item).group == s.group,
{
    lemma_ordinals_push(s.out.items, item);
    assert(ordinals(s.out.items) + item_ordinals(item) =~= ordinals(s.out.items));
}

/// The entity being read is listed: what was counted in the reading is now
/// counted in the items.
proof fn lemma_emit(s: ReaderView)
    requires
        ordinals(s.out.items) + group_ordinals(s.group) == upto(s.ordinal as nat),
    ensures
        ordinals(emit_group(s).out.items) == upto(emit_group(s).ordinal as nat),
{
    lemma_ordinals_push(s.out.items, ItemView::Entity(s.group));
}

proof fn lemma_begin(s: ReaderView, k: nat)
    requires
        ordinals(s.out.items) == upto(s.ordinal as nat),
        s.ordinal < u64::MAX,
    ensures
        counted(begin_group(s, k)),
{
    let t = begin_group(s, k);
    lemma_upto_push(s.ordinal as nat);
    assert(member_ordinals(t.group.members) =~= Seq::<u64>::empty());
    assert(group_ordinals(t.group) =~= seq![(s.ordinal + 1) as u64]);
    assert(upto(s.ordinal as nat) + seq![(s.ordinal + 1) as u64] =~= upto(s.ordinal as nat).push(
        (s.ordinal + 1) as u64,
    ));
}

proof fn lemma_parent(s: ReaderView, p: PairView, k: nat)
    requires
        ordinals(s.out.items) == upto(s.ordinal as nat),
        s.ordinal < u64::MAX,
    ensures
        counted(parent_pair(s, p, k)),
        counted(in_block_pair(s, p, k)),
        counted(entities_pair(s, p, k)),
{
    lemma_begin(ReaderView { in_block: true, ..s }, k);
    lemma_begin(ReaderView { in_block: false, ..s }, k);
}

proof fn lemma_chain(s: ReaderView, p: PairView, k: nat)
    requires
        ordinals(s.out.items) + group_ordinals(s.group) == upto(s.ordinal as nat),
        s.ordinal < u64::MAX,
    ensures
        counted(chain_pair(s, p, k)),
{
    lemma_upto_push(s.ordinal as nat);
    assert(upto(s.ordinal as nat) + seq![(s.ordinal + 1) as u64] =~= upto(s.ordinal as nat).push(
        (s.ordinal + 1) as u64,
    ));
    lemma_emit(s);
    lemma_parent(emit_group(s), p, k);
}

proof fn lemma_add_member(s: ReaderView, start: nat, end: nat)
    requires
        ordinals(s.out.items) + group_ordinals(s.group) + seq![s.ordinal] == upto(s.ordinal as nat),
    ensures
        ordinals(add_member(s, start, end).out.items) + group_ordinals(add_member(s, start, end).group)
            == upto(s.ordinal as nat),
        add_member(s, start, end).ordinal == s.ordinal,
{
    let t = add_member(s, start, end);
    assert(member_ordinals(t.group.members) =~= member_ordinals(s.group.members).push(s.ordinal));
    assert(group_ordinals(t.group) =~= group_ordinals(s.group) + seq![s.ordinal]);
    assert(ordinals(s.out.items) + group_ordinals(t.group) =~= ordinals(s.out.items)
        + group_ordinals(s.group) + seq![s.ordinal]);
}

proof fn lemma_table_record(s: ReaderView, kind: crate::outline::TableKind, ps: Seq<PairView>, st: nat, end: nat)
    ensures
        table_record(s, kind, ps, st, end) matches Ok(t) ==> ordinals(t.out.items) == ordinals(
            s.out.items,
        ) && t.mode == s.mode && t.ordinal == s.ordinal,
{
    if let Some(n) = crate::record::first_index(ps, st, end, 2) {
        let name = crate::decode::stored(ps[n as int].value);
        lemma_add_item(
            s,
            ItemView::DimStyle {
                name,
                start: st as usize,
                end: end as usize,
                r2000: crate::outline::is_r2000(s.version),
            },
        );
    }
}

#[verifier::rlimit(40)]
proof fn lemma_step_counted(s: ReaderView, ps: Seq<PairView>, k: nat)
    requires
        wf(s, k, ps.len()),
        k < ps.len(),
        ps.len() <= usize::MAX,
        counted(s),
        step(s, ps, k) is Ok,
    ensures
        counted(step(s, ps, k)->Ok_0),
{
    let p = ps[k as int];
    let t = step(s, ps, k)->Ok_0;
    assert(s.ordinal < u64::MAX);
    match s.mode {
        Mode::TableRecord(kind, st) => {
            if p.code == 0 {
                lemma_table_record(s, kind, ps, st as nat, k);
            }
        },
        Mode::MLineStyleRecord(st) => {
            if p.code == 0 {
                if let Some(n) = crate::record::first_index(ps, st as nat, k, 2) {
                    lemma_add_item(
                        s,
                        ItemView::MLineStyle {
                            name: crate::decode::stored(ps[n as int].value),
                            start: st,
                            end: k as usize,
                        },
                    );
                }
            }
        },
        Mode::LayoutRecord(st) => {
            if p.code == 0 {
                lemma_add_item(s, ItemView::Layout { start: st, end: k as usize });
            }
        },
        Mode::ImageDefRecord(st) => {
            if p.code == 0 {
                lemma_add_item(s, ItemView::ImageDef { start: st, end: k as usize });
            }
        },
        Mode::BlockHeader(st) => {
            if p.code == 0 {
                lemma_parent(
                    ReaderView {
                        block: crate::outline::block_name(ps, st as nat, k),
                        header: (st, k as usize),
                        ..s
                    },
                    p,
                    k,
                );
            }
        },
        Mode::InBlock => {
            lemma_parent(s, p, k);
        },
        Mode::BlockTail => {
            if p.code == 0 {
                lemma_add_item(s, ItemView::BlockEnd { name: s.block, start: s.header.0, end: s.header.1 });
            }
        },
        Mode::Entities => {
            lemma_parent(s, p, k);
        },
        Mode::GroupRecord(st) => {
            if p.code == 0 {
                let u = close_group(s, ps, k);
                assert(u.group.ordinal == s.group.ordinal && u.group.members == s.group.members);
                assert(group_ordinals(u.group) == group_ordinals(s.group));
                lemma_chain(u, p, k);
                lemma_emit(u);
                lemma_parent(emit_group(u), p, k);
            }
        },
        Mode::Chain => {
            lemma_chain(s, p, k);
        },
        Mode::ChainMember(st) => {
            if p.code == 0 {
                lemma_add_member(s, st as nat, k);
                lemma_chain(add_member(s, st as nat, k), p, k);
            }
        },
        Mode::SeqEnd => {
            if p.code == 0 {
                lemma_emit(s);
                lemma_parent(emit_group(s), p, k);
            }
        },
        _ => {},
    }
}

proof fn lemma_at_end_counted(s: ReaderView, ps: Seq<PairView>)
    requires
        counted(s),
    ensures
        ordinals(at_end(s, ps).0.items) == upto(s.ordinal as nat),
{
    let n = ps.len();
    match s.mode {
        Mode::TableRecord(kind, st) => {
            lemma_table_record(s, kind, ps, st as nat, n);
        },
        Mode::MLineStyleRecord(st) => {
            if let Some(i) = crate::record::first_index(ps, st as nat, n, 2) {
                lemma_add_item(
                    s,
                    ItemView::MLineStyle {
                        name: crate::decode::stored(ps[i as int].value),
                        start: st,
                        end: n as usize,
                    },
                );
            }
        },
        Mode::LayoutRecord(st) => {
            lemma_add_item(s, ItemView::Layout { start: st, end: n as usize });
        },
        Mode::ImageDefRecord(st) => {
            lemma_add_item(s, ItemView::ImageDef { start: st, end: n as usize });
        },
        Mode::BlockTail => {
            lemma_add_item(s, ItemView::BlockEnd { name: s.block, start: s.header.0, end: s.header.1 });
        },
        Mode::GroupRecord(_) => {
            let u = close_group(s, ps, n);
            assert(group_ordinals(u.group) == group_ordinals(s.group));
            lemma_emit(u);
        },
        Mode::Chain => {
            lemma_emit(s);
        },
        Mode::SeqEnd => {
            lemma_emit(s);
        },
        Mode::ChainMember(st) => {
            lemma_add_member(s, st as nat, n);
            lemma_emit(add_member(s, st as nat, n));
        },
        _ => {},
    }
}

proof fn lemma_counted_numbers(s: ReaderView)
    requires
        counted(s),
    ensures
        is_numbering(ordinals(s.out.items)),
{
    let o = ordinals(s.out.items);
    let u = upto(s.ordinal as nat);
    let whole = match s.mode {
        Mode::GroupRecord(_) | Mode::Chain | Mode::SeqEnd => o + group_ordinals(s.group),
        Mode::ChainMember(_) => o + group_ordinals(s.group) + seq![s.ordinal],
        _ => o,
    };
    assert(whole == u);
    assert(o.len() <= whole.len());
    assert forall|i: int| 0 <= i < o.len() implies #[trigger] o[i] == i + 1 by {
        assert(whole[i] == o[i]);
        assert(u[i] == i + 1);
    }
}

proof fn lemma_run_counted(ps: Seq<PairView>, k: nat, s: ReaderView)
    requires
        wf(s, k, ps.len()),
        ps.len() <= usize::MAX,
        counted(s),
    ensures
        is_numbering(ordinals(run(ps, k, s).0.items)),
    decreases ps.len() - k,
{
    if s.mode is Done {
        lemma_counted_numbers(s);
    } else if k >= ps.len() {
        lemma_at_end_counted(s, ps);
        assert forall|i: int| 0 <= i < upto(s.ordinal as nat).len() implies #[trigger] upto(
            s.ordinal as nat,
        )[i] == i + 1 by {}
    } else {
        match step(s, ps, k) {
            Ok(t) => {
                lemma_step_wf(s, ps, k);
                lemma_step_counted(s, ps, k);
                lemma_run_counted(ps, k + 1, t);
            },
            Err(_) => {
                lemma_counted_numbers(s);
            },
        }
    }
}

/// Every entity read is listed once, in the order read: the entities of
/// the outline, each followed by the records of its chain, are numbered
/// 1, 2, 3, ... -- none is missed between two that are listed, and none
/// is listed twice.
pub proof fn every_entity_read_is_listed_once(ps: Seq<PairView>)
    requires
        ps.len() <= usize::MAX,
    ensures
        is_numbering(ordinals(outline_of(ps).0.items)),
{
    assert(ordinals(start().out.items) =~= upto(0));
    lemma_run_counted(ps, 0, start());
}

/// An arc-length dimension is named, not flagged: an `ARC_DIMENSION` is an
/// arc-length one whatever its group 70 and its subclass markers say.
pub proof fn an_arc_length_dimension_is_named_not_flagged(
    flag: Option<i64>,
    ps: Seq<PairView>,
    lo: nat,
    hi: nat,
)
    ensures
        dimension_kind_of("ARC_DIMENSION"@, flag, ps, lo, hi) == Some(DimensionKind::ArcLength),
{
}

/// A dimension's subtype is the low three bits of its group 70: the bits
/// above them change nothing, and the one value of three bits the format
/// does not define names no subtype.
pub proof fn the_subtype_is_the_low_three_bits_of_group_70(flag: i64)
    ensures
        kind_of_flag_spec(flag) == kind_of_flag_spec(flag & 7),
        (flag & 7 == 7) <==> kind_of_flag_spec(flag) is None,
{
    assert((flag & 7) & 7 == flag & 7) by (bit_vector);
    assert(0 <= flag & 7 <= 7) by (bit_vector);
}

/// The name a reference carries, if it carries one.
pub open spec fn ref_name(r: RefView) -> Option<Seq<char>> {
    match r {
        RefView::Absent => None,
        RefView::Unresolved(n) => Some(n),
        RefView::Resolved(n) => Some(n),
    }
}

/// Resolving a name drops nothing: the reference carries the same name
/// after as before; it is resolved exactly when it was, or when the tables
/// declare the name it carries; and resolving it again changes nothing.
pub proof fn resolving_keeps_the_name(r: RefView, declared: Seq<Seq<char>>)
    ensures
        ref_name(resolved_in(r, declared)) == ref_name(r),
        resolved_in(r, declared) is Resolved <==> (r is Resolved || (r is Unresolved
            && declared.contains(r->Unresolved_0))),
        resolved_in(resolved_in(r, declared), declared) == resolved_in(r, declared),
{
}

/// A text style the file names is resolved like any other name: the name
/// is kept, and a name the STYLE table does not declare stays unresolved.
pub proof fn a_named_text_style_keeps_its_name(r: RefView, styles: Seq<Seq<char>>)
    requires
        !(r is Absent),
    ensures
        ref_name(text_style_resolved(r, styles)) == ref_name(r),
        r is Unresolved && !styles.contains(r->Unresolved_0) ==> text_style_resolved(r, styles)
            == r,
{
}

/// An entity's ID is its handle: with a handle (its first group 5), the
/// ID is the handle read as a hexadecimal number and the entity's source
/// handle is the handle's text, trimmed, in upper case; a handle that is
/// not hexadecimal is the error that names its line. Without a handle, the
/// ID is `HANDLELESS_ID_BASE | ordinal`, no less than the base, and the
/// entity has no source handle.
pub proof fn an_entitys_id_is_its_handle(ps: Seq<PairView>, lo: nat, hi: nat, ordinal: u64)
    ensures
        match first_index(ps, lo, hi, 5) {
            None => common_head_of(ps, lo, hi, ordinal) matches Ok(h) ==> {
                &&& h.id == HANDLELESS_ID_BASE | ordinal
                &&& h.id >= HANDLELESS_ID_BASE
                &&& h.source_handle == RefView::Absent
            },
            Some(i) => match hex_u64(encode_utf8(trimmed(ps[i as int].value))) {
                Some(v) => common_head_of(ps, lo, hi, ordinal) matches Ok(h) ==> {
                    &&& h.id == v
                    &&& h.source_handle == RefView::Resolved(ascii_uppercase(trimmed(ps[i as int].value)))
                },
                None => common_head_of(ps, lo, hi, ordinal) == Err::<CommonHeadView, ReadErrorView>(
                    ReadErrorView::BadNumber { line: ps[i as int].line, code: 5, text: ps[i as int].value },
                ),
            },
        },
{
    let id = HANDLELESS_ID_BASE | ordinal;
    assert(id >= HANDLELESS_ID_BASE) by (bit_vector)
        requires
            id == 0x8000_0000_0000_0000u64 | ordinal,
            HANDLELESS_ID_BASE == 0x8000_0000_0000_0000u64,
    ;
    if let Some(i) = first_index(ps, lo, hi, 5) {
        let b = encode_utf8(trimmed(ps[i as int].value));
        let d = if b.len() > 0 && b[0] == 43 { b.drop_first() } else { b };
        if all_digits(d, 16) {
            lemma_digits_value_nonneg(d, 16);
        }
    }
}

/// A TEXT's, ATTRIB's or ATTDEF's justification is the one the format
/// numbers: group 72 is 0 left, 1 centre, 2 right, 3 aligned, 4 middle, 5
/// fit; the vertical group (73, or 74 for an attribute) is 0 baseline, 1
/// bottom, 2 middle, 3 top. An absent group, or a number outside these,
/// reads as left on the baseline.
pub proof fn a_texts_justification_is_the_one_the_format_numbers(
    entity_type: Seq<char>,
    ps: Seq<PairView>,
    lo: nat,
    hi: nat,
    vertical: i32,
)
    ensures
        justification_of(entity_type, ps, lo, hi, vertical) matches Ok((h, v, _)) ==> {
            &&& match int_field(ps, lo, hi, 72, i64::MIN as int, i64::MAX as int) {
                Ok(Some(x)) => {
                    &&& x == 0 ==> h == Horizontal::Left
                    &&& x == 1 ==> h == Horizontal::Center
                    &&& x == 2 ==> h == Horizontal::Right
                    &&& x == 3 ==> h == Horizontal::Aligned
                    &&& x == 4 ==> h == Horizontal::Middle
                    &&& x == 5 ==> h == Horizontal::Fit
                    &&& (x < 0 || x > 5) ==> h == Horizontal::Left
                },
                _ => h == Horizontal::Left,
            }
            &&& match int_field(ps, lo, hi, vertical, i64::MIN as int, i64::MAX as int) {
                Ok(Some(x)) => {
                    &&& x == 0 ==> v == Vertical::Baseline
                    &&& x == 1 ==> v == Vertical::Bottom
                    &&& x == 2 ==> v == Vertical::Middle
                    &&& x == 3 ==> v == Vertical::Top
                    &&& (x < 0 || x > 3) ==> v == Vertical::Baseline
                },
                _ => v == Vertical::Baseline,
            }
        },
{
}

/// The row of an MTEXT attachment point, counted from the top.
pub open spec fn attachment_row(a: Attachment) -> int {
    match a {
        Attachment::TopLeft | Attachment::TopCenter | Attachment::TopRight => 0,
        Attachment::MiddleLeft | Attachment::MiddleCenter | Attachment::MiddleRight => 1,
        Attachment::BottomLeft | Attachment::BottomCenter | Attachment::BottomRight => 2,
    }
}

/// The column of an MTEXT attachment point, counted from the left.
pub open spec fn attachment_column(a: Attachment) -> int {
    match a {
        Attachment::TopLeft | Attachment::MiddleLeft | Attachment::BottomLeft => 0,
        Attachment::TopCenter | Attachment::MiddleCenter | Attachment::BottomCenter => 1,
        Attachment::TopRight | Attachment::MiddleRight | Attachment::BottomRight => 2,
    }
}

/// An MTEXT's attachment (71) numbers the points of a three by three grid
/// row by row from the top left: `k` from 1 to 9 is row `(k - 1) / 3` from
/// the top and column `(k - 1) % 3` from the left. Any other number, or
/// none, states no attachment.
pub proof fn an_mtext_attachment_counts_its_grid_from_the_top_left(ps: Seq<PairView>, lo: nat, hi: nat)
    ensures
        match int_field(ps, lo, hi, 71, i64::MIN as int, i64::MAX as int) {
            Ok(Some(k)) => if 1 <= k <= 9 {
                attachment_of(Some(k)) matches Some(a) && attachment_row(a) == (k - 1) / 3
                    && attachment_column(a) == (k - 1) % 3
            } else {
                attachment_of(Some(k)) is None
            },
            Ok(None) => attachment_of(None) is None,
            Err(_) => true,
        },
{
}

/// Whether a gradient name (470) is one of the radial ones, in any case.
pub open spec fn names_a_radial_gradient(name: Seq<char>) -> bool {
    let n = ascii_uppercase(trimmed(name));
    n == "SPHERICAL"@ || n == "HEMISPHERICAL"@
}

/// A gradient is radial exactly when its name (its first group 470) is
/// SPHERICAL or HEMISPHERICAL, in any case; a gradient named otherwise
/// (LINEAR, CYLINDER, CURVED and their inverses), or not named, is not.
pub proof fn a_gradient_is_radial_when_its_name_is_spherical(
    ps: Seq<PairView>,
    fl: Seq<Option<bool>>,
    lo: nat,
    hi: nat,
)
    ensures
        gradient_at(ps, fl, lo, hi) matches Ok(Some(g)) ==> (g.radial <==> match first_index(
            ps,
            lo,
            hi,
            470,
        ) {
            Some(n) => names_a_radial_gradient(ps[n as int].value),
            None => false,
        }),
{
}

/// Each code page a `$DWGCODEPAGE` names (`ANSI_` or `DOS` and its number,
/// in any case) means the encoding the DXF reference lists for it: 932
/// Shift JIS, 936 GBK, 949 EUC-KR, 950 Big5, 874 Windows-874, 1250 to 1258
/// the Windows code page of that number; encoding_rs's encoding of that
/// label. Any other number names no encoding.
pub proof fn each_code_page_means_the_encoding_the_format_lists(name: Seq<char>)
    requires
        page_number(name) is Some,
    ensures
        ({
            let n = page_number(name).unwrap();
            let means = |label: Seq<char>| code_page_encoding(name) == label_encoding(encode_utf8(label));
            &&& n == "932"@ ==> means("shift_jis"@)
            &&& n == "936"@ ==> means("gbk"@)
            &&& n == "949"@ ==> means("euc-kr"@)
            &&& n == "950"@ ==> means("big5"@)
            &&& n == "874"@ ==> means("windows-874"@)
            &&& n == "1250"@ ==> means("windows-1250"@)
            &&& n == "1251"@ ==> means("windows-1251"@)
            &&& n == "1252"@ ==> means("windows-1252"@)
            &&& n == "1253"@ ==> means("windows-1253"@)
            &&& n == "1254"@ ==> means("windows-1254"@)
            &&& n == "1255"@ ==> means("windows-1255"@)
            &&& n == "1256"@ ==> means("windows-1256"@)
            &&& n == "1257"@ ==> means("windows-1257"@)
            &&& n == "1258"@ ==> means("windows-1258"@)
            &&& !(n == "932"@ || n == "936"@ || n == "949"@ || n == "950"@ || n == "874"@ || n
                == "1250"@ || n == "1251"@ || n == "1252"@ || n == "1253"@ || n == "1254"@ || n
                == "1255"@ || n == "1256"@ || n == "1257"@ || n == "1258"@) ==> code_page_encoding(
                name,
            ) is None
        }),
{
    reveal_strlit("932");
    reveal_strlit("936");
    reveal_strlit("949");
    reveal_strlit("950");
    reveal_strlit("874");
    reveal_strlit("windows-");
    reveal_strlit("1250");
    reveal_strlit("1251");
    reveal_strlit("1252");
    reveal_strlit("1253");
    reveal_strlit("1254");
    reveal_strlit("1255");
    reveal_strlit("1256");
    reveal_strlit("1257");
    reveal_strlit("1258");
    reveal_strlit("windows-1250");
    reveal_strlit("windows-1251");
    reveal_strlit("windows-1252");
    reveal_strlit("windows-1253");
    reveal_strlit("windows-1254");
    reveal_strlit("windows-1255");
    reveal_strlit("windows-1256");
    reveal_strlit("windows-1257");
    reveal_strlit("windows-1258");
    let n = page_number(name).unwrap();
    assert("936"@ != "932"@) by {
        assert("936"@[2] != "932"@[2]);
    }
    assert("949"@ != "932"@ && "949"@ != "936"@) by {
        assert("949"@[1] != "932"@[1]);
    }
    assert("950"@ != "932"@ && "950"@ != "936"@ && "950"@ != "949"@) by {
        assert("950"@[1] != "932"@[1]);
        assert("950"@[1] != "949"@[1]);
    }
    assert("874"@ != "932"@ && "874"@ != "936"@ && "874"@ != "949"@ && "874"@ != "950"@) by {
        assert("874"@[0] != "932"@[0]);
    }
    if n == "1250"@ {
        assert("windows-"@ + n =~= "windows-1250"@);
        assert(n[3] == "1250"@[3]);
    } else if n == "1251"@ {
        assert("windows-"@ + n =~= "windows-1251"@);
        assert(n[3] == "1251"@[3]);
    } else if n == "1252"@ {
        assert("windows-"@ + n =~= "windows-1252"@);
        assert(n[3] == "1252"@[3]);
    } else if n == "1253"@ {
        assert("windows-"@ + n =~= "windows-1253"@);
        assert(n[3] == "1253"@[3]);
    } else if n == "1254"@ {
        assert("windows-"@ + n =~= "windows-1254"@);
        assert(n[3] == "1254"@[3]);
    } else if n == "1255"@ {
        assert("windows-"@ + n =~= "windows-1255"@);
        assert(n[3] == "1255"@[3]);
    } else if n == "1256"@ {
        assert("windows-"@ + n =~= "windows-1256"@);
        assert(n[3] == "1256"@[3]);
    } else if n == "1257"@ {
        assert("windows-"@ + n =~= "windows-1257"@);
        assert(n[3] == "1257"@[3]);
    } else if n == "1258"@ {
        assert("windows-"@ + n =~= "windows-1258"@);
        assert(n[3] == "1258"@[3]);
    }
}

/// DIMLUNIT (277) is the linear unit format the format numbers: 1
/// scientific, 2 decimal, 3 engineering, 4 architectural, 5 fractional, 6
/// the Windows desktop's; any other number is none of them. An R2000 or
/// later dimension style carries it, decimal where the group is absent.
pub proof fn a_linear_unit_format_is_the_one_dimlunit_numbers(
    name: Seq<char>,
    ps: Seq<PairView>,
    fl: Seq<Option<bool>>,
    lo: nat,
    hi: nat,
)
    ensures
        forall|k: int|
            {
                &&& k == 1 ==> #[trigger] linear_unit_of(k) == Some(LinearUnitFormat::Scientific)
                &&& k == 2 ==> linear_unit_of(k) == Some(LinearUnitFormat::Decimal)
                &&& k == 3 ==> linear_unit_of(k) == Some(LinearUnitFormat::Engineering)
                &&& k == 4 ==> linear_unit_of(k) == Some(LinearUnitFormat::Architectural)
                &&& k == 5 ==> linear_unit_of(k) == Some(LinearUnitFormat::Fractional)
                &&& k == 6 ==> linear_unit_of(k) == Some(LinearUnitFormat::WindowsDesktop)
                &&& (k < 1 || k > 6) ==> linear_unit_of(k) is None
            },
        dim_style_of(name, ps, fl, lo, hi, true) matches Ok(d) ==> match int_value_of(
            ps,
            lo,
            hi,
            277,
            i32::MIN as int,
            i32::MAX as int,
        ) {
            Some(k) => {
                &&& k == 1 ==> d.linear_unit_format == Some(LinearUnitFormat::Scientific)
                &&& k == 2 ==> d.linear_unit_format == Some(LinearUnitFormat::Decimal)
                &&& k == 3 ==> d.linear_unit_format == Some(LinearUnitFormat::Engineering)
                &&& k == 4 ==> d.linear_unit_format == Some(LinearUnitFormat::Architectural)
                &&& k == 5 ==> d.linear_unit_format == Some(LinearUnitFormat::Fractional)
                &&& k == 6 ==> d.linear_unit_format == Some(LinearUnitFormat::WindowsDesktop)
                &&& (k < 1 || k > 6) ==> d.linear_unit_format is None
            },
            None => d.linear_unit_format == Some(LinearUnitFormat::Decimal),
        },
{
}

/// A dimension style's other unit variables are what the format numbers.
/// DIMAUNIT (275): 0 decimal degrees, 1 degrees/minutes/seconds, 2
/// gradians, 3 radians, 4 surveyor's units. DIMFRAC (276): 0 horizontal,
/// 1 diagonal, 2 not stacked. A pre-R2000 DIMUNIT (270) says what DIMLUNIT
/// says for 1 to 5, with no stacking stated; 6 and 7 are architectural and
/// fractional without stacking, 8 the Windows desktop's. Any other number
/// is none of them.
pub proof fn the_unit_variables_are_the_ones_the_format_numbers()
    ensures
        forall|k: int|
            {
                &&& k == 0 ==> #[trigger] angular_unit_of(k) == Some(AngularUnitFormat::DecimalDegrees)
                &&& k == 1 ==> angular_unit_of(k) == Some(AngularUnitFormat::DegreesMinutesSeconds)
                &&& k == 2 ==> angular_unit_of(k) == Some(AngularUnitFormat::Gradians)
                &&& k == 3 ==> angular_unit_of(k) == Some(AngularUnitFormat::Radians)
                &&& k == 4 ==> angular_unit_of(k) == Some(AngularUnitFormat::SurveyorsUnits)
                &&& (k < 0 || k > 4) ==> angular_unit_of(k) is None
            },
        forall|k: int|
            {
                &&& k == 0 ==> #[trigger] fraction_of(k) == Some(FractionFormat::Horizontal)
                &&& k == 1 ==> fraction_of(k) == Some(FractionFormat::Diagonal)
                &&& k == 2 ==> fraction_of(k) == Some(FractionFormat::NotStacked)
                &&& (k < 0 || k > 2) ==> fraction_of(k) is None
            },
        forall|k: i32|
            {
                &&& 1 <= k <= 5 ==> #[trigger] dimunit_of(k) == (linear_unit_of(k as int), None::<FractionFormat>)
                &&& k == 6 ==> dimunit_of(k) == (
                    Some(LinearUnitFormat::Architectural),
                    Some(FractionFormat::NotStacked),
                )
                &&& k == 7 ==> dimunit_of(k) == (
                    Some(LinearUnitFormat::Fractional),
                    Some(FractionFormat::NotStacked),
                )
                &&& k == 8 ==> dimunit_of(k) == (Some(LinearUnitFormat::WindowsDesktop), None::<FractionFormat>)
                &&& (k < 1 || k > 8) ==> dimunit_of(k) == (None::<LinearUnitFormat>, None::<FractionFormat>)
            },
{
}

/// A dimension's subtype (the low three bits of group 70) is the one the
/// format numbers: 0 rotated, 1 aligned, 2 angular by two lines, 3
/// diameter, 4 radius, 5 angular by three points, 6 ordinate.
pub proof fn a_dimensions_subtype_is_the_one_the_format_numbers(flag: i64)
    ensures
        ({
            let low = flag & 7;
            &&& low == 0 ==> kind_of_flag_spec(flag) == Some(DimensionKind::Rotated)
            &&& low == 1 ==> kind_of_flag_spec(flag) == Some(DimensionKind::Aligned)
            &&& low == 2 ==> kind_of_flag_spec(flag) == Some(DimensionKind::Angular2Line)
            &&& low == 3 ==> kind_of_flag_spec(flag) == Some(DimensionKind::Diameter)
            &&& low == 4 ==> kind_of_flag_spec(flag) == Some(DimensionKind::Radius)
            &&& low == 5 ==> kind_of_flag_spec(flag) == Some(DimensionKind::Angular3Point)
            &&& low == 6 ==> kind_of_flag_spec(flag) == Some(DimensionKind::Ordinate)
        }),
{
}

/// A layout's plot settings are what the format numbers: paper units (72)
/// 0 inches, 1 millimetres, 2 pixels; plot rotation (73) 0 none, 1 a
/// quarter turn counterclockwise, 2 upside down, 3 a quarter turn
/// clockwise. Any other number is none of them.
pub proof fn a_layouts_plot_settings_are_the_ones_the_format_numbers()
    ensures
        forall|k: int|
            {
                &&& k == 0 ==> #[trigger] paper_units_of(k) == Some(PaperUnits::Inches)
                &&& k == 1 ==> paper_units_of(k) == Some(PaperUnits::Millimeters)
                &&& k == 2 ==> paper_units_of(k) == Some(PaperUnits::Pixels)
                &&& (k < 0 || k > 2) ==> paper_units_of(k) is None
            },
        forall|k: int|
            {
                &&& k == 0 ==> #[trigger] plot_rotation_of(k) == Some(PlotRotation::Unrotated)
                &&& k == 1 ==> plot_rotation_of(k) == Some(PlotRotation::Counterclockwise90)
                &&& k == 2 ==> plot_rotation_of(k) == Some(PlotRotation::UpsideDown)
                &&& k == 3 ==> plot_rotation_of(k) == Some(PlotRotation::Clockwise90)
                &&& (k < 0 || k > 3) ==> plot_rotation_of(k) is None
            },
{
}

/// A HATCH's fill style (75) is the one the format numbers: 0 normal, 1
/// outer, 2 ignore; any other number, or none, states no style.
pub proof fn a_hatchs_fill_style_is_the_one_the_format_numbers(ps: Seq<PairView>, lo: nat, hi: nat)
    ensures
        style_at(ps, lo, hi) matches Ok(st) ==> match int_field(
            ps,
            lo,
            hi,
            75,
            i64::MIN as int,
            i64::MAX as int,
        ) {
            Ok(Some(k)) => {
                &&& k == 0 ==> st == Some(FillStyle::Normal)
                &&& k == 1 ==> st == Some(FillStyle::Outer)
                &&& k == 2 ==> st == Some(FillStyle::Ignore)
                &&& (k < 0 || k > 2) ==> st is None
            },
            _ => st is None,
        },
{
}

/// An edge of a HATCH's edge path is of the kind its group 72 numbers: 1
/// a line, 2 a circular arc, 3 an elliptic arc, 4 a spline; an edge of
/// another kind is passed over.
pub proof fn an_edge_is_of_the_kind_its_group_72_numbers(
    ps: Seq<PairView>,
    fl: Seq<Option<bool>>,
    hi: nat,
    at: nat,
)
    ensures
        (here(ps, hi, at, 72) && integer_of(ps[at as int]) is Ok) ==> ({
            let k = integer_of(ps[at as int])->Ok_0;
            match edge_at(ps, fl, hi, at) {
            Ok((Ok(Some(e)), _)) => {
                &&& 1 <= k <= 4
                &&& k == 1 ==> e is Line
                &&& k == 2 ==> e is Arc
                &&& k == 3 ==> e is Ellipse
                &&& k == 4 ==> e is Spline
            },
                Ok((Ok(None), _)) => k < 1 || k > 4,
                _ => 1 <= k <= 4,
            }
        }),
{
}

/// An entity's linetype (6) is ByLayer where it names BYLAYER, in any
/// case, or names none; ByBlock where it names BYBLOCK; any other name is
/// a name to resolve against the LTYPE table.
pub proof fn a_linetype_is_by_layer_by_block_or_named(name: Option<Seq<char>>)
    ensures
        match name {
            None => linetype_of(name) == LineTypeView::ByLayer,
            Some(n) => {
                let t = ascii_uppercase(trimmed(n));
                &&& t == "BYLAYER"@ ==> linetype_of(name) == LineTypeView::ByLayer
                &&& t == "BYBLOCK"@ ==> linetype_of(name) == LineTypeView::ByBlock
                &&& (t != "BYLAYER"@ && t != "BYBLOCK"@) ==> linetype_of(name) matches LineTypeView::Named(
                    RefView::Unresolved(_),
                )
            },
        },
{
    reveal_strlit("BYLAYER");
    reveal_strlit("BYBLOCK");
    assert("BYLAYER"@ != "BYBLOCK"@) by {
        assert("BYLAYER"@[2] != "BYBLOCK"@[2]);
    }
}

/// A dimension's text override (1) is the measurement where it is absent,
/// empty or `<>`; suppressed where it is one space; any other text is
/// carried as the literal text.
pub proof fn a_text_override_is_measured_suppressed_or_literal(value: Option<Seq<char>>)
    ensures
        match value {
            None => text_override_of(value) == TextOverrideView::Measured,
            Some(v) => {
                &&& (v.len() == 0 || v == "<>"@) ==> text_override_of(value) == TextOverrideView::Measured
                &&& v == " "@ ==> text_override_of(value) == TextOverrideView::Suppressed
                &&& (v.len() > 0 && v != "<>"@ && v != " "@) ==> text_override_of(value) matches TextOverrideView::Literal(_)
            },
        },
{
    reveal_strlit("<>");
    reveal_strlit(" ");
}

} // verus!
