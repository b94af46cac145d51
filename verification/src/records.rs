//! Where the records the reading lists lie in the text: each is the pairs
//! between one `0` pair and the next.

use vstd::prelude::*;
use crate::outline::{
    add_item, add_member, at_end, chain_pair, close_group, emit_group, entities_pair,
    in_block_pair, outline_of, parent_pair,
    run, start, step, table_record, GroupView, ItemView, Mode, ReaderView, TableKind,
};
use crate::pairs::PairView;

verus! {

/// `ps[start..end]` is one record: the pairs after a `0` pair, up to the
/// next `0` pair or the end of the text.
pub open spec fn is_record(ps: Seq<PairView>, start: nat, end: nat) -> bool {
    &&& 1 <= start <= end <= ps.len()
    &&& ps[start - 1].code == 0
    &&& forall|i: int| start <= i < end ==> #[trigger] ps[i].code != 0
    &&& (end == ps.len() || ps[end as int].code == 0)
}

/// An entity's records: its head is the `0` pair just before its own
/// record, and each record of its chain is one record too.
pub open spec fn group_is_records(ps: Seq<PairView>, g: GroupView) -> bool {
    &&& g.head + 1 == g.start
    &&& is_record(ps, g.start as nat, g.end as nat)
    &&& members_are_records(ps, g)
}

/// Each record of an entity's chain is one record.
pub open spec fn members_are_records(ps: Seq<PairView>, g: GroupView) -> bool {
    forall|j: int|
        0 <= j < g.members.len() ==> is_record(
            ps,
            #[trigger] g.members[j].start as nat,
            g.members[j].end as nat,
        )
}

/// A block's header record, where the reading has met one (before it has,
/// it names none: `0..0`).
pub open spec fn block_header_ok(ps: Seq<PairView>, start: usize, end: usize) -> bool {
    (start == 0 && end == 0) || is_record(ps, start as nat, end as nat)
}

/// What the reading lists of a record is one record.
pub open spec fn item_is_records(ps: Seq<PairView>, item: ItemView) -> bool {
    match item {
        ItemView::DimStyle { start, end, .. } => is_record(ps, start as nat, end as nat),
        ItemView::MLineStyle { start, end, .. } => is_record(ps, start as nat, end as nat),
        ItemView::Layout { start, end } => is_record(ps, start as nat, end as nat),
        ItemView::ImageDef { start, end } => is_record(ps, start as nat, end as nat),
        ItemView::Entity(g) => group_is_records(ps, g),
        ItemView::BlockEnd { start, end, .. } => block_header_ok(ps, start, end),
    }
}

/// Every item of `items` is made of records.
pub open spec fn items_are_records(ps: Seq<PairView>, items: Seq<ItemView>) -> bool {
    forall|j: int| 0 <= j < items.len() ==> item_is_records(ps, #[trigger] items[j])
}

/// A record that starts at `start` and has run up to `k`: after a `0`
/// pair, with none of its own so far.
spec fn opened(ps: Seq<PairView>, start: nat, k: nat) -> bool {
    &&& 1 <= start <= k <= ps.len()
    &&& ps[start - 1].code == 0
    &&& forall|i: int| start <= i < k ==> #[trigger] ps[i].code != 0
}

/// The reading before pair `k`: what it has listed is made of records, and
/// the record it is inside, and the entity it is reading, are so far.
spec fn reading_ok(s: ReaderView, ps: Seq<PairView>, k: nat) -> bool {
    &&& k <= ps.len()
    &&& items_are_records(ps, s.out.items)
    &&& block_header_ok(ps, s.header.0, s.header.1)
    &&& match s.mode {
        Mode::TableRecord(_, st) => opened(ps, st as nat, k),
        Mode::MLineStyleRecord(st) => opened(ps, st as nat, k),
        Mode::LayoutRecord(st) => opened(ps, st as nat, k),
        Mode::ImageDefRecord(st) => opened(ps, st as nat, k),
        Mode::BlockHeader(st) => opened(ps, st as nat, k),
        Mode::GroupRecord(st) => {
            &&& opened(ps, st as nat, k)
            &&& s.group.start == st
            &&& s.group.head + 1 == st
            &&& members_are_records(ps, s.group)
        },
        Mode::Chain => group_is_records(ps, s.group),
        Mode::SeqEnd => group_is_records(ps, s.group),
        Mode::ChainMember(st) => opened(ps, st as nat, k) && group_is_records(ps, s.group),
        _ => true,
    }
}

proof fn lemma_add_item(s: ReaderView, ps: Seq<PairView>, item: ItemView)
    requires
        items_are_records(ps, s.out.items),
        item_is_records(ps, item),
    ensures
        items_are_records(ps, add_item(s, item).out.items),
        add_item(s, item).mode == s.mode,
        add_item(s, item).group == s.group,
{
    let items = add_item(s, item).out.items;
    assert forall|j: int| 0 <= j < items.len() implies item_is_records(ps, #[trigger] items[j]) by {
        if j < s.out.items.len() {
            assert(items[j] == s.out.items[j]);
        }
    }
}

/// A record that has run up to a `0` pair at `k`, or to the end of the
/// text, is one record.
proof fn lemma_close(ps: Seq<PairView>, start: nat, k: nat)
    requires
        opened(ps, start, k),
        k == ps.len() || ps[k as int].code == 0,
    ensures
        is_record(ps, start, k),
{
}

proof fn lemma_table_record(s: ReaderView, kind: TableKind, ps: Seq<PairView>, st: nat, end: nat)
    requires
        items_are_records(ps, s.out.items),
        is_record(ps, st, end),
        end <= usize::MAX,
    ensures
        table_record(s, kind, ps, st, end) matches Ok(t) ==> items_are_records(ps, t.out.items)
            && t.mode == s.mode && t.group == s.group,
{
    if let Some(n) = crate::record::first_index(ps, st, end, 2) {
        lemma_add_item(
            s,
            ps,
            ItemView::DimStyle {
                name: crate::decode::stored(ps[n as int].value),
                start: st as usize,
                end: end as usize,
                r2000: crate::outline::is_r2000(s.version),
            },
        );
    }
}

/// Back to where an entity was read, after the `0` pair at `k`: an entity
/// that pair begins is opened there.
proof fn lemma_parent(s: ReaderView, ps: Seq<PairView>, k: nat)
    requires
        items_are_records(ps, s.out.items),
        block_header_ok(ps, s.header.0, s.header.1),
        k < ps.len(),
        k + 1 <= usize::MAX,
    ensures
        reading_ok(parent_pair(s, ps[k as int], k), ps, k + 1),
        reading_ok(in_block_pair(s, ps[k as int], k), ps, k + 1),
        reading_ok(entities_pair(s, ps[k as int], k), ps, k + 1),
{
}

/// A `0` pair at `k` after an entity whose records are complete.
proof fn lemma_chain(s: ReaderView, ps: Seq<PairView>, k: nat)
    requires
        items_are_records(ps, s.out.items),
        block_header_ok(ps, s.header.0, s.header.1),
        group_is_records(ps, s.group),
        k < ps.len(),
        k + 1 <= usize::MAX,
    ensures
        reading_ok(chain_pair(s, ps[k as int], k), ps, k + 1),
{
    lemma_add_item(ReaderView { group: crate::outline::blank_group(), ..s }, ps, ItemView::Entity(s.group));
    lemma_parent(emit_group(s), ps, k);
}

proof fn lemma_add_member(s: ReaderView, ps: Seq<PairView>, st: nat, k: nat)
    requires
        group_is_records(ps, s.group),
        is_record(ps, st, k),
        k <= usize::MAX,
    ensures
        group_is_records(ps, add_member(s, st, k).group),
{
    let g = add_member(s, st, k).group;
    assert forall|j: int| 0 <= j < g.members.len() implies is_record(
        ps,
        #[trigger] g.members[j].start as nat,
        g.members[j].end as nat,
    ) by {
        if j < s.group.members.len() {
            assert(g.members[j] == s.group.members[j]);
        }
    }
}

/// An entity whose own record has run up to `end` is closed there.
proof fn lemma_close_group(s: ReaderView, ps: Seq<PairView>, st: nat, end: nat)
    requires
        opened(ps, st, end),
        end == ps.len() || ps[end as int].code == 0,
        s.group.start == st,
        s.group.head + 1 == st,
        members_are_records(ps, s.group),
        end <= usize::MAX,
    ensures
        group_is_records(ps, close_group(s, ps, end).group),
        close_group(s, ps, end).out == s.out,
{
    lemma_close(ps, st, end);
    let g = close_group(s, ps, end).group;
    assert(g.members == s.group.members);
}

#[verifier::rlimit(40)]
proof fn lemma_step(s: ReaderView, ps: Seq<PairView>, k: nat)
    requires
        reading_ok(s, ps, k),
        k < ps.len(),
        ps.len() <= usize::MAX,
        step(s, ps, k) is Ok,
    ensures
        reading_ok(step(s, ps, k)->Ok_0, ps, k + 1),
{
    let p = ps[k as int];
    match s.mode {
        Mode::TableRecord(kind, st) => {
            if p.code == 0 {
                lemma_close(ps, st as nat, k);
                lemma_table_record(s, kind, ps, st as nat, k);
            }
        },
        Mode::MLineStyleRecord(st) => {
            if p.code == 0 {
                lemma_close(ps, st as nat, k);
                if let Some(n) = crate::record::first_index(ps, st as nat, k, 2) {
                    lemma_add_item(
                        s,
                        ps,
                        ItemView::MLineStyle {
                            name: crate::decode::stored(ps[n as int].value),
                            start: st,
                            end: k as usize,
                        },
                    );
                }
            }
        },
        Mode::LayoutRecord(st) => {
            if p.code == 0 {
                lemma_close(ps, st as nat, k);
                lemma_add_item(s, ps, ItemView::Layout { start: st, end: k as usize });
            }
        },
        Mode::ImageDefRecord(st) => {
            if p.code == 0 {
                lemma_close(ps, st as nat, k);
                lemma_add_item(s, ps, ItemView::ImageDef { start: st, end: k as usize });
            }
        },
        Mode::BlockHeader(st) => {
            if p.code == 0 {
                lemma_close(ps, st as nat, k);
                lemma_parent(
                    ReaderView {
                        block: crate::outline::block_name(ps, st as nat, k),
                        header: (st, k as usize),
                        ..s
                    },
                    ps,
                    k,
                );
            }
        },
        Mode::InBlock => {
            lemma_parent(s, ps, k);
        },
        Mode::BlockTail => {
            if p.code == 0 {
                lemma_add_item(s, ps, ItemView::BlockEnd { name: s.block, start: s.header.0, end: s.header.1 });
            }
        },
        Mode::Entities => {
            lemma_parent(s, ps, k);
        },
        Mode::GroupRecord(st) => {
            if p.code == 0 {
                lemma_close_group(s, ps, st as nat, k);
                let u = close_group(s, ps, k);
                lemma_chain(u, ps, k);
            }
        },
        Mode::Chain => {
            lemma_chain(s, ps, k);
        },
        Mode::ChainMember(st) => {
            if p.code == 0 {
                lemma_close(ps, st as nat, k);
                lemma_add_member(s, ps, st as nat, k);
                lemma_chain(add_member(s, st as nat, k), ps, k);
            }
        },
        Mode::SeqEnd => {
            if p.code == 0 {
                lemma_chain(s, ps, k);
            }
        },
        _ => {},
    }
}

proof fn lemma_at_end(s: ReaderView, ps: Seq<PairView>)
    requires
        reading_ok(s, ps, ps.len()),
        ps.len() <= usize::MAX,
    ensures
        items_are_records(ps, at_end(s, ps).0.items),
{
    let n = ps.len();
    match s.mode {
        Mode::TableRecord(kind, st) => {
            lemma_close(ps, st as nat, n);
            lemma_table_record(s, kind, ps, st as nat, n);
        },
        Mode::MLineStyleRecord(st) => {
            lemma_close(ps, st as nat, n);
            if let Some(i) = crate::record::first_index(ps, st as nat, n, 2) {
                lemma_add_item(
                    s,
                    ps,
                    ItemView::MLineStyle {
                        name: crate::decode::stored(ps[i as int].value),
                        start: st,
                        end: n as usize,
                    },
                );
            }
        },
        Mode::LayoutRecord(st) => {
            lemma_close(ps, st as nat, n);
            lemma_add_item(s, ps, ItemView::Layout { start: st, end: n as usize });
        },
        Mode::ImageDefRecord(st) => {
            lemma_close(ps, st as nat, n);
            lemma_add_item(s, ps, ItemView::ImageDef { start: st, end: n as usize });
        },
        Mode::BlockTail => {
            lemma_add_item(s, ps, ItemView::BlockEnd { name: s.block, start: s.header.0, end: s.header.1 });
        },
        Mode::GroupRecord(st) => {
            lemma_close_group(s, ps, st as nat, n);
            let u = close_group(s, ps, n);
            lemma_add_item(
                ReaderView { group: crate::outline::blank_group(), ..u },
                ps,
                ItemView::Entity(u.group),
            );
        },
        Mode::Chain | Mode::SeqEnd => {
            lemma_add_item(
                ReaderView { group: crate::outline::blank_group(), ..s },
                ps,
                ItemView::Entity(s.group),
            );
        },
        Mode::ChainMember(st) => {
            lemma_close(ps, st as nat, n);
            lemma_add_member(s, ps, st as nat, n);
            let u = add_member(s, st as nat, n);
            lemma_add_item(
                ReaderView { group: crate::outline::blank_group(), ..u },
                ps,
                ItemView::Entity(u.group),
            );
        },
        _ => {},
    }
}

proof fn lemma_run(ps: Seq<PairView>, k: nat, s: ReaderView)
    requires
        reading_ok(s, ps, k),
        ps.len() <= usize::MAX,
    ensures
        items_are_records(ps, run(ps, k, s).0.items),
    decreases ps.len() - k,
{
    if s.mode is Done {
    } else if k >= ps.len() {
        lemma_at_end(s, ps);
    } else {
        if let Ok(t) = step(s, ps, k) {
            lemma_step(s, ps, k);
            lemma_run(ps, k + 1, t);
        }
    }
}

/// Every record the reading lists -- a dimension style's, a multiline
/// style's, a layout's, an image definition's, a block's header, an
/// entity's and each record of its chain -- is the pairs after one `0` pair
/// up to the next `0` pair or the end of the text: it lies within the text
/// and holds no `0` pair of its own, and an entity's head is the `0` pair
/// just before its record. (A block whose end the reading meets before any
/// header names none, `0..0`.)
pub proof fn every_record_read_is_the_pairs_between_two_zero_pairs(ps: Seq<PairView>)
    requires
        ps.len() <= usize::MAX,
    ensures
        items_are_records(ps, outline_of(ps).0.items),
{
    lemma_run(ps, 0, start());
}

} // verus!
