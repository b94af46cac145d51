//! Which entities are the drawing's own, and in what order: those the
//! model space and paper space blocks own, block by block in the order of
//! their names, in file order within a block, each INSERT followed by its
//! attributes.

use vstd::prelude::*;
use crate::decode::{lex_lt, str_ge};
use crate::outline::{Item, ItemView, Outline};
use crate::pairs::{views, Pair, PairView};
use crate::resolve::{is_space, is_space_name};
use crate::text::str_eq;

verus! {

/// One entry of the drawing's own entities: the entity of item `0`, or
/// attribute `1` of the INSERT of item `0`.
#[derive(Debug, Clone, Copy, PartialEq, Eq)]
pub enum Listed {
    Entity(usize),
    Attribute(usize, usize),
}

/// Where an entity of block `name` goes among `acc`, the entities listed so
/// far in the order of their blocks' names: after every one whose block's
/// name is not after its own.
pub open spec fn slot(acc: Seq<(Seq<char>, usize)>, name: Seq<char>) -> nat
    decreases acc.len(),
{
    if acc.len() == 0 {
        0
    } else if lex_lt(name, acc.last().0) {
        slot(acc.drop_last(), name)
    } else {
        acc.len()
    }
}

/// The drawing's own entities among `items[..i]`, each with its block's
/// name: those a space block owns (`is_space_name`), in the order of their
/// blocks' names as `str` orders them, in file order within a block.
pub open spec fn own_entities(items: Seq<ItemView>, i: nat) -> Seq<(Seq<char>, usize)>
    decreases i,
{
    if i == 0 {
        Seq::empty()
    } else {
        let acc = own_entities(items, (i - 1) as nat);
        match items[i - 1] {
            ItemView::Entity(g) => if is_space_name(g.block) {
                acc.insert(slot(acc, g.block) as int, (g.block, (i - 1) as usize))
            } else {
                acc
            },
            _ => acc,
        }
    }
}

/// Whether the entity of item `i` is an INSERT, its chain its attributes.
pub open spec fn is_insert(ps: Seq<PairView>, items: Seq<ItemView>, i: int) -> bool {
    items[i] matches ItemView::Entity(g) && g.head < ps.len() && ps[g.head as int].value
        == "INSERT"@
}

/// The entries of the entity of item `i`: the entity, then -- for an
/// INSERT -- each of its attributes, in order.
pub open spec fn entries_of(ps: Seq<PairView>, items: Seq<ItemView>, i: usize) -> Seq<Listed> {
    seq![Listed::Entity(i)] + if is_insert(ps, items, i as int) {
        Seq::new(items[i as int]->Entity_0.members.len(), |m: int| Listed::Attribute(i, m as usize))
    } else {
        Seq::empty()
    }
}

/// The entries of the first `j` own entities `own`.
pub open spec fn listed_upto(
    ps: Seq<PairView>,
    items: Seq<ItemView>,
    own: Seq<(Seq<char>, usize)>,
    j: nat,
) -> Seq<Listed>
    decreases j,
{
    if j == 0 {
        Seq::empty()
    } else {
        listed_upto(ps, items, own, (j - 1) as nat) + entries_of(ps, items, own[j - 1].1)
    }
}

/// The drawing's own entities, listed (see `own_entities` and
/// `entries_of`).
pub open spec fn listed_of(ps: Seq<PairView>, items: Seq<ItemView>) -> Seq<Listed> {
    let own = own_entities(items, items.len());
    listed_upto(ps, items, own, own.len())
}

/// The views of the entities listed so far.
pub open spec fn own_views(v: Seq<(String, usize)>) -> Seq<(Seq<char>, usize)> {
    v.map_values(|p: (String, usize)| (p.0@, p.1))
}

proof fn lemma_own_bounds(items: Seq<ItemView>, i: nat)
    requires
        i <= items.len(),
        items.len() <= usize::MAX,
    ensures
        forall|j: int|
            0 <= j < own_entities(items, i).len() ==> (#[trigger] own_entities(items, i)[j]).1 < i
                && items[own_entities(items, i)[j].1 as int] is Entity,
    decreases i,
{
    if i > 0 {
        lemma_own_bounds(items, (i - 1) as nat);
        let acc = own_entities(items, (i - 1) as nat);
        if let ItemView::Entity(g) = items[i - 1] {
            if is_space_name(g.block) {
                let k = slot(acc, g.block);
                lemma_slot_bound(acc, g.block);
                let r = acc.insert(k as int, (g.block, (i - 1) as usize));
                assert forall|j: int| 0 <= j < r.len() implies (#[trigger] r[j]).1 < i
                    && items[r[j].1 as int] is Entity by {
                    if j < k {
                        assert(r[j] == acc[j]);
                    } else if j == k {
                        assert(r[j] == (g.block, (i - 1) as usize));
                    } else {
                        assert(r[j] == acc[j - 1]);
                    }
                }
            }
        }
    }
}

proof fn lemma_slot_bound(acc: Seq<(Seq<char>, usize)>, name: Seq<char>)
    ensures
        slot(acc, name) <= acc.len(),
    decreases acc.len(),
{
    if acc.len() > 0 && lex_lt(name, acc.last().0) {
        lemma_slot_bound(acc.drop_last(), name);
    }
}

/// Where an entity of block `name` goes among `own` (see `slot`).
fn slot_of(own: &Vec<(String, usize)>, name: &str) -> (r: usize)
    ensures
        r == slot(own_views(own@), name@),
{
    let ghost ov = own_views(own@);
    let mut k = own.len();
    assert(ov.subrange(0, k as int) =~= ov);
    while k > 0 && !str_ge(name, own[k - 1].0.as_str())
        invariant
            ov == own_views(own@),
            k <= own@.len(),
            slot(ov, name@) == slot(ov.subrange(0, k as int), name@),
        decreases k,
    {
        assert(ov.subrange(0, k as int).drop_last() =~= ov.subrange(0, k - 1));
        assert(ov.subrange(0, k as int).last() == ov[k - 1]);
        k = k - 1;
    }
    proof {
        if k > 0 {
            assert(ov.subrange(0, k as int).last() == ov[k - 1]);
        }
    }
    k
}

/// The drawing's own entities, listed (see `listed_of`): which entities of
/// the outline `o` of the pairs `ps` make the drawing, in order.
pub fn listing(ps: &Vec<Pair>, o: &Outline) -> (r: Vec<Listed>)
    ensures
        r@ == listed_of(views(ps@), o@.items),
{
    let ghost items = o@.items;
    let ghost pv = views(ps@);
    let mut own: Vec<(String, usize)> = Vec::new();
    let mut i: usize = 0;
    assert(own_views(own@) =~= Seq::<(Seq<char>, usize)>::empty());
    while i < o.items.len()
        invariant
            items == o@.items,
            i <= items.len(),
            own_views(own@) == own_entities(items, i as nat),
        decreases items.len() - i,
    {
        assert(items[i as int] == o.items@[i as int]@);
        if let Item::Entity(g) = &o.items[i] {
            if is_space(g.block.as_str()) {
                let k = slot_of(&own, g.block.as_str());
                proof {
                    lemma_slot_bound(own_views(own@), g.block@);
                }
                let ghost before = own_views(own@);
                own.insert(k, (g.block.clone(), i));
                assert(own_views(own@) =~= before.insert(k as int, (g.block@, i)));
            }
        }
        i = i + 1;
    }
    proof {
        assert(items.len() == o.items@.len());
        lemma_own_bounds(items, items.len());
    }
    let ghost ov = own_views(own@);
    let mut out: Vec<Listed> = Vec::new();
    let mut j: usize = 0;
    while j < own.len()
        invariant
            items == o@.items,
            pv == views(ps@),
            ov == own_views(own@),
            ov == own_entities(items, items.len()),
            forall|x: int| 0 <= x < ov.len() ==> (#[trigger] ov[x]).1 < items.len(),
            j <= own@.len(),
            out@ == listed_upto(pv, items, ov, j as nat),
        decreases own@.len() - j,
    {
        let idx = own[j].1;
        assert(ov[j as int].1 == idx);
        let ghost before = out@;
        out.push(Listed::Entity(idx));
        assert(items[idx as int] == o.items@[idx as int]@);
        let mut extra: usize = 0;
        if let Item::Entity(g) = &o.items[idx] {
            if g.head < ps.len() && str_eq(ps[g.head].value, "INSERT") {
                assert(pv[g.head as int] == ps@[g.head as int]@);
                let mut m: usize = 0;
                while m < g.members.len()
                    invariant
                        m <= g.members@.len(),
                        out@ == before + seq![Listed::Entity(idx)] + Seq::new(
                            m as nat,
                            |x: int| Listed::Attribute(idx, x as usize),
                        ),
                    decreases g.members@.len() - m,
                {
                    out.push(Listed::Attribute(idx, m));
                    assert(out@ =~= before + seq![Listed::Entity(idx)] + Seq::new(
                        (m + 1) as nat,
                        |x: int| Listed::Attribute(idx, x as usize),
                    ));
                    m = m + 1;
                }
                assert(is_insert(pv, items, idx as int));
                assert(g@.members.len() == g.members@.len());
                assert(out@ =~= before + entries_of(pv, items, idx));
            } else {
                proof {
                    if g.head < ps.len() {
                        assert(pv[g.head as int] == ps@[g.head as int]@);
                    }
                }
                assert(!is_insert(pv, items, idx as int));
                assert(out@ =~= before + entries_of(pv, items, idx));
            }
        } else {
            assert(out@ =~= before + entries_of(pv, items, idx));
        }
        j = j + 1;
    }
    out
}

} // verus!
