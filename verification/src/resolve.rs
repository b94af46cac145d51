//! References resolved against what the tables declare: a name the file
//! wrote becomes a resolved reference when the tables declare it, and stays
//! unresolved -- carrying the name -- when they do not.

use vstd::prelude::*;
use vstd::string::StrSliceExecFns;
use crate::decode::{lex_lt, str_ge};
use crate::number::{hex_u64, parse_hex};
use crate::outline::{name_views, pair_views, Item, ItemView, Outline, OutlineView};
use crate::record::{LayerRecord, LayerView, NameRef, RefView};
use crate::text::{ascii_uppercase, owned, str_eq, to_ascii_uppercase};

verus! {

/// A reference resolved against the names `declared`.
pub open spec fn resolved_in(r: RefView, declared: Seq<Seq<char>>) -> RefView {
    match r {
        RefView::Unresolved(n) => if declared.contains(n) {
            RefView::Resolved(n)
        } else {
            r
        },
        _ => r,
    }
}

/// Whether `names` holds `name`.
pub fn contains(names: &Vec<String>, name: &str) -> (r: bool)
    ensures
        r == name_views(names@).contains(name@),
{
    let ghost nv = name_views(names@);
    let mut i: usize = 0;
    while i < names.len()
        invariant
            nv == name_views(names@),
            i <= names@.len(),
            forall|j: int| 0 <= j < i ==> nv[j] != name@,
        decreases names@.len() - i,
    {
        if str_eq(names[i].as_str(), name) {
            assert(nv[i as int] == name@);
            return true;
        }
        i = i + 1;
    }
    assert(!nv.contains(name@)) by {
        if nv.contains(name@) {
            let j = choose|j: int| 0 <= j < nv.len() && nv[j] == name@;
            assert(nv[j] == name@);
        }
    }
    false
}

/// A name the file wrote becomes a resolved reference when `declared` holds
/// it, and stays unresolved -- carrying the name -- when it does not.
pub fn resolve_name(r: NameRef, declared: &Vec<String>) -> (out: NameRef)
    ensures
        out@ == resolved_in(r@, name_views(declared@)),
{
    match r {
        NameRef::Unresolved(n) => {
            if contains(declared, n.as_str()) {
                NameRef::Resolved(n)
            } else {
                NameRef::Unresolved(n)
            }
        },
        other => other,
    }
}

/// A style named `STANDARD`, in any case.
pub open spec fn is_standard(s: Seq<char>) -> bool {
    ascii_uppercase(s) == "STANDARD"@
}

/// The first of the declared text styles, in the order `str` sorts by,
/// that is named `STANDARD` in any case.
pub open spec fn standard_style(styles: Seq<Seq<char>>) -> Option<Seq<char>>
    decreases styles.len(),
{
    if styles.len() == 0 {
        None
    } else {
        let rest = standard_style(styles.drop_last());
        let s = styles.last();
        if is_standard(s) {
            match rest {
                Some(r) => if lex_lt(s, r) {
                    Some(s)
                } else {
                    Some(r)
                },
                None => Some(s),
            }
        } else {
            rest
        }
    }
}

/// A text's style (DXF 7), resolved against the STYLE table. The file names
/// no style when the text is in the reference's default one, the style
/// named `STANDARD`; that entry is looked up without regard to case, and a
/// drawing that declares none leaves the reference absent.
pub open spec fn text_style_resolved(r: RefView, styles: Seq<Seq<char>>) -> RefView {
    match r {
        RefView::Absent => match standard_style(styles) {
            Some(s) => RefView::Resolved(s),
            None => RefView::Absent,
        },
        _ => resolved_in(r, styles),
    }
}

/// The declared style named `STANDARD` in any case, least in `str` order.
fn standard(styles: &Vec<String>) -> (r: Option<String>)
    ensures
        match standard_style(name_views(styles@)) {
            Some(s) => r matches Some(x) && x@ == s,
            None => r is None,
        },
{
    let ghost nv = name_views(styles@);
    let mut best: Option<String> = None;
    let mut i: usize = 0;
    while i < styles.len()
        invariant
            nv == name_views(styles@),
            i <= styles@.len(),
            match standard_style(nv.subrange(0, i as int)) {
                Some(s) => best matches Some(x) && x@ == s,
                None => best is None,
            },
        decreases styles@.len() - i,
    {
        let s = &styles[i];
        proof {
            assert(nv.subrange(0, i + 1).drop_last() =~= nv.subrange(0, i as int));
            assert(nv.subrange(0, i + 1).last() == s@);
        }
        let upper = to_ascii_uppercase(s.as_str());
        if str_eq(upper.as_str(), "STANDARD") {
            best = match best {
                Some(b) => {
                    if !str_ge(s.as_str(), b.as_str()) {
                        Some(s.clone())
                    } else {
                        Some(b)
                    }
                },
                None => Some(s.clone()),
            };
        }
        i = i + 1;
    }
    assert(nv.subrange(0, i as int) =~= nv);
    best
}

/// A text's style resolved against the STYLE table (see
/// `text_style_resolved`).
pub fn resolve_text_style(r: NameRef, styles: &Vec<String>) -> (out: NameRef)
    ensures
        out@ == text_style_resolved(r@, name_views(styles@)),
{
    match r {
        NameRef::Absent => match standard(styles) {
            Some(s) => NameRef::Resolved(s),
            None => NameRef::Absent,
        },
        other => resolve_name(other, styles),
    }
}

/// The value the last entry for `key` in `entries` gives it: a table read
/// into a map, where a later entry of the same key replaces an earlier.
pub open spec fn last_value(entries: Seq<(Seq<char>, Seq<char>)>, key: Seq<char>) -> Option<Seq<char>>
    decreases entries.len(),
{
    if entries.len() == 0 {
        None
    } else if entries.last().0 == key {
        Some(entries.last().1)
    } else {
        last_value(entries.drop_last(), key)
    }
}

/// The value the last entry for `key` gives it (see `last_value`).
pub fn lookup(entries: &Vec<(String, String)>, key: &str) -> (r: Option<String>)
    ensures
        match last_value(pair_views(entries@), key@) {
            Some(v) => r matches Some(x) && x@ == v,
            None => r is None,
        },
{
    let ghost pv = pair_views(entries@);
    let mut i: usize = entries.len();
    assert(pv.subrange(0, i as int) =~= pv);
    while i > 0
        invariant
            pv == pair_views(entries@),
            i <= entries@.len(),
            last_value(pv, key@) == last_value(pv.subrange(0, i as int), key@),
        decreases i,
    {
        let e = &entries[i - 1];
        proof {
            assert(pv.subrange(0, i as int).last() == (e.0@, e.1@));
            assert(pv.subrange(0, i as int).drop_last() =~= pv.subrange(0, i - 1));
        }
        if str_eq(e.0.as_str(), key) {
            return Some(e.1.clone());
        }
        i = i - 1;
    }
    None
}

/// A layout's block, named by its BLOCK_RECORD's handle: the record's name
/// when the table declares the handle -- resolved when a block of that name
/// was read, unresolved and carrying it when none was -- and the handle
/// itself, unresolved, when the table does not.
pub open spec fn block_record_resolved(
    r: RefView,
    handles: Seq<(Seq<char>, Seq<char>)>,
    blocks: Seq<Seq<char>>,
) -> RefView {
    match r {
        RefView::Unresolved(h) => match last_value(handles, h) {
            Some(name) => if blocks.contains(name) {
                RefView::Resolved(name)
            } else {
                RefView::Unresolved(name)
            },
            None => r,
        },
        _ => r,
    }
}

/// A layout's block resolved through the BLOCK_RECORD table (see
/// `block_record_resolved`).
pub fn resolve_block_record(r: NameRef, handles: &Vec<(String, String)>, blocks: &Vec<String>) -> (out:
    NameRef)
    ensures
        out@ == block_record_resolved(r@, pair_views(handles@), name_views(blocks@)),
{
    match r {
        NameRef::Unresolved(h) => match lookup(handles, h.as_str()) {
            Some(name) => {
                if contains(blocks, name.as_str()) {
                    NameRef::Resolved(name)
                } else {
                    NameRef::Unresolved(name)
                }
            },
            None => NameRef::Unresolved(h),
        },
        other => other,
    }
}

/// A layer a viewport freezes, named by its LAYER record's handle: the
/// layer's name, resolved, when the table declares the handle.
pub open spec fn frozen_layer_resolved(r: RefView, handles: Seq<(Seq<char>, Seq<char>)>) -> RefView {
    match r {
        RefView::Unresolved(h) => match last_value(handles, h) {
            Some(name) => RefView::Resolved(name),
            None => r,
        },
        _ => r,
    }
}

/// A frozen layer resolved through the layer handles (see
/// `frozen_layer_resolved`).
pub fn resolve_frozen_layer(r: NameRef, handles: &Vec<(String, String)>) -> (out: NameRef)
    ensures
        out@ == frozen_layer_resolved(r@, pair_views(handles@)),
{
    match r {
        NameRef::Unresolved(h) => match lookup(handles, h.as_str()) {
            Some(name) => NameRef::Resolved(name),
            None => NameRef::Unresolved(h),
        },
        other => other,
    }
}

/// A reference to another entity by the handle the file writes.
#[derive(Debug, Clone, PartialEq, Eq)]
pub enum EntityRef {
    Absent,
    Unresolved(String),
    Resolved(u64),
}

pub enum EntityRefView {
    Absent,
    Unresolved(Seq<char>),
    Resolved(u64),
}

impl View for EntityRef {
    type V = EntityRefView;

    open spec fn view(&self) -> EntityRefView {
        match self {
            EntityRef::Absent => EntityRefView::Absent,
            EntityRef::Unresolved(h) => EntityRefView::Unresolved(h@),
            EntityRef::Resolved(id) => EntityRefView::Resolved(*id),
        }
    }
}

/// A handle the file wrote becomes a resolved reference when an entity of
/// the drawing carries it -- an entity's ID is its handle read as a
/// hexadecimal number -- and stays unresolved, carrying the handle, when
/// none does.
pub open spec fn entity_resolved(r: EntityRefView, ids: Seq<u64>) -> EntityRefView {
    match r {
        EntityRefView::Unresolved(h) => match hex_u64(vstd::utf8::encode_utf8(h)) {
            Some(v) => if ids.contains(v as u64) {
                EntityRefView::Resolved(v as u64)
            } else {
                r
            },
            None => r,
        },
        _ => r,
    }
}

fn contains_id(ids: &Vec<u64>, v: u64) -> (r: bool)
    ensures
        r == ids@.contains(v),
{
    let mut i: usize = 0;
    while i < ids.len()
        invariant
            i <= ids@.len(),
            forall|j: int| 0 <= j < i ==> ids@[j] != v,
        decreases ids@.len() - i,
    {
        if ids[i] == v {
            assert(ids@[i as int] == v);
            return true;
        }
        i = i + 1;
    }
    false
}

/// An entity reference resolved against the IDs of the drawing's entities
/// (see `entity_resolved`).
pub fn resolve_entity(r: EntityRef, ids: &Vec<u64>) -> (out: EntityRef)
    ensures
        out@ == entity_resolved(r@, ids@),
{
    match r {
        EntityRef::Unresolved(h) => {
            match parse_hex(h.as_str().as_bytes()) {
                Some(v) => {
                    if contains_id(ids, v) {
                        EntityRef::Resolved(v)
                    } else {
                        EntityRef::Unresolved(h)
                    }
                },
                None => EntityRef::Unresolved(h),
            }
        },
        other => other,
    }
}

/// `*Model_Space` and every `*Paper_Space*` layout block, in any case.
pub open spec fn is_space_name(name: Seq<char>) -> bool {
    let n = ascii_uppercase(name);
    n == "*MODEL_SPACE"@ || (n.len() >= 12 && n.subrange(0, 12) == "*PAPER_SPACE"@)
}

/// `*Model_Space` and every `*Paper_Space*` layout block: the blocks whose
/// entities are the drawing's own.
pub fn is_space(name: &str) -> (r: bool)
    ensures
        r == is_space_name(name@),
{
    let upper = to_ascii_uppercase(name);
    let n = upper.as_str();
    if str_eq(n, "*MODEL_SPACE") {
        return true;
    }
    let len = n.unicode_len();
    len >= 12 && str_eq(n.substring_char(0, 12), "*PAPER_SPACE")
}

/// The names the tables and sections of a drawing declare, which its
/// references resolve against.
pub struct Names {
    pub layers: Vec<String>,
    pub layer_handles: Vec<(String, String)>,
    pub linetypes: Vec<String>,
    pub text_styles: Vec<String>,
    pub dim_styles: Vec<String>,
    pub mlinestyles: Vec<String>,
    pub blocks: Vec<String>,
    pub block_record_handles: Vec<(String, String)>,
}

/// The names the items declare: dimension styles, multiline styles, and the
/// blocks -- a BLOCK definition's, and each block an entity was placed in.
pub open spec fn item_names(items: Seq<ItemView>) -> (Seq<Seq<char>>, Seq<Seq<char>>, Seq<Seq<char>>)
    decreases items.len(),
{
    if items.len() == 0 {
        (Seq::empty(), Seq::empty(), Seq::empty())
    } else {
        let (d, m, b) = item_names(items.drop_last());
        match items.last() {
            ItemView::DimStyle { name, .. } => (d.push(name), m, b),
            ItemView::MLineStyle { name, .. } => (d, m.push(name), b),
            ItemView::Entity(g) => (d, m, b.push(g.block)),
            ItemView::BlockEnd { name, .. } => (d, m, b.push(name)),
            ItemView::Layout { .. } | ItemView::ImageDef { .. } => (d, m, b),
        }
    }
}

/// The names a drawing's references resolve against, as the contracts
/// speak of them.
pub struct NamesView {
    pub layers: Seq<Seq<char>>,
    pub layer_handles: Seq<(Seq<char>, Seq<char>)>,
    pub linetypes: Seq<Seq<char>>,
    pub text_styles: Seq<Seq<char>>,
    pub dim_styles: Seq<Seq<char>>,
    pub mlinestyles: Seq<Seq<char>>,
    pub blocks: Seq<Seq<char>>,
    pub block_record_handles: Seq<(Seq<char>, Seq<char>)>,
}

/// The names an outline declares: its tables' entries, and the names its
/// items declare (see `item_names`).
pub open spec fn names_of(o: OutlineView) -> NamesView {
    let (d, m, b) = item_names(o.items);
    NamesView {
        layers: o.layers.map_values(|l: LayerView| l.name),
        layer_handles: o.layer_handles,
        linetypes: o.linetypes,
        text_styles: o.text_styles,
        dim_styles: d,
        mlinestyles: m,
        blocks: b,
        block_record_handles: o.block_record_handles,
    }
}

impl View for Names {
    type V = NamesView;

    open spec fn view(&self) -> NamesView {
        NamesView {
            layers: name_views(self.layers@),
            layer_handles: pair_views(self.layer_handles@),
            linetypes: name_views(self.linetypes@),
            text_styles: name_views(self.text_styles@),
            dim_styles: name_views(self.dim_styles@),
            mlinestyles: name_views(self.mlinestyles@),
            blocks: name_views(self.blocks@),
            block_record_handles: pair_views(self.block_record_handles@),
        }
    }
}

fn copy_names(v: &Vec<String>) -> (r: Vec<String>)
    ensures
        name_views(r@) == name_views(v@),
{
    let mut r: Vec<String> = Vec::new();
    let mut i: usize = 0;
    while i < v.len()
        invariant
            i <= v@.len(),
            name_views(r@) == name_views(v@.subrange(0, i as int)),
        decreases v@.len() - i,
    {
        let ghost before = r@;
        let c = v[i].clone();
        assert(c@ == v@[i as int]@);
        r.push(c);
        assert(v@.subrange(0, i + 1) =~= v@.subrange(0, i as int).push(v@[i as int]));
        assert(name_views(r@) =~= name_views(before).push(c@));
        assert(name_views(v@.subrange(0, i + 1)) =~= name_views(v@.subrange(0, i as int)).push(
            c@,
        ));
        i = i + 1;
    }
    assert(v@.subrange(0, i as int) =~= v@);
    r
}

fn copy_pairs(v: &Vec<(String, String)>) -> (r: Vec<(String, String)>)
    ensures
        pair_views(r@) == pair_views(v@),
{
    let mut r: Vec<(String, String)> = Vec::new();
    let mut i: usize = 0;
    while i < v.len()
        invariant
            i <= v@.len(),
            pair_views(r@) == pair_views(v@.subrange(0, i as int)),
        decreases v@.len() - i,
    {
        let ghost before = r@;
        let e = &v[i];
        let c = (e.0.clone(), e.1.clone());
        assert((c.0@, c.1@) == (v@[i as int].0@, v@[i as int].1@));
        r.push(c);
        assert(v@.subrange(0, i + 1) =~= v@.subrange(0, i as int).push(v@[i as int]));
        assert(pair_views(r@) =~= pair_views(before).push((c.0@, c.1@)));
        assert(pair_views(v@.subrange(0, i + 1)) =~= pair_views(v@.subrange(0, i as int)).push(
            (c.0@, c.1@),
        ));
        i = i + 1;
    }
    assert(v@.subrange(0, i as int) =~= v@);
    r
}

/// The names an outline declares (see `names_of`).
pub fn names(o: &Outline) -> (r: Names)
    ensures
        r@ == names_of(o@),
{
    let ghost ov = o@;
    let mut layers: Vec<String> = Vec::new();
    let mut i: usize = 0;
    while i < o.layers.len()
        invariant
            ov == o@,
            i <= o.layers@.len(),
            name_views(layers@) == ov.layers.subrange(0, i as int).map_values(|l: LayerView| l.name),
        decreases o.layers@.len() - i,
    {
        let ghost before = layers@;
        let c = o.layers[i].name.clone();
        assert(c@ == ov.layers[i as int].name);
        layers.push(c);
        assert(ov.layers.subrange(0, i + 1) =~= ov.layers.subrange(0, i as int).push(
            ov.layers[i as int],
        ));
        assert(name_views(layers@) =~= name_views(before).push(c@));
        assert(ov.layers.subrange(0, i + 1).map_values(|l: LayerView| l.name) =~= ov.layers.subrange(
            0,
            i as int,
        ).map_values(|l: LayerView| l.name).push(c@));
        i = i + 1;
    }
    assert(ov.layers.subrange(0, i as int) =~= ov.layers);
    let mut dim_styles: Vec<String> = Vec::new();
    let mut mlinestyles: Vec<String> = Vec::new();
    let mut blocks: Vec<String> = Vec::new();
    let mut j: usize = 0;
    while j < o.items.len()
        invariant
            ov == o@,
            j <= o.items@.len(),
            (name_views(dim_styles@), name_views(mlinestyles@), name_views(blocks@)) == item_names(
                ov.items.subrange(0, j as int),
            ),
        decreases o.items@.len() - j,
    {
        proof {
            assert(ov.items.subrange(0, j + 1).drop_last() =~= ov.items.subrange(0, j as int));
            assert(ov.items.subrange(0, j + 1).last() == o.items@[j as int]@);
        }
        match &o.items[j] {
            Item::DimStyle { name, .. } => {
                dim_styles.push(name.clone());
            },
            Item::MLineStyle { name, .. } => {
                mlinestyles.push(name.clone());
            },
            Item::Entity(g) => {
                blocks.push(g.block.clone());
            },
            Item::BlockEnd { name, .. } => {
                blocks.push(name.clone());
            },
            Item::Layout { .. } | Item::ImageDef { .. } => {},
        }
        assert(name_views(dim_styles@) =~= item_names(ov.items.subrange(0, j + 1)).0);
        assert(name_views(mlinestyles@) =~= item_names(ov.items.subrange(0, j + 1)).1);
        assert(name_views(blocks@) =~= item_names(ov.items.subrange(0, j + 1)).2);
        j = j + 1;
    }
    assert(ov.items.subrange(0, j as int) =~= ov.items);
    Names {
        layers,
        layer_handles: copy_pairs(&o.layer_handles),
        linetypes: copy_names(&o.linetypes),
        text_styles: copy_names(&o.text_styles),
        dim_styles,
        mlinestyles,
        blocks,
        block_record_handles: copy_pairs(&o.block_record_handles),
    }
}

/// The names one entity writes, each kind by the rule it resolves by: its
/// layer; its linetype, text style, dimension style, multiline style and
/// block, where the entity has such a reference; the layers it freezes, by
/// their handles; and the layer and text style of each of its attributes.
#[derive(Debug, Clone, PartialEq, Eq)]
pub struct EntityNames {
    pub layer: NameRef,
    pub linetype: Option<NameRef>,
    pub text_style: Option<NameRef>,
    pub dim_style: Option<NameRef>,
    pub mline_style: Option<NameRef>,
    pub block: Option<NameRef>,
    pub frozen_layers: Vec<NameRef>,
    pub attribute_layers: Vec<NameRef>,
    pub attribute_styles: Vec<NameRef>,
}

pub struct EntityNamesView {
    pub layer: RefView,
    pub linetype: Option<RefView>,
    pub text_style: Option<RefView>,
    pub dim_style: Option<RefView>,
    pub mline_style: Option<RefView>,
    pub block: Option<RefView>,
    pub frozen_layers: Seq<RefView>,
    pub attribute_layers: Seq<RefView>,
    pub attribute_styles: Seq<RefView>,
}

/// The views of references.
pub open spec fn ref_views(v: Seq<NameRef>) -> Seq<RefView> {
    v.map_values(|r: NameRef| r@)
}

/// The view of a reference an entity may have.
pub open spec fn opt_ref(r: Option<NameRef>) -> Option<RefView> {
    match r {
        Some(x) => Some(x@),
        None => None,
    }
}

impl View for EntityNames {
    type V = EntityNamesView;

    open spec fn view(&self) -> EntityNamesView {
        EntityNamesView {
            layer: self.layer@,
            linetype: opt_ref(self.linetype),
            text_style: opt_ref(self.text_style),
            dim_style: opt_ref(self.dim_style),
            mline_style: opt_ref(self.mline_style),
            block: opt_ref(self.block),
            frozen_layers: ref_views(self.frozen_layers@),
            attribute_layers: ref_views(self.attribute_layers@),
            attribute_styles: ref_views(self.attribute_styles@),
        }
    }
}

/// A reference the entity may have, resolved by `rule`.
pub open spec fn opt_resolved(r: Option<RefView>, rule: spec_fn(RefView) -> RefView) -> Option<RefView> {
    match r {
        Some(x) => Some(rule(x)),
        None => None,
    }
}

/// An entity's names resolved against what the drawing declares: the
/// layers and the attributes' layers against the LAYER table, the linetype
/// against the LTYPE table, the text styles against the STYLE table (an
/// absent one is the STANDARD style; see `text_style_resolved`), the
/// dimension style against the DIMSTYLE table, the multiline style against
/// the MLINESTYLE objects, the block against the blocks, and the frozen
/// layers through the LAYER records' handles. A name nothing declares stays
/// unresolved, carrying the name.
pub open spec fn entity_names_resolved(e: EntityNamesView, n: NamesView) -> EntityNamesView {
    EntityNamesView {
        layer: resolved_in(e.layer, n.layers),
        linetype: opt_resolved(e.linetype, |r: RefView| resolved_in(r, n.linetypes)),
        text_style: opt_resolved(e.text_style, |r: RefView| text_style_resolved(r, n.text_styles)),
        dim_style: opt_resolved(e.dim_style, |r: RefView| resolved_in(r, n.dim_styles)),
        mline_style: opt_resolved(e.mline_style, |r: RefView| resolved_in(r, n.mlinestyles)),
        block: opt_resolved(e.block, |r: RefView| resolved_in(r, n.blocks)),
        frozen_layers: e.frozen_layers.map_values(
            |r: RefView| frozen_layer_resolved(r, n.layer_handles),
        ),
        attribute_layers: e.attribute_layers.map_values(|r: RefView| resolved_in(r, n.layers)),
        attribute_styles: e.attribute_styles.map_values(
            |r: RefView| text_style_resolved(r, n.text_styles),
        ),
    }
}

/// A copy of a reference.
fn copy_ref(r: &NameRef) -> (c: NameRef)
    ensures
        c@ == r@,
{
    match r {
        NameRef::Absent => NameRef::Absent,
        NameRef::Unresolved(n) => NameRef::Unresolved(n.clone()),
        NameRef::Resolved(n) => NameRef::Resolved(n.clone()),
    }
}

/// Each of `rs` resolved against `declared` (see `resolved_in`).
fn resolve_all(rs: Vec<NameRef>, declared: &Vec<String>) -> (r: Vec<NameRef>)
    ensures
        ref_views(r@) == ref_views(rs@).map_values(|x: RefView| resolved_in(x, name_views(declared@))),
{
    let mut out: Vec<NameRef> = Vec::new();
    let mut i: usize = 0;
    while i < rs.len()
        invariant
            i <= rs@.len(),
            ref_views(out@) == ref_views(rs@.subrange(0, i as int)).map_values(
                |x: RefView| resolved_in(x, name_views(declared@)),
            ),
        decreases rs@.len() - i,
    {
        let ghost before = out@;
        let x = resolve_name(copy_ref(&rs[i]), declared);
        out.push(x);
        assert(rs@.subrange(0, i + 1) =~= rs@.subrange(0, i as int).push(rs@[i as int]));
        assert(ref_views(out@) =~= ref_views(before).push(x@));
        assert(ref_views(rs@.subrange(0, i + 1)).map_values(
            |x: RefView| resolved_in(x, name_views(declared@)),
        ) =~= ref_views(rs@.subrange(0, i as int)).map_values(
            |x: RefView| resolved_in(x, name_views(declared@)),
        ).push(x@));
        i = i + 1;
    }
    assert(rs@.subrange(0, i as int) =~= rs@);
    out
}

/// Each of `rs` resolved as a text style (see `text_style_resolved`).
fn resolve_styles(rs: Vec<NameRef>, styles: &Vec<String>) -> (r: Vec<NameRef>)
    ensures
        ref_views(r@) == ref_views(rs@).map_values(|x: RefView| text_style_resolved(x, name_views(styles@))),
{
    let mut out: Vec<NameRef> = Vec::new();
    let mut i: usize = 0;
    while i < rs.len()
        invariant
            i <= rs@.len(),
            ref_views(out@) == ref_views(rs@.subrange(0, i as int)).map_values(
                |x: RefView| text_style_resolved(x, name_views(styles@)),
            ),
        decreases rs@.len() - i,
    {
        let ghost before = out@;
        let x = resolve_text_style(copy_ref(&rs[i]), styles);
        out.push(x);
        assert(rs@.subrange(0, i + 1) =~= rs@.subrange(0, i as int).push(rs@[i as int]));
        assert(ref_views(out@) =~= ref_views(before).push(x@));
        assert(ref_views(rs@.subrange(0, i + 1)).map_values(
            |x: RefView| text_style_resolved(x, name_views(styles@)),
        ) =~= ref_views(rs@.subrange(0, i as int)).map_values(
            |x: RefView| text_style_resolved(x, name_views(styles@)),
        ).push(x@));
        i = i + 1;
    }
    assert(rs@.subrange(0, i as int) =~= rs@);
    out
}

/// Each of `rs` resolved through the layer handles (see
/// `frozen_layer_resolved`).
fn resolve_frozen(rs: Vec<NameRef>, handles: &Vec<(String, String)>) -> (r: Vec<NameRef>)
    ensures
        ref_views(r@) == ref_views(rs@).map_values(|x: RefView| frozen_layer_resolved(x, pair_views(handles@))),
{
    let mut out: Vec<NameRef> = Vec::new();
    let mut i: usize = 0;
    while i < rs.len()
        invariant
            i <= rs@.len(),
            ref_views(out@) == ref_views(rs@.subrange(0, i as int)).map_values(
                |x: RefView| frozen_layer_resolved(x, pair_views(handles@)),
            ),
        decreases rs@.len() - i,
    {
        let ghost before = out@;
        let x = resolve_frozen_layer(copy_ref(&rs[i]), handles);
        out.push(x);
        assert(rs@.subrange(0, i + 1) =~= rs@.subrange(0, i as int).push(rs@[i as int]));
        assert(ref_views(out@) =~= ref_views(before).push(x@));
        assert(ref_views(rs@.subrange(0, i + 1)).map_values(
            |x: RefView| frozen_layer_resolved(x, pair_views(handles@)),
        ) =~= ref_views(rs@.subrange(0, i as int)).map_values(
            |x: RefView| frozen_layer_resolved(x, pair_views(handles@)),
        ).push(x@));
        i = i + 1;
    }
    assert(rs@.subrange(0, i as int) =~= rs@);
    out
}

/// An entity's names resolved against what the drawing declares (see
/// `entity_names_resolved`).
pub fn resolve_entity_names(e: EntityNames, names: &Names) -> (r: EntityNames)
    ensures
        r@ == entity_names_resolved(e@, names@),
{
    let ghost ev = e@;
    let linetype = match e.linetype {
        Some(x) => Some(resolve_name(x, &names.linetypes)),
        None => None,
    };
    let text_style = match e.text_style {
        Some(x) => Some(resolve_text_style(x, &names.text_styles)),
        None => None,
    };
    let dim_style = match e.dim_style {
        Some(x) => Some(resolve_name(x, &names.dim_styles)),
        None => None,
    };
    let mline_style = match e.mline_style {
        Some(x) => Some(resolve_name(x, &names.mlinestyles)),
        None => None,
    };
    let block = match e.block {
        Some(x) => Some(resolve_name(x, &names.blocks)),
        None => None,
    };
    let r = EntityNames {
        layer: resolve_name(e.layer, &names.layers),
        linetype,
        text_style,
        dim_style,
        mline_style,
        block,
        frozen_layers: resolve_frozen(e.frozen_layers, &names.layer_handles),
        attribute_layers: resolve_all(e.attribute_layers, &names.layers),
        attribute_styles: resolve_styles(e.attribute_styles, &names.text_styles),
    };
    assert(r@.frozen_layers =~= entity_names_resolved(ev, names@).frozen_layers);
    assert(r@.attribute_layers =~= entity_names_resolved(ev, names@).attribute_layers);
    assert(r@.attribute_styles =~= entity_names_resolved(ev, names@).attribute_styles);
    r
}

} // verus!
