//! Sections and records: HEADER, TABLES, BLOCKS, ENTITIES and OBJECTS, read
//! pair by pair into an outline of the drawing -- the tables whose entries
//! are names and integers, and, in file order, the records whose values
//! the model carries as numbers (dimension styles, multiline styles,
//! layouts and entities, each with the chain of records that belongs to
//! it).
//!
//! The reading is a machine over the pairs: `step` takes one pair in the
//! mode the pairs before it left, `at_end` says what the end of the text
//! means in each mode, and `run` is the whole of it.

use vstd::prelude::*;
use crate::decode::{lex_lt, str_ge, string, stored};
use crate::pairs::{views, Pair, PairView, ReadError, ReadErrorView};
use crate::record::{
    common_end, common_part, find, first_index, int_field, int_group, layer, layer_of, own_end,
    own_part, text, LayerRecord, LayerView,
};
use crate::text::{ascii_uppercase, concat, owned, str_eq, to_ascii_uppercase, trim, trimmed};

verus! {

/// Which space an entity of the ENTITIES section belongs to (DXF 67).
#[derive(Debug, Clone, Copy, PartialEq, Eq)]
pub enum Space {
    Model,
    Paper,
}

/// The tables whose entries the outline reads.
#[derive(Debug, Clone, Copy, PartialEq, Eq)]
pub enum TableKind {
    Layer,
    LineType,
    TextStyle,
    BlockRecord,
    DimStyle,
}

/// Where the reading is: which section, table or record the next pair
/// belongs to. A mode that carries an index is inside the record that
/// starts there.
#[derive(Debug, Clone, Copy, PartialEq, Eq)]
pub enum Mode {
    Top,
    SectionName,
    SkipSection,
    SkipTable,
    Header,
    HeaderValue,
    Tables,
    TableName,
    Table(TableKind),
    TableRecord(TableKind, usize),
    Objects,
    MLineStyleRecord(usize),
    LayoutRecord(usize),
    ImageDefRecord(usize),
    Blocks,
    BlockHeader(usize),
    InBlock,
    BlockTail,
    Entities,
    GroupRecord(usize),
    Chain,
    ChainMember(usize),
    SeqEnd,
    Done,
}

/// A record of an entity's chain -- a VERTEX of a POLYLINE, an ATTRIB of an
/// INSERT: its pairs `start..end`, and its ordinal.
#[derive(Debug, Clone, Copy, PartialEq, Eq)]
pub struct Member {
    pub start: usize,
    pub end: usize,
    pub ordinal: u64,
}

/// An entity: its `0` pair `head`, its record `start..end`, its ordinal
/// among the entities read (which names a handle-less one), the space its
/// group 67 puts it in, the block it belongs to, and its chain.
#[derive(Debug, Clone, PartialEq, Eq)]
pub struct Group {
    pub head: usize,
    pub start: usize,
    pub end: usize,
    pub ordinal: u64,
    pub space: Space,
    pub block: String,
    pub members: Vec<Member>,
}

/// A record whose values the model carries as numbers, in file order.
#[derive(Debug, Clone, PartialEq, Eq)]
pub enum Item {
    /// A DIMSTYLE entry with its name; `r2000` when the header declared
    /// R2000 or later before the table.
    DimStyle { name: String, start: usize, end: usize, r2000: bool },
    /// An MLINESTYLE object with its name.
    MLineStyle { name: String, start: usize, end: usize },
    /// A LAYOUT object.
    Layout { start: usize, end: usize },
    /// An IMAGEDEF object.
    ImageDef { start: usize, end: usize },
    /// An entity and its chain.
    Entity(Group),
    /// The end of a BLOCK definition, with the block's name and its header
    /// record `start..end`: its block record exists from here, with or
    /// without entities.
    BlockEnd { name: String, start: usize, end: usize },
}

/// What the reading collects: the version the header states, the entries
/// of the tables the model carries as names, each in file order (a later
/// entry of the same name is the one that counts), and the items.
#[derive(Debug, Clone, PartialEq, Eq)]
pub struct Outline {
    /// `$ACADVER`, trimmed, where the header states it.
    pub version: Option<String>,
    pub layers: Vec<LayerRecord>,
    /// A LAYER record's handle (upper case) and its name.
    pub layer_handles: Vec<(String, String)>,
    pub linetypes: Vec<String>,
    pub text_styles: Vec<String>,
    /// A BLOCK_RECORD's handle (upper case) and its name.
    pub block_record_handles: Vec<(String, String)>,
    pub items: Vec<Item>,
}

pub struct GroupView {
    pub head: usize,
    pub start: usize,
    pub end: usize,
    pub ordinal: u64,
    pub space: Space,
    pub block: Seq<char>,
    pub members: Seq<Member>,
}

pub enum ItemView {
    DimStyle { name: Seq<char>, start: usize, end: usize, r2000: bool },
    MLineStyle { name: Seq<char>, start: usize, end: usize },
    Layout { start: usize, end: usize },
    ImageDef { start: usize, end: usize },
    Entity(GroupView),
    BlockEnd { name: Seq<char>, start: usize, end: usize },
}

pub struct OutlineView {
    pub version: Option<Seq<char>>,
    pub layers: Seq<LayerView>,
    pub layer_handles: Seq<(Seq<char>, Seq<char>)>,
    pub linetypes: Seq<Seq<char>>,
    pub text_styles: Seq<Seq<char>>,
    pub block_record_handles: Seq<(Seq<char>, Seq<char>)>,
    pub items: Seq<ItemView>,
}

impl View for Group {
    type V = GroupView;

    open spec fn view(&self) -> GroupView {
        GroupView {
            head: self.head,
            start: self.start,
            end: self.end,
            ordinal: self.ordinal,
            space: self.space,
            block: self.block@,
            members: self.members@,
        }
    }
}

impl View for Item {
    type V = ItemView;

    open spec fn view(&self) -> ItemView {
        match self {
            Item::DimStyle { name, start, end, r2000 } => ItemView::DimStyle {
                name: name@,
                start: *start,
                end: *end,
                r2000: *r2000,
            },
            Item::MLineStyle { name, start, end } => ItemView::MLineStyle {
                name: name@,
                start: *start,
                end: *end,
            },
            Item::Layout { start, end } => ItemView::Layout { start: *start, end: *end },
            Item::ImageDef { start, end } => ItemView::ImageDef { start: *start, end: *end },
            Item::Entity(g) => ItemView::Entity(g@),
            Item::BlockEnd { name, start, end } => ItemView::BlockEnd {
                name: name@,
                start: *start,
                end: *end,
            },
        }
    }
}

pub open spec fn pair_views(v: Seq<(String, String)>) -> Seq<(Seq<char>, Seq<char>)> {
    v.map_values(|p: (String, String)| (p.0@, p.1@))
}

pub open spec fn name_views(v: Seq<String>) -> Seq<Seq<char>> {
    v.map_values(|s: String| s@)
}

impl View for Outline {
    type V = OutlineView;

    open spec fn view(&self) -> OutlineView {
        OutlineView {
            version: match &self.version {
                Some(v) => Some(v@),
                None => None,
            },
            layers: self.layers@.map_values(|l: LayerRecord| l@),
            layer_handles: pair_views(self.layer_handles@),
            linetypes: name_views(self.linetypes@),
            text_styles: name_views(self.text_styles@),
            block_record_handles: pair_views(self.block_record_handles@),
            items: self.items@.map_values(|i: Item| i@),
        }
    }
}

/// The reading between two pairs.
pub struct ReaderView {
    pub mode: Mode,
    /// How many entities (chain records included) have been read.
    pub ordinal: u64,
    /// `$ACADVER`, once the HEADER has stated it.
    pub version: Option<Seq<char>>,
    /// The name of the BLOCK being read.
    pub block: Seq<char>,
    /// The header record `start..end` of the BLOCK being read.
    pub header: (usize, usize),
    /// Whether the entity being read is inside a BLOCK (else in ENTITIES).
    pub in_block: bool,
    /// Whether the chain of the entity being read is VERTEXes (else
    /// ATTRIBs).
    pub vertices: bool,
    /// The entity being read.
    pub group: GroupView,
    pub out: OutlineView,
}

pub open spec fn structure_error(line: nat, detail: Seq<char>) -> ReadErrorView {
    ReadErrorView::Structure { line, detail }
}

/// The last line of the text the pairs `ps` were read from: the value
/// line of the last pair, the one after its group code's; line 1 where
/// there is no pair.
pub open spec fn text_end_line(ps: Seq<PairView>) -> nat {
    if ps.len() == 0 {
        1
    } else if ps.last().line < usize::MAX {
        ps.last().line + 1
    } else {
        ps.last().line
    }
}

/// The line an error at pair `k` names: that of the pair after it, or the
/// text's last line where there is none.
pub open spec fn next_line(ps: Seq<PairView>, k: nat) -> nat {
    if k + 1 < ps.len() {
        ps[k + 1 as int].line
    } else {
        text_end_line(ps)
    }
}

pub open spec fn is_zero(p: PairView, value: Seq<char>) -> bool {
    p.code == 0 && p.value == value
}

pub open spec fn table_name(kind: TableKind) -> Seq<char> {
    match kind {
        TableKind::Layer => "LAYER"@,
        TableKind::LineType => "LTYPE"@,
        TableKind::TextStyle => "STYLE"@,
        TableKind::BlockRecord => "BLOCK_RECORD"@,
        TableKind::DimStyle => "DIMSTYLE"@,
    }
}

pub open spec fn with_mode(s: ReaderView, mode: Mode) -> ReaderView {
    ReaderView { mode, ..s }
}

pub open spec fn with_out(s: ReaderView, out: OutlineView) -> ReaderView {
    ReaderView { out, ..s }
}

pub open spec fn add_item(s: ReaderView, item: ItemView) -> ReaderView {
    with_out(s, OutlineView { items: s.out.items.push(item), ..s.out })
}

/// A pair at the top level: `0/SECTION` opens a section, `0/EOF` ends the
/// drawing, any other `0` is out of place, and the rest is stray.
pub open spec fn top_pair(s: ReaderView, p: PairView, nl: nat) -> Result<ReaderView, ReadErrorView> {
    if p.code == 0 {
        if p.value == "EOF"@ {
            Ok(with_mode(s, Mode::Done))
        } else if p.value == "SECTION"@ {
            Ok(with_mode(s, Mode::SectionName))
        } else {
            Err(
                structure_error(
                    nl,
                    "expected 0/SECTION or 0/EOF at the top level, found 0/"@ + p.value,
                ),
            )
        }
    } else {
        Ok(s)
    }
}

/// The pair after `0/SECTION`: its name, which says how the section is
/// read; CLASSES, THUMBNAILIMAGE and the like are skipped.
pub open spec fn section_name_pair(s: ReaderView, p: PairView, nl: nat) -> Result<
    ReaderView,
    ReadErrorView,
> {
    if p.code == 2 {
        Ok(
            with_mode(
                s,
                if p.value == "HEADER"@ {
                    Mode::Header
                } else if p.value == "TABLES"@ {
                    Mode::Tables
                } else if p.value == "BLOCKS"@ {
                    Mode::Blocks
                } else if p.value == "ENTITIES"@ {
                    Mode::Entities
                } else if p.value == "OBJECTS"@ {
                    Mode::Objects
                } else {
                    Mode::SkipSection
                },
            ),
        )
    } else {
        Err(structure_error(nl, "0/SECTION without a 2/name"@))
    }
}

/// A pair of the HEADER section: `0/ENDSEC` ends it, and the value after a
/// `9/$ACADVER` is the version.
pub open spec fn header_pair(s: ReaderView, p: PairView) -> ReaderView {
    if is_zero(p, "ENDSEC"@) {
        with_mode(s, Mode::Top)
    } else if p.code == 9 && p.value == "$ACADVER"@ {
        with_mode(s, Mode::HeaderValue)
    } else {
        with_mode(s, Mode::Header)
    }
}

/// The pair after `9/$ACADVER`: unless it is a group 9 or 0, its value,
/// trimmed, is the version; either way it is then a HEADER pair.
pub open spec fn header_value_pair(s: ReaderView, p: PairView) -> ReaderView {
    let t = if p.code != 9 && p.code != 0 {
        let v = Some(trimmed(p.value));
        ReaderView { version: v, out: OutlineView { version: v, ..s.out }, ..s }
    } else {
        s
    };
    header_pair(t, p)
}

/// A pair of the TABLES section between tables.
pub open spec fn tables_pair(s: ReaderView, p: PairView) -> ReaderView {
    if is_zero(p, "ENDSEC"@) {
        with_mode(s, Mode::Top)
    } else if is_zero(p, "TABLE"@) {
        with_mode(s, Mode::TableName)
    } else {
        s
    }
}

/// The pair after `0/TABLE`: the table's name.
pub open spec fn table_name_pair(s: ReaderView, p: PairView, nl: nat) -> Result<
    ReaderView,
    ReadErrorView,
> {
    if p.code == 2 {
        Ok(
            with_mode(
                s,
                if p.value == "LAYER"@ {
                    Mode::Table(TableKind::Layer)
                } else if p.value == "DIMSTYLE"@ {
                    Mode::Table(TableKind::DimStyle)
                } else if p.value == "LTYPE"@ {
                    Mode::Table(TableKind::LineType)
                } else if p.value == "STYLE"@ {
                    Mode::Table(TableKind::TextStyle)
                } else if p.value == "BLOCK_RECORD"@ {
                    Mode::Table(TableKind::BlockRecord)
                } else {
                    Mode::SkipTable
                },
            ),
        )
    } else {
        Err(structure_error(nl, "0/TABLE without a 2/name"@))
    }
}

/// A pair of a table between its records: `0/ENDTAB` ends it, and a `0`
/// named like the table opens an entry's record.
pub open spec fn table_pair(s: ReaderView, kind: TableKind, p: PairView, k: nat) -> ReaderView {
    if is_zero(p, "ENDTAB"@) {
        with_mode(s, Mode::Tables)
    } else if is_zero(p, table_name(kind)) {
        with_mode(s, Mode::TableRecord(kind, (k + 1) as usize))
    } else {
        with_mode(s, Mode::Table(kind))
    }
}

/// The version `$ACADVER` states is R2000 (`AC1015`) or later.
pub open spec fn is_r2000(version: Option<Seq<char>>) -> bool {
    version is Some && !lex_lt(version.unwrap(), "AC1015"@)
}

/// A table entry's record `ps[start..end]` taken in: a layer whole, with
/// its handle; a linetype's or text style's name; a block record's handle
/// and name; a dimension style as an item. A record without a name (the
/// table's own header record) is nothing.
pub open spec fn table_record(
    s: ReaderView,
    kind: TableKind,
    ps: Seq<PairView>,
    start: nat,
    end: nat,
) -> Result<ReaderView, ReadErrorView> {
    match kind {
        TableKind::Layer => match layer_of(ps, start, end) {
            Err(e) => Err(e),
            Ok(None) => Ok(s),
            Ok(Some(l)) => {
                let handles = match first_index(ps, start, end, 5) {
                    Some(h) => s.out.layer_handles.push(
                        (ascii_uppercase(trimmed(ps[h as int].value)), l.name),
                    ),
                    None => s.out.layer_handles,
                };
                Ok(
                    with_out(
                        s,
                        OutlineView {
                            layers: s.out.layers.push(l),
                            layer_handles: handles,
                            ..s.out
                        },
                    ),
                )
            },
        },
        _ => match first_index(ps, start, end, 2) {
            None => Ok(s),
            Some(n) => {
                let name = stored(ps[n as int].value);
                Ok(
                    match kind {
                        TableKind::LineType => with_out(
                            s,
                            OutlineView { linetypes: s.out.linetypes.push(name), ..s.out },
                        ),
                        TableKind::TextStyle => with_out(
                            s,
                            OutlineView { text_styles: s.out.text_styles.push(name), ..s.out },
                        ),
                        TableKind::BlockRecord => match first_index(ps, start, end, 5) {
                            Some(h) => with_out(
                                s,
                                OutlineView {
                                    block_record_handles: s.out.block_record_handles.push(
                                        (ascii_uppercase(trimmed(ps[h as int].value)), name),
                                    ),
                                    ..s.out
                                },
                            ),
                            None => s,
                        },
                        _ => add_item(
                            s,
                            ItemView::DimStyle {
                                name,
                                start: start as usize,
                                end: end as usize,
                                r2000: is_r2000(s.version),
                            },
                        ),
                    },
                )
            },
        },
    }
}

/// A pair of the OBJECTS section between objects.
pub open spec fn objects_pair(s: ReaderView, p: PairView, k: nat) -> ReaderView {
    if is_zero(p, "ENDSEC"@) {
        with_mode(s, Mode::Top)
    } else if is_zero(p, "MLINESTYLE"@) {
        with_mode(s, Mode::MLineStyleRecord((k + 1) as usize))
    } else if is_zero(p, "LAYOUT"@) {
        with_mode(s, Mode::LayoutRecord((k + 1) as usize))
    } else if is_zero(p, "IMAGEDEF"@) {
        with_mode(s, Mode::ImageDefRecord((k + 1) as usize))
    } else {
        with_mode(s, Mode::Objects)
    }
}

/// An MLINESTYLE's record taken in: an item when it has a name.
pub open spec fn mlinestyle_record(s: ReaderView, ps: Seq<PairView>, start: nat, end: nat) -> ReaderView {
    match first_index(ps, start, end, 2) {
        None => s,
        Some(n) => add_item(
            s,
            ItemView::MLineStyle {
                name: stored(ps[n as int].value),
                start: start as usize,
                end: end as usize,
            },
        ),
    }
}

/// A pair of the BLOCKS section between blocks.
pub open spec fn blocks_pair(s: ReaderView, p: PairView, k: nat) -> ReaderView {
    if is_zero(p, "ENDSEC"@) {
        with_mode(s, Mode::Top)
    } else if is_zero(p, "BLOCK"@) {
        with_mode(s, Mode::BlockHeader((k + 1) as usize))
    } else {
        with_mode(s, Mode::Blocks)
    }
}

/// The name a BLOCK's header record gives it; none is the empty name.
pub open spec fn block_name(ps: Seq<PairView>, start: nat, end: nat) -> Seq<char> {
    match first_index(ps, start, end, 2) {
        Some(n) => stored(ps[n as int].value),
        None => Seq::empty(),
    }
}

/// An entity's `0` pair at `k`: its record starts after it, and it is the
/// next entity read.
pub open spec fn begin_group(s: ReaderView, k: nat) -> ReaderView {
    ReaderView {
        mode: Mode::GroupRecord((k + 1) as usize),
        ordinal: (s.ordinal + 1) as u64,
        group: GroupView {
            head: k as usize,
            start: (k + 1) as usize,
            end: (k + 1) as usize,
            ordinal: (s.ordinal + 1) as u64,
            space: Space::Model,
            block: s.block,
            members: Seq::empty(),
        },
        ..s
    }
}

/// A pair inside a BLOCK, between its entities: `0/ENDBLK` ends the block,
/// any other `0` is an entity of it.
pub open spec fn in_block_pair(s: ReaderView, p: PairView, k: nat) -> ReaderView {
    if is_zero(p, "ENDBLK"@) {
        with_mode(s, Mode::BlockTail)
    } else if p.code == 0 {
        begin_group(ReaderView { in_block: true, ..s }, k)
    } else {
        with_mode(s, Mode::InBlock)
    }
}

/// A pair of the ENTITIES section between entities.
pub open spec fn entities_pair(s: ReaderView, p: PairView, k: nat) -> ReaderView {
    if is_zero(p, "ENDSEC"@) {
        with_mode(s, Mode::Top)
    } else if p.code == 0 {
        begin_group(ReaderView { in_block: false, ..s }, k)
    } else {
        with_mode(s, Mode::Entities)
    }
}

/// Back to the BLOCK or the ENTITIES section the entity was read in.
pub open spec fn parent_pair(s: ReaderView, p: PairView, k: nat) -> ReaderView {
    if s.in_block {
        in_block_pair(s, p, k)
    } else {
        entities_pair(s, p, k)
    }
}

/// No entity: what the reading holds between entities.
pub open spec fn blank_group() -> GroupView {
    GroupView {
        head: 0,
        start: 0,
        end: 0,
        ordinal: 0,
        space: Space::Model,
        block: Seq::empty(),
        members: Seq::empty(),
    }
}

/// The entity being read, with its chain, is an item.
pub open spec fn emit_group(s: ReaderView) -> ReaderView {
    add_item(ReaderView { group: blank_group(), ..s }, ItemView::Entity(s.group))
}

/// The space group 67 of an entity's common part puts it in.
pub open spec fn space_of(ps: Seq<PairView>, start: nat, end: nat) -> Space {
    let own = own_end(ps, start, end);
    let head = common_end(ps, start, own);
    if int_field(ps, start, head, 67, i64::MIN as int, i64::MAX as int) == Ok::<
        Option<int>,
        ReadErrorView,
    >(Some(1)) {
        Space::Paper
    } else {
        Space::Model
    }
}

/// Whether the records after an entity's are its chain: a POLYLINE's
/// VERTEXes, or the ATTRIBs of an INSERT whose group 66 is 1.
pub open spec fn has_chain(ps: Seq<PairView>, head: nat, start: nat, end: nat) -> bool {
    ||| ps[head as int].value == "POLYLINE"@
    ||| (ps[head as int].value == "INSERT"@ && int_field(
        ps,
        start,
        own_end(ps, start, end),
        66,
        i64::MIN as int,
        i64::MAX as int,
    ) == Ok::<Option<int>, ReadErrorView>(Some(1)))
}

/// The entity's record ends at `end`: its space, and the block it belongs
/// to -- the BLOCK it is written in, or the space block its group 67 names.
pub open spec fn close_group(s: ReaderView, ps: Seq<PairView>, end: nat) -> ReaderView {
    let g = s.group;
    let space = space_of(ps, g.start as nat, end);
    let block = if s.in_block {
        s.block
    } else if space == Space::Paper {
        "*Paper_Space"@
    } else {
        "*Model_Space"@
    };
    ReaderView {
        vertices: ps[g.head as int].value == "POLYLINE"@,
        group: GroupView { end: end as usize, space, block, ..g },
        ..s
    }
}

/// A `0` pair after an entity's record or a record of its chain: the next
/// chain record, the SEQEND that ends the chain, or -- anything else -- the
/// end of the entity, and the pair is its parent's.
pub open spec fn chain_pair(s: ReaderView, p: PairView, k: nat) -> ReaderView {
    if p.code == 0 && p.value == (if s.vertices {
        "VERTEX"@
    } else {
        "ATTRIB"@
    }) {
        ReaderView {
            mode: Mode::ChainMember((k + 1) as usize),
            ordinal: (s.ordinal + 1) as u64,
            ..s
        }
    } else if is_zero(p, "SEQEND"@) {
        with_mode(s, Mode::SeqEnd)
    } else {
        parent_pair(emit_group(s), p, k)
    }
}

/// A chain record `start..end` is read; it is the reading's latest entity.
pub open spec fn add_member(s: ReaderView, start: nat, end: nat) -> ReaderView {
    ReaderView {
        group: GroupView {
            members: s.group.members.push(
                Member { start: start as usize, end: end as usize, ordinal: s.ordinal },
            ),
            ..s.group
        },
        ..s
    }
}

/// The reading after the pair `ps[k]`.
pub open spec fn step(s: ReaderView, ps: Seq<PairView>, k: nat) -> Result<ReaderView, ReadErrorView> {
    let p = ps[k as int];
    let nl = next_line(ps, k);
    match s.mode {
        Mode::Top => top_pair(s, p, nl),
        Mode::SectionName => section_name_pair(s, p, nl),
        Mode::SkipSection => Ok(
            if is_zero(p, "ENDSEC"@) {
                with_mode(s, Mode::Top)
            } else {
                s
            },
        ),
        Mode::SkipTable => Ok(
            if is_zero(p, "ENDTAB"@) {
                with_mode(s, Mode::Tables)
            } else {
                s
            },
        ),
        Mode::Header => Ok(header_pair(s, p)),
        Mode::HeaderValue => Ok(header_value_pair(s, p)),
        Mode::Tables => Ok(tables_pair(s, p)),
        Mode::TableName => table_name_pair(s, p, nl),
        Mode::Table(kind) => Ok(table_pair(s, kind, p, k)),
        Mode::TableRecord(kind, start) => if p.code != 0 {
            Ok(s)
        } else {
            match table_record(s, kind, ps, start as nat, k) {
                Ok(t) => Ok(table_pair(t, kind, p, k)),
                Err(e) => Err(e),
            }
        },
        Mode::Objects => Ok(objects_pair(s, p, k)),
        Mode::MLineStyleRecord(start) => Ok(
            if p.code != 0 {
                s
            } else {
                objects_pair(mlinestyle_record(s, ps, start as nat, k), p, k)
            },
        ),
        Mode::LayoutRecord(start) => Ok(
            if p.code != 0 {
                s
            } else {
                objects_pair(add_item(s, ItemView::Layout { start, end: k as usize }), p, k)
            },
        ),
        Mode::ImageDefRecord(start) => Ok(
            if p.code != 0 {
                s
            } else {
                objects_pair(add_item(s, ItemView::ImageDef { start, end: k as usize }), p, k)
            },
        ),
        Mode::Blocks => Ok(blocks_pair(s, p, k)),
        Mode::BlockHeader(start) => Ok(
            if p.code != 0 {
                s
            } else {
                in_block_pair(
                    ReaderView { block: block_name(ps, start as nat, k), header: (start, k as usize), ..s },
                    p,
                    k,
                )
            },
        ),
        Mode::InBlock => Ok(in_block_pair(s, p, k)),
        Mode::BlockTail => Ok(
            if p.code != 0 {
                s
            } else {
                blocks_pair(add_item(s, ItemView::BlockEnd { name: s.block, start: s.header.0, end: s.header.1 }), p, k)
            },
        ),
        Mode::Entities => Ok(entities_pair(s, p, k)),
        Mode::GroupRecord(start) => Ok(
            if p.code != 0 {
                s
            } else {
                let t = close_group(s, ps, k);
                if has_chain(ps, s.group.head as nat, start as nat, k) {
                    chain_pair(t, p, k)
                } else {
                    parent_pair(emit_group(t), p, k)
                }
            },
        ),
        Mode::Chain => Ok(chain_pair(s, p, k)),
        Mode::ChainMember(start) => Ok(
            if p.code != 0 {
                s
            } else {
                chain_pair(add_member(s, start as nat, k), p, k)
            },
        ),
        Mode::SeqEnd => Ok(
            if p.code != 0 {
                s
            } else {
                parent_pair(emit_group(s), p, k)
            },
        ),
        Mode::Done => Ok(s),
    }
}

/// Where an entity was read, as the end of the text inside it says.
pub open spec fn parent_end(s: ReaderView) -> Seq<char> {
    if s.in_block {
        "the text ends inside a BLOCK"@
    } else {
        "the text ends inside ENTITIES"@
    }
}

/// What the end of the text means in each mode: the records it ends are
/// taken in, an entity being read is an item, and -- unless the drawing
/// has ended at `0/EOF` -- it is the error that says where the text ends.
pub open spec fn at_end(s: ReaderView, ps: Seq<PairView>) -> (OutlineView, Option<ReadErrorView>) {
    let n = ps.len();
    let ends = |t: ReaderView, detail: Seq<char>| (
        t.out,
        Some(structure_error(text_end_line(ps), detail)),
    );
    match s.mode {
        Mode::Done => (s.out, None),
        Mode::Top => ends(s, "the text ends before 0/EOF"@),
        Mode::SectionName => ends(s, "0/SECTION without a 2/name"@),
        Mode::SkipSection => ends(s, "the text ends before 0/ENDSEC"@),
        Mode::SkipTable => ends(s, "the text ends before 0/ENDTAB"@),
        Mode::Header => ends(s, "the text ends inside HEADER"@),
        Mode::HeaderValue => ends(s, "the text ends inside HEADER"@),
        Mode::Tables => ends(s, "the text ends inside TABLES"@),
        Mode::TableName => ends(s, "0/TABLE without a 2/name"@),
        Mode::Table(kind) => ends(
            s,
            "the text ends inside the "@ + table_name(kind) + " table"@,
        ),
        Mode::TableRecord(kind, start) => match table_record(s, kind, ps, start as nat, n) {
            Ok(t) => ends(t, "the text ends inside the "@ + table_name(kind) + " table"@),
            Err(e) => (s.out, Some(e)),
        },
        Mode::Objects => ends(s, "the text ends inside OBJECTS"@),
        Mode::MLineStyleRecord(start) => ends(
            mlinestyle_record(s, ps, start as nat, n),
            "the text ends inside OBJECTS"@,
        ),
        Mode::LayoutRecord(start) => ends(
            add_item(s, ItemView::Layout { start, end: n as usize }),
            "the text ends inside OBJECTS"@,
        ),
        Mode::ImageDefRecord(start) => ends(
            add_item(s, ItemView::ImageDef { start, end: n as usize }),
            "the text ends inside OBJECTS"@,
        ),
        Mode::Blocks => ends(s, "the text ends inside BLOCKS"@),
        Mode::BlockHeader(_) => ends(s, "the text ends inside a BLOCK"@),
        Mode::InBlock => ends(s, "the text ends inside a BLOCK"@),
        Mode::BlockTail => ends(
            add_item(s, ItemView::BlockEnd { name: s.block, start: s.header.0, end: s.header.1 }),
            "the text ends inside BLOCKS"@,
        ),
        Mode::Entities => ends(s, "the text ends inside ENTITIES"@),
        Mode::GroupRecord(_) => ends(emit_group(close_group(s, ps, n)), parent_end(s)),
        Mode::Chain => ends(emit_group(s), parent_end(s)),
        Mode::ChainMember(start) => ends(
            emit_group(add_member(s, start as nat, n)),
            parent_end(s),
        ),
        Mode::SeqEnd => ends(emit_group(s), parent_end(s)),
    }
}

/// The reading of `ps[k..]` from `s`: what it collects, and the error that
/// stops it, if one does. An error keeps what was collected before it.
pub open spec fn run(ps: Seq<PairView>, k: nat, s: ReaderView) -> (OutlineView, Option<ReadErrorView>)
    decreases ps.len() - k,
{
    if s.mode is Done {
        (s.out, None)
    } else if k >= ps.len() {
        at_end(s, ps)
    } else {
        match step(s, ps, k) {
            Ok(t) => run(ps, k + 1, t),
            Err(e) => (s.out, Some(e)),
        }
    }
}

/// The reading before the first pair.
pub open spec fn start() -> ReaderView {
    ReaderView {
        mode: Mode::Top,
        ordinal: 0,
        version: None,
        block: Seq::empty(),
        header: (0, 0),
        in_block: false,
        vertices: false,
        group: blank_group(),
        out: OutlineView {
            version: None,
            layers: Seq::empty(),
            layer_handles: Seq::empty(),
            linetypes: Seq::empty(),
            text_styles: Seq::empty(),
            block_record_handles: Seq::empty(),
            items: Seq::empty(),
        },
    }
}

/// What the pairs of a drawing outline, and the error that ends the
/// reading early.
pub open spec fn outline_of(ps: Seq<PairView>) -> (OutlineView, Option<ReadErrorView>) {
    run(ps, 0, start())
}

/// What the reading needs of the state between two pairs for its indices
/// to stay inside the pairs and its count to stay inside a `u64`.
pub open spec fn wf(s: ReaderView, k: nat, n: nat) -> bool {
    &&& k <= n
    &&& s.ordinal <= k
    &&& match s.mode {
        Mode::TableRecord(_, st) => st <= k,
        Mode::MLineStyleRecord(st) => st <= k,
        Mode::LayoutRecord(st) => st <= k,
        Mode::ImageDefRecord(st) => st <= k,
        Mode::BlockHeader(st) => st <= k,
        Mode::ChainMember(st) => st <= k,
        Mode::GroupRecord(st) => st <= k && s.group.start == st && s.group.head + 1 == st,
        _ => true,
    }
}

struct Reader {
    mode: Mode,
    ordinal: u64,
    version: Option<String>,
    block: String,
    header: (usize, usize),
    in_block: bool,
    vertices: bool,
    group: Group,
    out: Outline,
}

impl View for Reader {
    type V = ReaderView;

    closed spec fn view(&self) -> ReaderView {
        ReaderView {
            mode: self.mode,
            ordinal: self.ordinal,
            version: match &self.version {
                Some(v) => Some(v@),
                None => None,
            },
            block: self.block@,
            header: self.header,
            in_block: self.in_block,
            vertices: self.vertices,
            group: self.group@,
            out: self.out@,
        }
    }
}

fn blank() -> (g: Group)
    ensures
        g@ == blank_group(),
{
    let g = Group {
        head: 0,
        start: 0,
        end: 0,
        ordinal: 0,
        space: Space::Model,
        block: String::new(),
        members: Vec::new(),
    };
    assert(g@.members =~= Seq::<Member>::empty());
    g
}

/// `p` is the pair `0/value`.
fn zero(p: Pair, value: &str) -> (r: bool)
    ensures
        r == is_zero(p@, value@),
{
    p.code == 0 && str_eq(p.value, value)
}

fn structure(line: usize, detail: String) -> (r: ReadError)
    ensures
        r@ == structure_error(line as nat, detail@),
{
    ReadError::Structure { line, detail }
}

impl Reader {
    fn new() -> (r: Reader)
        ensures
            r@ == start(),
    {
        let r = Reader {
            mode: Mode::Top,
            ordinal: 0,
            version: None,
            block: String::new(),
            header: (0, 0),
            in_block: false,
            vertices: false,
            group: blank(),
            out: Outline {
                version: None,
                layers: Vec::new(),
                layer_handles: Vec::new(),
                linetypes: Vec::new(),
                text_styles: Vec::new(),
                block_record_handles: Vec::new(),
                items: Vec::new(),
            },
        };
        assert(r@.out.layers =~= Seq::<LayerView>::empty());
        assert(r@.out.layer_handles =~= Seq::<(Seq<char>, Seq<char>)>::empty());
        assert(r@.out.linetypes =~= Seq::<Seq<char>>::empty());
        assert(r@.out.text_styles =~= Seq::<Seq<char>>::empty());
        assert(r@.out.block_record_handles =~= Seq::<(Seq<char>, Seq<char>)>::empty());
        assert(r@.out.items =~= Seq::<ItemView>::empty());
        r
    }

    fn set_mode(&mut self, mode: Mode)
        ensures
            final(self)@ == with_mode(old(self)@, mode),
    {
        self.mode = mode;
    }

    fn push_item(&mut self, item: Item)
        ensures
            final(self)@ == add_item(old(self)@, item@),
    {
        let ghost old_items = self.out.items@;
        self.out.items.push(item);
        assert(self.out.items@.map_values(|i: Item| i@) =~= old_items.map_values(|i: Item| i@).push(
            item@,
        ));
    }

    fn top_pair(&mut self, p: Pair, nl: usize) -> (r: Result<(), ReadError>)
        ensures
            match top_pair(old(self)@, p@, nl as nat) {
                Ok(t) => r is Ok && final(self)@ == t,
                Err(e) => r matches Err(x) && x@ == e && final(self)@ == old(self)@,
            },
    {
        if p.code == 0 {
            if str_eq(p.value, "EOF") {
                self.set_mode(Mode::Done);
            } else if str_eq(p.value, "SECTION") {
                self.set_mode(Mode::SectionName);
            } else {
                return Err(
                    structure(
                        nl,
                        concat("expected 0/SECTION or 0/EOF at the top level, found 0/", p.value),
                    ),
                );
            }
        }
        Ok(())
    }

    fn section_name_pair(&mut self, p: Pair, nl: usize) -> (r: Result<(), ReadError>)
        ensures
            match section_name_pair(old(self)@, p@, nl as nat) {
                Ok(t) => r is Ok && final(self)@ == t,
                Err(e) => r matches Err(x) && x@ == e && final(self)@ == old(self)@,
            },
    {
        if p.code != 2 {
            return Err(structure(nl, owned("0/SECTION without a 2/name")));
        }
        let mode = if str_eq(p.value, "HEADER") {
            Mode::Header
        } else if str_eq(p.value, "TABLES") {
            Mode::Tables
        } else if str_eq(p.value, "BLOCKS") {
            Mode::Blocks
        } else if str_eq(p.value, "ENTITIES") {
            Mode::Entities
        } else if str_eq(p.value, "OBJECTS") {
            Mode::Objects
        } else {
            Mode::SkipSection
        };
        self.set_mode(mode);
        Ok(())
    }

    fn header_pair(&mut self, p: Pair)
        ensures
            final(self)@ == header_pair(old(self)@, p@),
    {
        if zero(p, "ENDSEC") {
            self.set_mode(Mode::Top);
        } else if p.code == 9 && str_eq(p.value, "$ACADVER") {
            self.set_mode(Mode::HeaderValue);
        } else {
            self.set_mode(Mode::Header);
        }
    }

    fn header_value_pair(&mut self, p: Pair)
        ensures
            final(self)@ == header_value_pair(old(self)@, p@),
    {
        if p.code != 9 && p.code != 0 {
            self.version = Some(owned(trim(p.value)));
            self.out.version = Some(owned(trim(p.value)));
        }
        self.header_pair(p);
    }

    fn tables_pair(&mut self, p: Pair)
        ensures
            final(self)@ == tables_pair(old(self)@, p@),
    {
        if zero(p, "ENDSEC") {
            self.set_mode(Mode::Top);
        } else if zero(p, "TABLE") {
            self.set_mode(Mode::TableName);
        }
    }

    fn table_name_pair(&mut self, p: Pair, nl: usize) -> (r: Result<(), ReadError>)
        ensures
            match table_name_pair(old(self)@, p@, nl as nat) {
                Ok(t) => r is Ok && final(self)@ == t,
                Err(e) => r matches Err(x) && x@ == e && final(self)@ == old(self)@,
            },
    {
        if p.code != 2 {
            return Err(structure(nl, owned("0/TABLE without a 2/name")));
        }
        let mode = if str_eq(p.value, "LAYER") {
            Mode::Table(TableKind::Layer)
        } else if str_eq(p.value, "DIMSTYLE") {
            Mode::Table(TableKind::DimStyle)
        } else if str_eq(p.value, "LTYPE") {
            Mode::Table(TableKind::LineType)
        } else if str_eq(p.value, "STYLE") {
            Mode::Table(TableKind::TextStyle)
        } else if str_eq(p.value, "BLOCK_RECORD") {
            Mode::Table(TableKind::BlockRecord)
        } else {
            Mode::SkipTable
        };
        self.set_mode(mode);
        Ok(())
    }
}

impl Outline {
    fn push_layer(&mut self, l: LayerRecord)
        ensures
            final(self)@ == (OutlineView { layers: old(self)@.layers.push(l@), ..old(self)@ }),
    {
        let ghost v = self.layers@;
        self.layers.push(l);
        assert(self.layers@.map_values(|l: LayerRecord| l@) =~= v.map_values(|l: LayerRecord| l@).push(
            l@,
        ));
    }

    fn push_layer_handle(&mut self, handle: String, name: String)
        ensures
            final(self)@ == (OutlineView {
                layer_handles: old(self)@.layer_handles.push((handle@, name@)),
                ..old(self)@
            }),
    {
        let ghost v = self.layer_handles@;
        self.layer_handles.push((handle, name));
        assert(pair_views(self.layer_handles@) =~= pair_views(v).push((handle@, name@)));
    }

    fn push_linetype(&mut self, name: String)
        ensures
            final(self)@ == (OutlineView { linetypes: old(self)@.linetypes.push(name@), ..old(self)@ }),
    {
        let ghost v = self.linetypes@;
        self.linetypes.push(name);
        assert(name_views(self.linetypes@) =~= name_views(v).push(name@));
    }

    fn push_text_style(&mut self, name: String)
        ensures
            final(self)@ == (OutlineView {
                text_styles: old(self)@.text_styles.push(name@),
                ..old(self)@
            }),
    {
        let ghost v = self.text_styles@;
        self.text_styles.push(name);
        assert(name_views(self.text_styles@) =~= name_views(v).push(name@));
    }

    fn push_block_record_handle(&mut self, handle: String, name: String)
        ensures
            final(self)@ == (OutlineView {
                block_record_handles: old(self)@.block_record_handles.push((handle@, name@)),
                ..old(self)@
            }),
    {
        let ghost v = self.block_record_handles@;
        self.block_record_handles.push((handle, name));
        assert(pair_views(self.block_record_handles@) =~= pair_views(v).push((handle@, name@)));
    }
}

/// A handle as the tables key it: trimmed, in upper case.
fn handle_key(value: &str) -> (r: String)
    ensures
        r@ == ascii_uppercase(trimmed(value@)),
{
    to_ascii_uppercase(trim(value))
}

impl Reader {
    fn table_pair(&mut self, kind: TableKind, p: Pair, k: usize)
        requires
            k < usize::MAX,
        ensures
            final(self)@ == table_pair(old(self)@, kind, p@, k as nat),
    {
        if zero(p, "ENDTAB") {
            self.set_mode(Mode::Tables);
        } else if zero(p, table_name_str(kind)) {
            self.set_mode(Mode::TableRecord(kind, k + 1));
        } else {
            self.set_mode(Mode::Table(kind));
        }
    }

    fn table_record(&mut self, kind: TableKind, ps: &Vec<Pair>, start: usize, end: usize) -> (r:
        Result<(), ReadError>)
        requires
            start <= end <= ps@.len(),
        ensures
            match table_record(old(self)@, kind, views(ps@), start as nat, end as nat) {
                Ok(t) => r is Ok && final(self)@ == t,
                Err(e) => r matches Err(x) && x@ == e && final(self)@ == old(self)@,
            },
    {
        let ghost pv = views(ps@);
        match kind {
            TableKind::Layer => {
                let l = match layer(ps, start, end) {
                    Err(e) => {
                        return Err(e);
                    },
                    Ok(None) => {
                        return Ok(());
                    },
                    Ok(Some(l)) => l,
                };
                if let Some(h) = text(ps, start, end, 5) {
                    let name = l.name.clone();
                    self.out.push_layer_handle(handle_key(h), name);
                }
                self.out.push_layer(l);
                Ok(())
            },
            _ => {
                let n = match text(ps, start, end, 2) {
                    None => {
                        return Ok(());
                    },
                    Some(n) => n,
                };
                let name = string(n);
                match kind {
                    TableKind::LineType => self.out.push_linetype(name),
                    TableKind::TextStyle => self.out.push_text_style(name),
                    TableKind::BlockRecord => {
                        if let Some(h) = text(ps, start, end, 5) {
                            self.out.push_block_record_handle(handle_key(h), name);
                        }
                    },
                    _ => {
                        let r2000 = match &self.version {
                            Some(v) => str_ge(v.as_str(), "AC1015"),
                            None => false,
                        };
                        self.push_item(Item::DimStyle { name, start, end, r2000 });
                    },
                }
                Ok(())
            },
        }
    }

    fn objects_pair(&mut self, p: Pair, k: usize)
        requires
            k < usize::MAX,
        ensures
            final(self)@ == objects_pair(old(self)@, p@, k as nat),
    {
        if zero(p, "ENDSEC") {
            self.set_mode(Mode::Top);
        } else if zero(p, "MLINESTYLE") {
            self.set_mode(Mode::MLineStyleRecord(k + 1));
        } else if zero(p, "LAYOUT") {
            self.set_mode(Mode::LayoutRecord(k + 1));
        } else if zero(p, "IMAGEDEF") {
            self.set_mode(Mode::ImageDefRecord(k + 1));
        } else {
            self.set_mode(Mode::Objects);
        }
    }

    fn mlinestyle_record(&mut self, ps: &Vec<Pair>, start: usize, end: usize)
        requires
            start <= end <= ps@.len(),
        ensures
            final(self)@ == mlinestyle_record(old(self)@, views(ps@), start as nat, end as nat),
    {
        if let Some(n) = text(ps, start, end, 2) {
            self.push_item(Item::MLineStyle { name: string(n), start, end });
        }
    }

    fn blocks_pair(&mut self, p: Pair, k: usize)
        requires
            k < usize::MAX,
        ensures
            final(self)@ == blocks_pair(old(self)@, p@, k as nat),
    {
        if zero(p, "ENDSEC") {
            self.set_mode(Mode::Top);
        } else if zero(p, "BLOCK") {
            self.set_mode(Mode::BlockHeader(k + 1));
        } else {
            self.set_mode(Mode::Blocks);
        }
    }

    fn begin_group(&mut self, k: usize)
        requires
            k < usize::MAX,
            old(self)@.ordinal < u64::MAX,
        ensures
            final(self)@ == begin_group(old(self)@, k as nat),
    {
        self.mode = Mode::GroupRecord(k + 1);
        self.ordinal = self.ordinal + 1;
        let members: Vec<Member> = Vec::new();
        self.group = Group {
            head: k,
            start: k + 1,
            end: k + 1,
            ordinal: self.ordinal,
            space: Space::Model,
            block: self.block.clone(),
            members,
        };
        assert(self.group@.members =~= Seq::<Member>::empty());
    }

    fn in_block_pair(&mut self, p: Pair, k: usize)
        requires
            k < usize::MAX,
            old(self)@.ordinal < u64::MAX,
        ensures
            final(self)@ == in_block_pair(old(self)@, p@, k as nat),
    {
        if zero(p, "ENDBLK") {
            self.set_mode(Mode::BlockTail);
        } else if p.code == 0 {
            self.in_block = true;
            self.begin_group(k);
        } else {
            self.set_mode(Mode::InBlock);
        }
    }

    fn entities_pair(&mut self, p: Pair, k: usize)
        requires
            k < usize::MAX,
            old(self)@.ordinal < u64::MAX,
        ensures
            final(self)@ == entities_pair(old(self)@, p@, k as nat),
    {
        if zero(p, "ENDSEC") {
            self.set_mode(Mode::Top);
        } else if p.code == 0 {
            self.in_block = false;
            self.begin_group(k);
        } else {
            self.set_mode(Mode::Entities);
        }
    }

    fn parent_pair(&mut self, p: Pair, k: usize)
        requires
            k < usize::MAX,
            old(self)@.ordinal < u64::MAX,
        ensures
            final(self)@ == parent_pair(old(self)@, p@, k as nat),
    {
        if self.in_block {
            self.in_block_pair(p, k);
        } else {
            self.entities_pair(p, k);
        }
    }

    fn emit_group(&mut self)
        ensures
            final(self)@ == emit_group(old(self)@),
    {
        let mut g = blank();
        std::mem::swap(&mut g, &mut self.group);
        self.push_item(Item::Entity(g));
    }

    fn add_member(&mut self, start: usize, end: usize)
        ensures
            final(self)@ == add_member(old(self)@, start as nat, end as nat),
    {
        let m = Member { start, end, ordinal: self.ordinal };
        self.group.members.push(m);
    }

    fn chain_pair(&mut self, p: Pair, k: usize)
        requires
            k < usize::MAX,
            old(self)@.ordinal < u64::MAX,
        ensures
            final(self)@ == chain_pair(old(self)@, p@, k as nat),
    {
        let member = if self.vertices {
            "VERTEX"
        } else {
            "ATTRIB"
        };
        if zero(p, member) {
            self.mode = Mode::ChainMember(k + 1);
            self.ordinal = self.ordinal + 1;
        } else if zero(p, "SEQEND") {
            self.set_mode(Mode::SeqEnd);
        } else {
            self.emit_group();
            self.parent_pair(p, k);
        }
    }
}

/// The space group 67 of an entity's common part puts it in (see
/// `space_of`).
fn space(ps: &Vec<Pair>, start: usize, end: usize) -> (r: Space)
    requires
        start <= end <= ps@.len(),
    ensures
        r == space_of(views(ps@), start as nat, end as nat),
{
    let own = own_part(ps, start, end);
    let head = common_part(ps, start, own);
    match int_group(ps, start, head, 67) {
        Ok(Some(1)) => Space::Paper,
        _ => Space::Model,
    }
}

/// Whether the records after an entity's are its chain (see `has_chain`).
fn chain_follows(ps: &Vec<Pair>, head: usize, start: usize, end: usize) -> (r: bool)
    requires
        head < ps@.len(),
        start <= end <= ps@.len(),
    ensures
        r == has_chain(views(ps@), head as nat, start as nat, end as nat),
{
    let t = ps[head].value;
    assert(views(ps@)[head as int] == ps@[head as int]@);
    if str_eq(t, "POLYLINE") {
        return true;
    }
    if !str_eq(t, "INSERT") {
        return false;
    }
    let own = own_part(ps, start, end);
    match int_group(ps, start, own, 66) {
        Ok(Some(1)) => true,
        _ => false,
    }
}

impl Reader {
    fn close_group(&mut self, ps: &Vec<Pair>, end: usize)
        requires
            old(self)@.group.start <= end <= ps@.len(),
            old(self)@.group.head < ps@.len(),
        ensures
            final(self)@ == close_group(old(self)@, views(ps@), end as nat),
    {
        let sp = space(ps, self.group.start, end);
        let block = if self.in_block {
            self.block.clone()
        } else {
            match sp {
                Space::Paper => owned("*Paper_Space"),
                Space::Model => owned("*Model_Space"),
            }
        };
        assert(views(ps@)[self.group.head as int] == ps@[self.group.head as int]@);
        self.vertices = str_eq(ps[self.group.head].value, "POLYLINE");
        self.group.end = end;
        self.group.space = sp;
        self.group.block = block;
    }

    /// Takes the pair `ps[k]` in.
    fn step(&mut self, ps: &Vec<Pair>, k: usize) -> (r: Result<(), ReadError>)
        requires
            k < ps@.len(),
            wf(old(self)@, k as nat, ps@.len()),
        ensures
            match step(old(self)@, views(ps@), k as nat) {
                Ok(t) => r is Ok && final(self)@ == t,
                Err(e) => r matches Err(x) && x@ == e && final(self)@.out == old(self)@.out,
            },
    {
        let ghost pv = views(ps@);
        let p = ps[k];
        let nl = if k < ps.len() - 1 {
            ps[k + 1].line
        } else {
            end_line(ps)
        };
        proof {
            assert(pv[k as int] == p@);
            if k + 1 < ps.len() {
                assert(pv[k + 1] == ps@[k + 1]@);
            }
        }
        match self.mode {
            Mode::Top => self.top_pair(p, nl),
            Mode::SectionName => self.section_name_pair(p, nl),
            Mode::SkipSection => {
                if zero(p, "ENDSEC") {
                    self.set_mode(Mode::Top);
                }
                Ok(())
            },
            Mode::SkipTable => {
                if zero(p, "ENDTAB") {
                    self.set_mode(Mode::Tables);
                }
                Ok(())
            },
            Mode::Header => {
                self.header_pair(p);
                Ok(())
            },
            Mode::HeaderValue => {
                self.header_value_pair(p);
                Ok(())
            },
            Mode::Tables => {
                self.tables_pair(p);
                Ok(())
            },
            Mode::TableName => self.table_name_pair(p, nl),
            Mode::Table(kind) => {
                self.table_pair(kind, p, k);
                Ok(())
            },
            Mode::TableRecord(kind, start) => {
                if p.code == 0 {
                    match self.table_record(kind, ps, start, k) {
                        Ok(()) => {},
                        Err(e) => {
                            return Err(e);
                        },
                    }
                    self.table_pair(kind, p, k);
                }
                Ok(())
            },
            Mode::Objects => {
                self.objects_pair(p, k);
                Ok(())
            },
            Mode::MLineStyleRecord(start) => {
                if p.code == 0 {
                    self.mlinestyle_record(ps, start, k);
                    self.objects_pair(p, k);
                }
                Ok(())
            },
            Mode::LayoutRecord(start) => {
                if p.code == 0 {
                    self.push_item(Item::Layout { start, end: k });
                    self.objects_pair(p, k);
                }
                Ok(())
            },
            Mode::ImageDefRecord(start) => {
                if p.code == 0 {
                    self.push_item(Item::ImageDef { start, end: k });
                    self.objects_pair(p, k);
                }
                Ok(())
            },
            Mode::Blocks => {
                self.blocks_pair(p, k);
                Ok(())
            },
            Mode::BlockHeader(start) => {
                if p.code == 0 {
                    self.block = match text(ps, start, k, 2) {
                        Some(n) => string(n),
                        None => String::new(),
                    };
                    self.header = (start, k);
                    self.in_block_pair(p, k);
                }
                Ok(())
            },
            Mode::InBlock => {
                self.in_block_pair(p, k);
                Ok(())
            },
            Mode::BlockTail => {
                if p.code == 0 {
                    let name = self.block.clone();
                    self.push_item(Item::BlockEnd { name, start: self.header.0, end: self.header.1 });
                    self.blocks_pair(p, k);
                }
                Ok(())
            },
            Mode::Entities => {
                self.entities_pair(p, k);
                Ok(())
            },
            Mode::GroupRecord(start) => {
                if p.code == 0 {
                    let chain = chain_follows(ps, self.group.head, start, k);
                    self.close_group(ps, k);
                    if chain {
                        self.chain_pair(p, k);
                    } else {
                        self.emit_group();
                        self.parent_pair(p, k);
                    }
                }
                Ok(())
            },
            Mode::Chain => {
                self.chain_pair(p, k);
                Ok(())
            },
            Mode::ChainMember(start) => {
                if p.code == 0 {
                    self.add_member(start, k);
                    self.chain_pair(p, k);
                }
                Ok(())
            },
            Mode::SeqEnd => {
                if p.code == 0 {
                    self.emit_group();
                    self.parent_pair(p, k);
                }
                Ok(())
            },
            Mode::Done => Ok(()),
        }
    }
}

/// The error for the end of the text, with what it says of where.
fn ends(out: Outline, line: usize, detail: String) -> (r: (Outline, Option<ReadError>))
    ensures
        r.0@ == out@,
        r.1 matches Some(e) && e@ == structure_error(line as nat, detail@),
{
    (out, Some(structure(line, detail)))
}

/// The last line of the text the pairs were read from (see
/// `text_end_line`).
fn end_line(ps: &Vec<Pair>) -> (r: usize)
    ensures
        r == text_end_line(views(ps@)),
{
    if ps.len() == 0 {
        1
    } else {
        let l = ps[ps.len() - 1].line;
        assert(views(ps@).last() == ps@[ps@.len() - 1]@);
        if l < usize::MAX {
            l + 1
        } else {
            l
        }
    }
}

impl Reader {
    fn parent_end(&self) -> (r: String)
        ensures
            r@ == parent_end(self@),
    {
        if self.in_block {
            owned("the text ends inside a BLOCK")
        } else {
            owned("the text ends inside ENTITIES")
        }
    }

    /// What the end of the text means (see `at_end`).
    fn at_end(self, ps: &Vec<Pair>) -> (r: (Outline, Option<ReadError>))
        requires
            wf(self@, ps@.len() as nat, ps@.len() as nat),
        ensures
            (
                r.0@,
                match r.1 {
                    Some(e) => Some(e@),
                    None => None,
                },
            ) == at_end(self@, views(ps@)),
    {
        let mut s = self;
        let n = ps.len();
        let line = end_line(ps);
        match s.mode {
            Mode::Done => (s.out, None),
            Mode::Top => ends(s.out, line, owned("the text ends before 0/EOF")),
            Mode::SectionName => ends(s.out, line, owned("0/SECTION without a 2/name")),
            Mode::SkipSection => ends(s.out, line, owned("the text ends before 0/ENDSEC")),
            Mode::SkipTable => ends(s.out, line, owned("the text ends before 0/ENDTAB")),
            Mode::Header => ends(s.out, line, owned("the text ends inside HEADER")),
            Mode::HeaderValue => ends(s.out, line, owned("the text ends inside HEADER")),
            Mode::Tables => ends(s.out, line, owned("the text ends inside TABLES")),
            Mode::TableName => ends(s.out, line, owned("0/TABLE without a 2/name")),
            Mode::Table(kind) => {
                let mut d = concat("the text ends inside the ", table_name_str(kind));
                d.append(" table");
                ends(s.out, line, d)
            },
            Mode::TableRecord(kind, start) => {
                match s.table_record(kind, ps, start, n) {
                    Ok(()) => {},
                    Err(e) => {
                        return (s.out, Some(e));
                    },
                }
                let mut d = concat("the text ends inside the ", table_name_str(kind));
                d.append(" table");
                ends(s.out, line, d)
            },
            Mode::Objects => ends(s.out, line, owned("the text ends inside OBJECTS")),
            Mode::MLineStyleRecord(start) => {
                s.mlinestyle_record(ps, start, n);
                ends(s.out, line, owned("the text ends inside OBJECTS"))
            },
            Mode::LayoutRecord(start) => {
                s.push_item(Item::Layout { start, end: n });
                ends(s.out, line, owned("the text ends inside OBJECTS"))
            },
            Mode::ImageDefRecord(start) => {
                s.push_item(Item::ImageDef { start, end: n });
                ends(s.out, line, owned("the text ends inside OBJECTS"))
            },
            Mode::Blocks => ends(s.out, line, owned("the text ends inside BLOCKS")),
            Mode::BlockHeader(_) => ends(s.out, line, owned("the text ends inside a BLOCK")),
            Mode::InBlock => ends(s.out, line, owned("the text ends inside a BLOCK")),
            Mode::BlockTail => {
                let name = s.block.clone();
                s.push_item(Item::BlockEnd { name, start: s.header.0, end: s.header.1 });
                ends(s.out, line, owned("the text ends inside BLOCKS"))
            },
            Mode::Entities => ends(s.out, line, owned("the text ends inside ENTITIES")),
            Mode::GroupRecord(_) => {
                let d = s.parent_end();
                s.close_group(ps, n);
                s.emit_group();
                ends(s.out, line, d)
            },
            Mode::Chain => {
                let d = s.parent_end();
                s.emit_group();
                ends(s.out, line, d)
            },
            Mode::ChainMember(start) => {
                let d = s.parent_end();
                s.add_member(start, n);
                s.emit_group();
                ends(s.out, line, d)
            },
            Mode::SeqEnd => {
                let d = s.parent_end();
                s.emit_group();
                ends(s.out, line, d)
            },
        }
    }
}

pub(crate) proof fn lemma_step_wf(s: ReaderView, ps: Seq<PairView>, k: nat)
    requires
        wf(s, k, ps.len()),
        k < ps.len(),
        ps.len() <= usize::MAX,
        step(s, ps, k) is Ok,
    ensures
        wf(step(s, ps, k)->Ok_0, k + 1, ps.len()),
{
    let p = ps[k as int];
    let t = step(s, ps, k)->Ok_0;
    match s.mode {
        Mode::TableRecord(kind, start) => {
            if p.code == 0 {
                lemma_table_record_keeps(s, kind, ps, start as nat, k);
                let u = table_record(s, kind, ps, start as nat, k)->Ok_0;
                assert(t == table_pair(u, kind, p, k));
            } else {
                assert(t == s);
            }
        },
        Mode::GroupRecord(start) => {
            if p.code == 0 {
                let u = close_group(s, ps, k);
                assert(u.mode == s.mode && u.ordinal == s.ordinal);
            } else {
                assert(t == s);
            }
        },
        Mode::Top => {},
        Mode::SectionName => {},
        Mode::SkipSection => {},
        Mode::SkipTable => {},
        Mode::Header => {},
        Mode::HeaderValue => {},
        Mode::Tables => {},
        Mode::TableName => {},
        Mode::Table(_) => {},
        Mode::Objects => {},
        Mode::MLineStyleRecord(_) => {},
        Mode::LayoutRecord(_) => {},
        Mode::ImageDefRecord(_) => {},
        Mode::Blocks => {},
        Mode::BlockHeader(_) => {},
        Mode::InBlock => {},
        Mode::BlockTail => {},
        Mode::Entities => {},
        Mode::Chain => {},
        Mode::ChainMember(_) => {},
        Mode::SeqEnd => {},
        Mode::Done => {},
    }
}

proof fn lemma_table_record_keeps(s: ReaderView, kind: TableKind, ps: Seq<PairView>, start: nat, end: nat)
    ensures
        table_record(s, kind, ps, start, end) matches Ok(t) ==> t.mode == s.mode && t.ordinal
            == s.ordinal && t.group == s.group,
{
}

/// Reads the pairs of a drawing into its outline (see `outline_of`): the
/// tables it declares, and in file order the records whose values are
/// numbers. When the pairs do not make the sections and records a DXF file
/// has, or a table entry states a number that is not one, the error comes
/// with what was read before it.
pub fn outline(ps: &Vec<Pair>) -> (r: (Outline, Option<ReadError>))
    ensures
        (
            r.0@,
            match r.1 {
                Some(e) => Some(e@),
                None => None,
            },
        ) == outline_of(views(ps@)),
{
    let ghost pv = views(ps@);
    let mut s = Reader::new();
    let mut k: usize = 0;
    while k < ps.len()
        invariant
            pv == views(ps@),
            k <= ps@.len(),
            wf(s@, k as nat, ps@.len() as nat),
            outline_of(pv) == run(pv, k as nat, s@),
        decreases ps@.len() - k,
    {
        if let Mode::Done = s.mode {
            return (s.out, None);
        }
        let ghost before = s@;
        match s.step(ps, k) {
            Ok(()) => {},
            Err(e) => {
                return (s.out, Some(e));
            },
        }
        proof {
            lemma_step_wf(before, pv, k as nat);
        }
        k = k + 1;
    }
    s.at_end(ps)
}

/// The name of a table, as its `0/TABLE`'s `2` and its entries' `0` say it.
fn table_name_str(kind: TableKind) -> (r: &'static str)
    ensures
        r@ == table_name(kind),
{
    match kind {
        TableKind::Layer => "LAYER",
        TableKind::LineType => "LTYPE",
        TableKind::TextStyle => "STYLE",
        TableKind::BlockRecord => "BLOCK_RECORD",
        TableKind::DimStyle => "DIMSTYLE",
    }
}

} // verus!
