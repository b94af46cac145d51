use undxf::entity::{by_version, common_tail, flag_set, name_ref};
use undxf::record::NameRef;
use undxf::resolve::resolve_name;
use undxf::outline::{Item, Space};
use undxf::record::{common_part, text as text_at};
use undxf::read::{is_binary, read_text};
use undxf::ReadError;

const DRAWING: &str = "  0\nSECTION\n  2\nHEADER\n  9\n$ACADVER\n  1\nAC1015\n  0\nENDSEC\n  0\nSECTION\n  2\nTABLES\n  0\nTABLE\n  2\nLAYER\n  0\nLAYER\n  5\n1f\n  2\nWALLS\n 62\n-3\n 70\n5\n  6\nDASHED\n  0\nENDTAB\n  0\nTABLE\n  2\nLTYPE\n  0\nLTYPE\n  2\nDASHED\n  0\nENDTAB\n  0\nTABLE\n  2\nDIMSTYLE\n  0\nDIMSTYLE\n  2\nISO-25\n 40\n1.0\n  0\nENDTAB\n  0\nENDSEC\n  0\nSECTION\n  2\nBLOCKS\n  0\nBLOCK\n  2\nDOOR\n  0\nLINE\n  8\n0\n  0\nENDBLK\n  0\nENDSEC\n  0\nSECTION\n  2\nENTITIES\n  0\nINSERT\n  5\n30\n  8\nWALLS\n  2\nDOOR\n 66\n1\n  0\nATTRIB\n  2\nTAG\n  0\nATTRIB\n  2\nTAG2\n  0\nSEQEND\n  0\nCIRCLE\n 67\n1\n 40\n2\n  0\nENDSEC\n  0\nEOF\n";

#[test]
fn a_drawing_reads_to_its_tables_and_its_entities_in_file_order() {
    let (ps, outline, error) = read_text(DRAWING).unwrap();
    assert!(error.is_none());
    assert!(!ps.is_empty());
    assert_eq!(outline.layers.len(), 1);
    let layer = &outline.layers[0];
    assert_eq!(layer.name, "WALLS");
    assert_eq!(layer.color_index, -3);
    assert!(layer.off && layer.frozen && layer.locked);
    assert_eq!(outline.layer_handles, vec![("1F".to_string(), "WALLS".to_string())]);
    assert_eq!(outline.linetypes, vec!["DASHED".to_string()]);
    let kinds: Vec<&str> = outline
        .items
        .iter()
        .map(|i| match i {
            Item::DimStyle { .. } => "dimstyle",
            Item::MLineStyle { .. } => "mlinestyle",
            Item::Layout { .. } => "layout",
            Item::ImageDef { .. } => "imagedef",
            Item::Entity(_) => "entity",
            Item::BlockEnd { .. } => "blockend",
        })
        .collect();
    assert_eq!(kinds, vec!["dimstyle", "entity", "blockend", "entity", "entity"]);
    match &outline.items[0] {
        Item::DimStyle { name, r2000, .. } => {
            assert_eq!(name, "ISO-25");
            assert!(*r2000, "the header declared AC1015 before the table");
        }
        other => panic!("a dimension style, got {other:?}"),
    }
    let Item::Entity(line) = &outline.items[1] else {
        panic!("the block's LINE");
    };
    assert_eq!(line.block, "DOOR");
    assert_eq!(ps[line.head].value, "LINE");
    let Item::Entity(insert) = &outline.items[3] else {
        panic!("the INSERT");
    };
    assert_eq!(insert.block, "*Model_Space");
    assert_eq!(insert.space, Space::Model);
    assert_eq!(insert.members.len(), 2, "its two ATTRIBs");
    let Item::Entity(circle) = &outline.items[4] else {
        panic!("the CIRCLE");
    };
    assert_eq!(circle.space, Space::Paper);
    assert_eq!(circle.block, "*Paper_Space");
}

#[test]
fn every_entity_read_is_numbered_once_in_the_order_read() {
    let (_, outline, _) = read_text(DRAWING).unwrap();
    let mut ordinals = Vec::new();
    for item in &outline.items {
        if let Item::Entity(g) = item {
            ordinals.push(g.ordinal);
            ordinals.extend(g.members.iter().map(|m| m.ordinal));
        }
    }
    assert_eq!(ordinals, vec![1, 2, 3, 4, 5]);
}

#[test]
fn a_truncated_file_is_an_error_that_names_the_line() {
    let text = "  0\nSECTION\n  2\nENTITIES\n  0\nLINE\n  5\n2B\n 10\n0\n";
    let (_, outline, error) = read_text(text).unwrap();
    assert_eq!(
        error,
        Some(ReadError::Structure {
            line: 10,
            detail: "the text ends inside ENTITIES".to_string()
        })
    );
    assert_eq!(outline.items.len(), 1, "the LINE read before the end is kept");
}

#[test]
fn a_zero_pair_out_of_place_at_the_top_level_is_an_error_naming_the_next_line() {
    let text = "  0\nLINE\n  8\n0\n  0\nEOF\n";
    let (_, _, error) = read_text(text).unwrap();
    assert_eq!(
        error,
        Some(ReadError::Structure {
            line: 3,
            detail: "expected 0/SECTION or 0/EOF at the top level, found 0/LINE".to_string()
        })
    );
    let (_, _, error) = read_text("  0\nSECTION\n  8\nX\n").unwrap();
    assert_eq!(
        error,
        Some(ReadError::Structure {
            line: 4,
            detail: "0/SECTION without a 2/name".to_string()
        })
    );
    let (_, _, error) = read_text("  0\nSECTION\n  2\nHEADER\n  0\nENDSEC\n").unwrap();
    assert_eq!(
        error,
        Some(ReadError::Structure {
            line: 6,
            detail: "the text ends before 0/EOF".to_string()
        })
    );
}

#[test]
fn a_binary_dxf_is_refused_at_line_1() {
    assert!(is_binary(b"AutoCAD Binary DXF\r\n\x1a\x00"));
    assert!(!is_binary(b"  0\nSECTION\n"));
    let err = read_text("AutoCAD Binary DXF\r\n").unwrap_err();
    assert_eq!(
        err,
        ReadError::Structure {
            line: 1,
            detail: "binary DXF is not read; this crate reads the ASCII form".to_string()
        }
    );
}

#[test]
fn a_pre_r10_drawing_is_refused_at_line_1() {
    let err = read_text("AutoCAD DXF\nENTITIES\n").unwrap_err();
    assert_eq!(
        err,
        ReadError::BadGroupCode {
            line: 1,
            text: "AutoCAD DXF".to_string()
        }
    );
}

#[test]
fn a_layer_table_value_that_is_not_a_number_is_the_error_that_names_it() {
    let text = "  0\nSECTION\n  2\nTABLES\n  0\nTABLE\n  2\nLAYER\n  0\nLAYER\n  2\nA\n 62\nred\n  0\nENDTAB\n  0\nENDSEC\n  0\nEOF\n";
    let (_, _, error) = read_text(text).unwrap();
    assert_eq!(
        error,
        Some(ReadError::BadNumber {
            line: 13,
            code: 62,
            text: "red".to_string()
        })
    );
}

#[test]
fn every_record_read_is_the_pairs_between_two_zero_pairs() {
    let (ps, outline, _) = read_text(DRAWING).unwrap();
    let is_record = |start: usize, end: usize| {
        start >= 1
            && start <= end
            && end <= ps.len()
            && ps[start - 1].code == 0
            && ps[start..end].iter().all(|p| p.code != 0)
            && (end == ps.len() || ps[end].code == 0)
    };
    let mut records = 0;
    for item in &outline.items {
        match item {
            Item::DimStyle { start, end, .. }
            | Item::MLineStyle { start, end, .. }
            | Item::Layout { start, end }
            | Item::ImageDef { start, end } => {
                assert!(is_record(*start, *end));
                records += 1;
            }
            Item::Entity(g) => {
                assert_eq!(g.head + 1, g.start);
                assert!(is_record(g.start, g.end));
                for m in &g.members {
                    assert!(is_record(m.start, m.end));
                    records += 1;
                }
                records += 1;
            }
            Item::BlockEnd { start, end, .. } => {
                assert!(is_record(*start, *end));
                records += 1;
            }
        }
    }
    assert_eq!(records, 7);
}

#[test]
fn a_block_carries_its_base_point() {
    let text = "  0\nSECTION\n  2\nBLOCKS\n  0\nBLOCK\n  8\n0\n  2\nB1\n 70\n0\n 10\n6\n 20\n1\n 30\n0\n  0\nLINE\n  8\n0\n 10\n6\n 20\n1\n 11\n7\n 21\n2\n  0\nENDBLK\n  8\n0\n  0\nBLOCK\n  8\n0\n  2\nB2\n 70\n0\n  0\nENDBLK\n  8\n0\n  0\nENDSEC\n  0\nEOF\n";
    let (ps, outline, error) = read_text(text).unwrap();
    assert_eq!(error, None);
    let ends: Vec<(&str, usize, usize)> = outline
        .items
        .iter()
        .filter_map(|i| match i {
            Item::BlockEnd { name, start, end } => Some((name.as_str(), *start, *end)),
            _ => None,
        })
        .collect();
    assert_eq!(ends.len(), 2);
    let (name, start, end) = ends[0];
    assert_eq!(name, "B1");
    assert_eq!(
        (text_at(&ps, start, end, 10), text_at(&ps, start, end, 20), text_at(&ps, start, end, 30)),
        (Some("6"), Some("1"), Some("0"))
    );
    let (name, start, end) = ends[1];
    assert_eq!(name, "B2");
    assert_eq!(text_at(&ps, start, end, 10), None, "an absent base point is the origin");
}

fn line_common(version: Option<&str>, groups: &str) -> (Option<i16>, Option<u32>) {
    let mut text = String::new();
    if let Some(v) = version {
        text.push_str(&format!("  0\nSECTION\n  2\nHEADER\n  9\n$ACADVER\n  1\n{v}\n  0\nENDSEC\n"));
    }
    text.push_str("  0\nSECTION\n  2\nENTITIES\n  0\nLINE\n  5\n2A\n100\nAcDbEntity\n  8\n0\n");
    text.push_str(groups);
    text.push_str("100\nAcDbLine\n 10\n0\n 20\n0\n 11\n1\n 21\n0\n  0\nENDSEC\n  0\nEOF\n");
    let (ps, outline, error) = read_text(&text).unwrap();
    assert_eq!(error, None);
    assert_eq!(outline.version.as_deref(), version);
    let Item::Entity(g) = &outline.items[0] else { panic!("the LINE") };
    let head = common_part(&ps, g.start, g.end);
    let (lineweight, transparency) = common_tail(&ps, g.start, head).unwrap();
    by_version(lineweight, transparency, outline.version.as_deref())
}

#[test]
fn stated_properties_are_carried_as_the_file_states_them() {
    assert_eq!(line_common(Some("AC1018"), "370\n35\n440\n33554636\n"), (Some(35), Some(0x0200_00CC)));
    assert_eq!(line_common(Some("AC1014"), "370\n35\n440\n33554636\n"), (Some(35), Some(0x0200_00CC)));
}

#[test]
fn an_unstated_property_is_bylayer_only_where_the_version_has_it() {
    assert_eq!(line_common(Some("AC1018"), ""), (Some(-1), Some(0)));
    assert_eq!(line_common(Some("AC1015"), ""), (Some(-1), None));
    assert_eq!(line_common(Some("AC1014"), ""), (None, None));
    assert_eq!(line_common(None, ""), (None, None));
}

#[test]
fn bytes_that_are_valid_utf8_read_the_same_as_the_text() {
    let (decoded, warnings) = undxf::decode(DRAWING.as_bytes());
    assert_eq!(decoded, DRAWING);
    assert!(warnings.is_empty());
    let (_, from_bytes, e1) = read_text(&decoded).unwrap();
    let (_, from_text, e2) = read_text(DRAWING).unwrap();
    assert_eq!((from_bytes, e1), (from_text, e2));
}

const MLINE_DRAWING: &str = "  0\nSECTION\n  2\nENTITIES\n  0\nMLINE\n  5\n2C\n100\nAcDbEntity\n  8\n0\n100\nAcDbMline\n  2\nWALL\n340\n1F\n 40\n1\n 70\n0\n 71\n3\n 72\n2\n 73\n2\n 10\n0\n 20\n0\n 30\n0\n 11\n0\n 21\n0\n 31\n0\n 12\n1\n 22\n0\n 32\n0\n 13\n0\n 23\n1\n 33\n0\n 74\n2\n 41\n0\n 41\n0\n 75\n0\n 74\n2\n 41\n0\n 41\n0\n 75\n0\n 11\n10\n 21\n0\n 31\n0\n 12\n1\n 22\n0\n 32\n0\n 13\n0\n 23\n1\n 33\n0\n 74\n2\n 41\n0\n 41\n0\n 75\n0\n 74\n2\n 41\n0\n 41\n0\n 75\n0\n  0\nENDSEC\n  0\nSECTION\n  2\nOBJECTS\n  0\nMLINESTYLE\n  5\n1F\n100\nAcDbMlineStyle\n  2\nWALL\n 70\n0\n  3\n\n 62\n256\n 51\n90\n 52\n90\n 71\n2\n 49\n0.5\n 62\n256\n  6\nBYLAYER\n 49\n-0.5\n 62\n256\n  6\nBYLAYER\n  0\nENDSEC\n  0\nEOF\n";

#[test]
fn a_multiline_keeps_its_points_and_miters_and_names_a_declared_style() {
    let (ps, outline, error) = read_text(MLINE_DRAWING).unwrap();
    assert!(error.is_none());
    let Item::Entity(mline) = &outline.items[0] else {
        panic!("the MLINE, got {:?}", outline.items[0]);
    };
    assert_eq!(ps[mline.head].value, "MLINE");
    // 71 = 3: bit 2 is set -- closed.
    assert_eq!(flag_set(&ps, mline.start, mline.end, 71, 2), Ok(true));
    let Item::MLineStyle { name, start, end } = &outline.items[1] else {
        panic!("the MLINESTYLE, got {:?}", outline.items[1]);
    };
    assert_eq!(name, "WALL");
    // Its two elements' offsets, read by pair in file order.
    let offsets: Vec<&str> = ps[*start..*end].iter().filter(|p| p.code == 49).map(|p| p.value).collect();
    assert_eq!(offsets, ["0.5", "-0.5"]);
    let styles = vec![name.clone()];
    let named = name_ref(text_at(&ps, mline.start, mline.end, 2));
    assert_eq!(resolve_name(named, &styles), NameRef::Resolved("WALL".to_string()));
    assert_eq!(
        resolve_name(name_ref(text_at(&ps, mline.start, mline.end, 2)), &vec![]),
        NameRef::Unresolved("WALL".to_string())
    );
}
