use undxf::read::read_text;
use undxf::record::NameRef;
use undxf::resolve::{
    contains, is_space, lookup, names, resolve_block_record, resolve_entity, resolve_frozen_layer,
    resolve_entity_names, resolve_name, resolve_text_style, EntityNames, EntityRef,
};
use undxf::listing::{listing, Listed};

fn owned(names: &[&str]) -> Vec<String> {
    names.iter().map(|s| s.to_string()).collect()
}

fn entries(pairs: &[(&str, &str)]) -> Vec<(String, String)> {
    pairs.iter().map(|(k, v)| (k.to_string(), v.to_string())).collect()
}

fn unresolved(s: &str) -> NameRef {
    NameRef::Unresolved(s.to_string())
}

#[test]
fn a_declared_name_resolves_and_an_undeclared_one_keeps_its_name() {
    let declared = owned(&["WALLS", "DOORS"]);
    assert_eq!(resolve_name(unresolved("WALLS"), &declared), NameRef::Resolved("WALLS".to_string()));
    assert_eq!(resolve_name(unresolved("walls"), &declared), unresolved("walls"));
    assert_eq!(resolve_name(NameRef::Absent, &declared), NameRef::Absent);
    let resolved = resolve_name(unresolved("DOORS"), &declared);
    assert_eq!(resolve_name(resolved.clone(), &declared), resolved, "resolving twice changes nothing");
    assert!(contains(&declared, "DOORS") && !contains(&declared, "ROOF"));
}

#[test]
fn a_text_that_names_no_style_is_in_the_standard_one_in_any_case() {
    let styles = owned(&["Annotative", "standard", "STANDARD"]);
    assert_eq!(resolve_text_style(NameRef::Absent, &styles), NameRef::Resolved("STANDARD".to_string()));
    assert_eq!(resolve_text_style(NameRef::Absent, &owned(&["Annotative"])), NameRef::Absent);
    assert_eq!(
        resolve_text_style(unresolved("Annotative"), &styles),
        NameRef::Resolved("Annotative".to_string())
    );
    assert_eq!(resolve_text_style(unresolved("ROMANS"), &styles), unresolved("ROMANS"));
}

#[test]
fn a_later_entry_of_a_table_replaces_an_earlier() {
    let table = entries(&[("1F", "A"), ("2", "B"), ("1F", "C")]);
    assert_eq!(lookup(&table, "1F"), Some("C".to_string()));
    assert_eq!(lookup(&table, "2"), Some("B".to_string()));
    assert_eq!(lookup(&table, "3"), None);
}

#[test]
fn a_layouts_block_is_named_through_its_block_record() {
    let handles = entries(&[("1F", "*Paper_Space")]);
    let blocks = owned(&["*Paper_Space"]);
    assert_eq!(
        resolve_block_record(unresolved("1F"), &handles, &blocks),
        NameRef::Resolved("*Paper_Space".to_string())
    );
    assert_eq!(resolve_block_record(unresolved("1F"), &handles, &vec![]), unresolved("*Paper_Space"));
    assert_eq!(resolve_block_record(unresolved("20"), &handles, &blocks), unresolved("20"));
    assert_eq!(resolve_block_record(NameRef::Absent, &handles, &blocks), NameRef::Absent);
}

#[test]
fn a_frozen_layer_is_named_through_the_layer_handles() {
    let handles = entries(&[("1F", "WALLS")]);
    assert_eq!(resolve_frozen_layer(unresolved("1F"), &handles), NameRef::Resolved("WALLS".to_string()));
    assert_eq!(resolve_frozen_layer(unresolved("2A"), &handles), unresolved("2A"));
}

#[test]
fn an_entity_reference_resolves_to_the_entity_its_handle_names() {
    let ids = vec![0x2b, 0x30];
    assert_eq!(resolve_entity(EntityRef::Unresolved("2b".to_string()), &ids), EntityRef::Resolved(0x2b));
    assert_eq!(resolve_entity(EntityRef::Unresolved("2C".to_string()), &ids), EntityRef::Unresolved("2C".to_string()));
    assert_eq!(resolve_entity(EntityRef::Unresolved("zz".to_string()), &ids), EntityRef::Unresolved("zz".to_string()));
    assert_eq!(resolve_entity(EntityRef::Absent, &ids), EntityRef::Absent);
}

#[test]
fn the_model_space_and_every_paper_space_block_are_spaces() {
    assert!(is_space("*Model_Space"));
    assert!(is_space("*MODEL_SPACE"));
    assert!(is_space("*Paper_Space"));
    assert!(is_space("*paper_space0"));
    assert!(!is_space("*Paper_Spac"));
    assert!(!is_space("DOOR"));
}

const DRAWING: &str = "  0\nSECTION\n  2\nTABLES\n  0\nTABLE\n  2\nLAYER\n  0\nLAYER\n  5\n1f\n  2\nWALLS\n 70\n0\n  0\nENDTAB\n  0\nTABLE\n  2\nSTYLE\n  0\nSTYLE\n  2\nStandard\n  0\nENDTAB\n  0\nTABLE\n  2\nDIMSTYLE\n  0\nDIMSTYLE\n  2\nISO-25\n  0\nENDTAB\n  0\nENDSEC\n  0\nSECTION\n  2\nBLOCKS\n  0\nBLOCK\n  2\nDOOR\n  0\nLINE\n  8\n0\n  0\nENDBLK\n  0\nENDSEC\n  0\nSECTION\n  2\nENTITIES\n  0\nCIRCLE\n  8\nWALLS\n 40\n1\n  0\nENDSEC\n  0\nEOF\n";

#[test]
fn the_names_a_drawing_declares_are_collected_in_file_order() {
    let (_, outline, error) = read_text(DRAWING).unwrap();
    assert_eq!(error, None);
    let n = names(&outline);
    assert_eq!(n.layers, owned(&["WALLS"]));
    assert_eq!(n.layer_handles, entries(&[("1F", "WALLS")]));
    assert_eq!(n.text_styles, owned(&["Standard"]));
    assert_eq!(n.dim_styles, owned(&["ISO-25"]));
    assert!(n.mlinestyles.is_empty());
    assert_eq!(n.blocks, owned(&["DOOR", "DOOR", "*Model_Space"]));
}

#[test]
fn every_name_an_entity_writes_goes_to_its_own_rule() {
    let (_, outline, _) = read_text(DRAWING).unwrap();
    let mut n = names(&outline);
    n.linetypes = owned(&["HIDDEN"]);
    let e = EntityNames {
        layer: unresolved("WALLS"),
        linetype: Some(unresolved("DASHED")),
        text_style: Some(NameRef::Absent),
        dim_style: Some(unresolved("ISO-25")),
        mline_style: Some(unresolved("WALL")),
        block: Some(unresolved("DOOR")),
        frozen_layers: vec![unresolved("1F"), unresolved("99")],
        attribute_layers: vec![unresolved("GHOST")],
        attribute_styles: vec![unresolved("Standard")],
    };
    let r = resolve_entity_names(e, &n);
    assert_eq!(r.layer, NameRef::Resolved("WALLS".to_string()));
    assert_eq!(r.linetype, Some(unresolved("DASHED")), "an undeclared name keeps its name");
    assert_eq!(r.text_style, Some(NameRef::Resolved("Standard".to_string())));
    assert_eq!(r.dim_style, Some(NameRef::Resolved("ISO-25".to_string())));
    assert_eq!(r.mline_style, Some(unresolved("WALL")));
    assert_eq!(r.block, Some(NameRef::Resolved("DOOR".to_string())));
    assert_eq!(r.frozen_layers, [NameRef::Resolved("WALLS".to_string()), unresolved("99")]);
    assert_eq!(r.attribute_layers, [unresolved("GHOST")]);
    assert_eq!(r.attribute_styles, [NameRef::Resolved("Standard".to_string())]);
}

#[test]
fn the_drawings_own_entities_are_those_of_its_space_blocks_in_the_order_of_their_names() {
    let text = "  0\nSECTION\n  2\nENTITIES\n  0\nCIRCLE\n 67\n1\n 40\n1\n  0\nINSERT\n  2\nDOOR\n 66\n1\n  0\nATTRIB\n  2\nT1\n  0\nATTRIB\n  2\nT2\n  0\nSEQEND\n  0\nLINE\n  8\n0\n  0\nENDSEC\n  0\nSECTION\n  2\nBLOCKS\n  0\nBLOCK\n  2\nDOOR\n  0\nARC\n  8\n0\n  0\nENDBLK\n  0\nENDSEC\n  0\nEOF\n";
    let (ps, outline, error) = read_text(text).unwrap();
    assert_eq!(error, None);
    // Items: CIRCLE (paper) 0, INSERT 1, LINE 2, ARC (in DOOR) 3, the block's end 4.
    assert_eq!(
        listing(&ps, &outline),
        [
            Listed::Entity(1),
            Listed::Attribute(1, 0),
            Listed::Attribute(1, 1),
            Listed::Entity(2),
            Listed::Entity(0),
        ]
    );
}
