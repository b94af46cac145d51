use undxf::entity::{
    attribute_flags, common_head, dimension_kind, spline_codes, handle_ref, justification, kind_of_flag,
    kind_of_markers, leader_codes, linetype, missing_required_groups, mtext_string, name_ref,
    ordinate_axis, polyline_kind, signed_decimal_string, text_override,
    viewport_on, DimensionKind, Horizontal, LeaderAnnotation, LeaderPath, LineType,
    OrdinateAxis, PolylineKind, TextOverride, Vertical, HANDLELESS_ID_BASE,
};
use undxf::entity::{attachment, frozen_layers, invisible_edges, fourth_corner_group, justified, space, Attachment};
use undxf::outline::Space;
use undxf::pairs::pairs;
use undxf::record::{common_part, find, int_group, text, NameRef};
use undxf::resolve::{resolve_entity, resolve_frozen_layer, resolve_name, EntityRef};
use undxf::ReadError;

#[test]
fn a_required_group_that_is_absent_is_reported_rather_than_filled() {
    let tagged = pairs("  5\n40\n  8\n0\n  2\nPART\n  1\nX\n 10\n0\n 20\n0\n 40\n2.5\n").unwrap();
    assert!(missing_required_groups("ATTRIB", &tagged, 0, tagged.len()).is_empty());
    let untagged = pairs("  5\n41\n  8\n0\n  1\nX\n 10\n0\n 20\n0\n 40\n2.5\n").unwrap();
    assert_eq!(
        missing_required_groups("ATTRIB", &untagged, 0, untagged.len()),
        vec!["MISSING_REQUIRED_GROUP: ATTRIB carries no tag (group 2); the entity is kept with an empty one".to_string()]
    );
}

#[test]
fn a_size_the_file_does_not_state_is_reported_not_passed_off_as_zero() {
    let circle = pairs("  5\n50\n  8\n0\n 10\n1\n 20\n1\n").unwrap();
    assert_eq!(
        missing_required_groups("CIRCLE", &circle, 0, circle.len()),
        vec!["MISSING_REQUIRED_GROUP: CIRCLE carries no radius (group 40); the entity is kept with 0".to_string()]
    );
    let arc = pairs("  5\n51\n  8\n0\n 10\n0\n 20\n0\n 40\n2\n").unwrap();
    assert_eq!(
        missing_required_groups("ARC", &arc, 0, arc.len()),
        vec![
            "MISSING_REQUIRED_GROUP: ARC carries no start angle (group 50); the entity is kept with 0".to_string(),
            "MISSING_REQUIRED_GROUP: ARC carries no end angle (group 51); the entity is kept with 0".to_string(),
        ]
    );
    // An empty value is as absent as no group at all.
    let empty = pairs("  5\n52\n 40\n\n  8\n0\n").unwrap();
    assert_eq!(missing_required_groups("CIRCLE", &empty, 0, empty.len()).len(), 1);
}

#[test]
fn an_omitted_rotation_is_read_not_reported() {
    let text = pairs("  5\n52\n  8\n0\n 10\n0\n 20\n0\n 40\n2.5\n  1\nA\n").unwrap();
    assert!(missing_required_groups("TEXT", &text, 0, text.len()).is_empty());
    assert!(missing_required_groups("WIDGET", &text, 0, text.len()).is_empty());
}

#[test]
fn an_entitys_id_is_its_handle_and_a_handleless_one_is_numbered_above_every_handle() {
    let ps = pairs("  5\n2b\n  8\nWALLS\n 62\n5\n420\n33554636\n 60\n1\n  6\nHIDDEN\n").unwrap();
    let head = common_head(&ps, 0, ps.len(), 7).unwrap();
    assert_eq!(head.id, 0x2b);
    assert_eq!(head.source_handle, NameRef::Resolved("2B".to_string()));
    assert_eq!(head.layer, NameRef::Unresolved("WALLS".to_string()));
    assert_eq!(head.color_index, 5);
    assert_eq!(head.true_color, Some(33554636 & 0xff_ffff));
    assert!(head.invisible);
    assert_eq!(head.linetype, LineType::Named(NameRef::Unresolved("HIDDEN".to_string())));

    let ps = pairs("  8\n0\n").unwrap();
    let head = common_head(&ps, 0, ps.len(), 7).unwrap();
    assert_eq!(head.id, HANDLELESS_ID_BASE | 7);
    assert_eq!(head.source_handle, NameRef::Absent);
    assert_eq!(head.color_index, 256, "no colour is ByLayer");
    assert!(!head.invisible);

    let ps = pairs("  5\nZZ\n").unwrap();
    assert_eq!(
        common_head(&ps, 0, ps.len(), 1).unwrap_err(),
        ReadError::BadNumber { line: 1, code: 5, text: "ZZ".to_string() }
    );
}

#[test]
fn bylayer_and_byblock_are_not_table_entries_and_an_undeclared_name_stays_unresolved() {
    assert_eq!(linetype(None), LineType::ByLayer);
    assert_eq!(linetype(Some(" bylayer ")), LineType::ByLayer);
    assert_eq!(linetype(Some("ByBlock")), LineType::ByBlock);
    assert_eq!(
        linetype(Some("DASHED")),
        LineType::Named(NameRef::Unresolved("DASHED".to_string()))
    );
    let declared = vec!["HIDDEN".to_string()];
    assert_eq!(
        resolve_name(NameRef::Unresolved("DASHED".to_string()), &declared),
        NameRef::Unresolved("DASHED".to_string())
    );
    assert_eq!(
        resolve_name(NameRef::Unresolved("HIDDEN".to_string()), &declared),
        NameRef::Resolved("HIDDEN".to_string())
    );
}

#[test]
fn an_arc_length_dimension_is_named_not_flagged() {
    let ps = pairs("100\nAcDbDimension\n 70\n5\n").unwrap();
    assert_eq!(
        dimension_kind("ARC_DIMENSION", Some(5), &ps, 0, ps.len()),
        Some(DimensionKind::ArcLength)
    );
    assert_eq!(
        dimension_kind("DIMENSION", Some(5), &ps, 0, ps.len()),
        Some(DimensionKind::Angular3Point)
    );
}

#[test]
fn the_subtype_is_the_low_three_bits_of_group_70() {
    let kinds = [
        DimensionKind::Rotated,
        DimensionKind::Aligned,
        DimensionKind::Angular2Line,
        DimensionKind::Diameter,
        DimensionKind::Radius,
        DimensionKind::Angular3Point,
        DimensionKind::Ordinate,
    ];
    for (low, kind) in kinds.iter().enumerate() {
        assert_eq!(kind_of_flag(32 + low as i64), Some(*kind), "flag {}", 32 + low);
        assert_eq!(kind_of_flag(low as i64), Some(*kind));
    }
    assert_eq!(kind_of_flag(39), None);
    assert_eq!(kind_of_flag(7), None);
}

#[test]
fn a_dimension_without_group_70_falls_back_to_its_subclass_markers() {
    let ps = pairs("100\nAcDbEntity\n100\nAcDbDimension\n100\nAcDbAlignedDimension\n100\nAcDbRotatedDimension\n").unwrap();
    assert_eq!(kind_of_markers(&ps, 0, ps.len()), Some(DimensionKind::Rotated));
    assert_eq!(dimension_kind("DIMENSION", None, &ps, 0, ps.len()), Some(DimensionKind::Rotated));
    assert_eq!(dimension_kind("DIMENSION", Some(7), &ps, 0, ps.len()), Some(DimensionKind::Rotated));
}

#[test]
fn a_dimension_with_neither_group_70_nor_markers_states_no_kind() {
    let ps = pairs("  5\n2A\n  8\n0\n 10\n1.0\n").unwrap();
    assert_eq!(kind_of_markers(&ps, 0, ps.len()), None);
    assert_eq!(dimension_kind("DIMENSION", None, &ps, 0, ps.len()), None);
}

#[test]
fn a_dimension_without_group_70_states_no_kind() {
    let ps = pairs("  5\n2A\n  8\n0\n 10\n1.0\n 42\n2.0\n").unwrap();
    assert_eq!(int_group(&ps, 0, ps.len(), 70).unwrap(), None);
    assert_eq!(dimension_kind("DIMENSION", None, &ps, 0, ps.len()), None);
    assert_eq!(text(&ps, 0, ps.len(), 42), Some("2.0"));
}

#[test]
fn a_dimension_without_group_42_states_no_measurement() {
    let ps = pairs("  5\n2A\n  8\n0\n 70\n0\n 10\n1.0\n").unwrap();
    assert_eq!(find(&ps, 0, ps.len(), 42), None);
}

#[test]
fn a_linear_dimension_states_its_measurement_points_and_style() {
    let ps = pairs("  5\n2A\n  8\n0\n  2\n*D1\n  3\nISO-25\n 70\n32\n 10\n1.0\n 20\n2.0\n 11\n3.0\n 21\n4.0\n 13\n5.0\n 23\n6.0\n 14\n7.0\n 24\n8.0\n 42\n9.5\n").unwrap();
    let flag = int_group(&ps, 0, ps.len(), 70).unwrap();
    assert_eq!(dimension_kind("DIMENSION", flag, &ps, 0, ps.len()), Some(DimensionKind::Rotated));
    assert_eq!(text(&ps, 0, ps.len(), 42), Some("9.5"));
    assert_eq!(text_override(text(&ps, 0, ps.len(), 1)), TextOverride::Measured);
    assert_eq!(name_ref(text(&ps, 0, ps.len(), 3)), NameRef::Unresolved("ISO-25".to_string()));
    // 15 and 16 belong to other subtypes: not stated here.
    assert_eq!((find(&ps, 0, ps.len(), 15), find(&ps, 0, ps.len(), 16)), (None, None));
}

#[test]
fn an_entitys_colour_is_its_own_not_a_subclass_group_with_the_same_code() {
    // A section object's own subclass writes a group 62; the entity's
    // colour is the AcDbEntity part's, here absent -- ByLayer.
    let ps = pairs("  5\n228\n100\nAcDbEntity\n  8\n0\n100\nAcDbSection\n 90\n1\n 62\n9\n").unwrap();
    let head = common_part(&ps, 0, ps.len());
    assert_eq!(common_head(&ps, 0, head, 1).unwrap().color_index, 256);
}

#[test]
fn an_entity_marked_invisible_reads_as_invisible_and_one_not_marked_as_visible() {
    let hidden = pairs("  8\n0\n 60\n1\n 10\n0\n 20\n0\n 40\n1\n").unwrap();
    let shown = pairs("  8\n0\n 10\n0\n 20\n0\n 40\n1\n").unwrap();
    assert!(common_head(&hidden, 0, hidden.len(), 1).unwrap().invisible);
    assert!(!common_head(&shown, 0, shown.len(), 2).unwrap().invisible);
}

#[test]
fn bit_64_says_which_axis_an_ordinate_dimension_measures() {
    assert_eq!(ordinate_axis(Some(DimensionKind::Ordinate), Some(70)), Some(OrdinateAxis::X));
    assert_eq!(ordinate_axis(Some(DimensionKind::Ordinate), Some(6)), Some(OrdinateAxis::Y));
    assert_eq!(ordinate_axis(Some(DimensionKind::Rotated), Some(64)), None);
}

#[test]
fn the_spellings_of_no_override_fold_into_one_value() {
    assert_eq!(text_override(None), TextOverride::Measured);
    assert_eq!(text_override(Some("")), TextOverride::Measured);
    assert_eq!(text_override(Some("<>")), TextOverride::Measured);
    assert_eq!(text_override(Some(" ")), TextOverride::Suppressed);
    assert_eq!(text_override(Some("<> H7")), TextOverride::Literal("<> H7".to_string()));
}

#[test]
fn an_alignment_outside_the_format_is_reported_and_read_as_the_default() {
    let ps = pairs(" 72\n9\n 73\n-1\n").unwrap();
    let (h, v, warnings) = justification("TEXT", &ps, 0, ps.len(), 73).unwrap();
    assert_eq!((h, v), (Horizontal::Left, Vertical::Baseline));
    assert_eq!(
        warnings,
        vec![
            "TEXT_ALIGNMENT: a TEXT states horizontal alignment 9 (group 72), outside 0 to 5; it is read as left".to_string(),
            "TEXT_ALIGNMENT: a TEXT states vertical alignment -1 (group 73), outside 0 to 3; it is read as baseline".to_string(),
        ]
    );
    let ps = pairs(" 72\n7\n 73\n9\n").unwrap();
    let (h, v, warnings) = justification("TEXT", &ps, 0, ps.len(), 73).unwrap();
    assert_eq!((h, v), (Horizontal::Left, Vertical::Baseline));
    assert_eq!(warnings.len(), 2);
    assert!(warnings.iter().all(|w| w.starts_with("TEXT_ALIGNMENT:")));
}

#[test]
fn an_attribute_reads_its_vertical_alignment_from_74_not_73() {
    // In an ATTRIB, 73 is the field length; the vertical alignment is 74.
    let ps = pairs(" 10\n1\n 20\n2\n 40\n2.5\n  1\nBP-1042\n 41\n0.9\n 72\n2\n 11\n40\n 21\n3\n  2\nDWGNO\n 70\n0\n 73\n12\n 74\n2\n").unwrap();
    let (h, v, warnings) = justification("ATTRIB", &ps, 0, ps.len(), 74).unwrap();
    assert_eq!((h, v), (Horizontal::Right, Vertical::Middle));
    assert!(warnings.is_empty(), "{warnings:?}");
}

#[test]
fn a_text_that_states_no_alignment_is_left_and_baseline_at_its_normal_width() {
    let ps = pairs(" 10\n0\n 20\n0\n 40\n2.5\n  1\nA\n").unwrap();
    let (h, v, warnings) = justification("TEXT", &ps, 0, ps.len(), 73).unwrap();
    assert_eq!((h, v), (Horizontal::Left, Vertical::Baseline));
    assert!(warnings.is_empty(), "{warnings:?}");
}

#[test]
fn an_attributes_flags_are_one_per_bit() {
    let ps = pairs(" 70\n9\n").unwrap();
    let f = attribute_flags(&ps, 0, ps.len()).unwrap();
    assert!(f.invisible && !f.constant && !f.verify && f.preset);
    let none = pairs("  8\n0\n").unwrap();
    let f = attribute_flags(&none, 0, none.len()).unwrap();
    assert!(!f.invisible && !f.constant && !f.verify && !f.preset);
}

#[test]
fn the_status_flags_say_whether_a_viewport_is_on() {
    let on = pairs(" 68\n0\n 69\n0\n 90\n32800\n").unwrap();
    assert_eq!(viewport_on(&on, 0, on.len()).unwrap(), Some(true));
    let off = pairs(" 68\n0\n 69\n2\n 90\n163872\n").unwrap();
    assert_eq!(viewport_on(&off, 0, off.len()).unwrap(), Some(false));
    let stack_off = pairs(" 68\n0\n").unwrap();
    assert_eq!(viewport_on(&stack_off, 0, stack_off.len()).unwrap(), Some(false));
    let stack_on = pairs(" 68\n1\n").unwrap();
    assert_eq!(viewport_on(&stack_on, 0, stack_on.len()).unwrap(), Some(true));
    let neither = pairs(" 10\n100.0\n").unwrap();
    assert_eq!(viewport_on(&neither, 0, neither.len()).unwrap(), None);
}

#[test]
fn frozen_layers_resolve_from_handles_to_names() {
    let ps = pairs(" 10\n100.0\n341\n1f\n341\n99\n").unwrap();
    let handles = vec![("1F".to_string(), "WALLS".to_string())];
    let resolved: Vec<NameRef> = frozen_layers(&ps, 0, ps.len())
        .into_iter()
        .map(|r| resolve_frozen_layer(r, &handles))
        .collect();
    assert_eq!(
        resolved,
        [NameRef::Resolved("WALLS".to_string()), NameRef::Unresolved("99".to_string())]
    );
}

#[test]
fn a_leader_whose_file_omits_the_arrowhead_flag_does_not_say_either_way() {
    let omitted = pairs(" 10\n0\n").unwrap();
    assert_eq!(
        leader_codes(&omitted, 0, omitted.len()).unwrap(),
        (None, None, LeaderAnnotation::Nothing)
    );
    let stated = pairs(" 71\n0\n 72\n1\n 73\n2\n").unwrap();
    assert_eq!(
        leader_codes(&stated, 0, stated.len()).unwrap(),
        (Some(false), Some(LeaderPath::Spline), LeaderAnnotation::Insert)
    );
}

#[test]
fn a_leader_reference_to_no_entity_keeps_its_handle_and_a_null_one_is_absent() {
    let dangling = pairs("340\n9f\n").unwrap();
    assert_eq!(handle_ref(&dangling, 0, 1, 340), EntityRef::Unresolved("9F".to_string()));
    let null = pairs("340\n0\n").unwrap();
    assert_eq!(handle_ref(&null, 0, 1, 340), EntityRef::Absent);
    let odd = pairs("340\nxyz\n").unwrap();
    assert_eq!(handle_ref(&odd, 0, 1, 340), EntityRef::Unresolved("XYZ".to_string()));
    assert_eq!(resolve_entity(handle_ref(&dangling, 0, 1, 340), &vec![0x40]), EntityRef::Unresolved("9F".to_string()));
}

#[test]
fn a_leader_reference_resolves_to_an_entity_written_after_it() {
    // The LEADER (handle 40) names the LINE (handle 41) written after it.
    let leader = pairs("  5\n40\n  8\n0\n 10\n0\n 20\n0\n 10\n1\n 20\n1\n340\n41\n").unwrap();
    let line = pairs("  5\n41\n  8\n0\n").unwrap();
    let ids = vec![
        common_head(&leader, 0, leader.len(), 1).unwrap().id,
        common_head(&line, 0, line.len(), 2).unwrap().id,
    ];
    assert_eq!(resolve_entity(handle_ref(&leader, 0, leader.len(), 340), &ids), EntityRef::Resolved(0x41));
}

#[test]
fn a_block_reference_to_no_block_stays_unresolved_with_its_name() {
    assert_eq!(name_ref(Some("")), NameRef::Absent);
    let blocks = vec!["DOOR".to_string()];
    assert_eq!(
        resolve_name(name_ref(Some("GHOST")), &blocks),
        NameRef::Unresolved("GHOST".to_string())
    );
}

#[test]
fn an_mtext_reads_its_pieces_its_direction_and_its_attachment() {
    let ps = pairs(
        " 10\n1\n 20\n2\n 40\n2.5\n 71\n5\n  3\nfirst piece, \n  1\nlast piece\n 11\n0\n 21\n1\n 31\n0\n",
    )
    .unwrap();
    assert_eq!(mtext_string(&ps, 0, ps.len()), "first piece, last piece");
    assert_eq!(attachment(&ps, 0, ps.len()), Ok(Some(Attachment::MiddleCenter)));
    // The direction is read by pair: group 11 at pair 6, group 21 at pair 7.
    assert_eq!((ps[6].value, ps[7].value), ("0", "1"));
    assert!(missing_required_groups("MTEXT", &ps, 0, ps.len()).is_empty());
}

#[test]
fn an_escape_split_across_mtext_pieces_is_still_one_character() {
    // A long MTEXT is written in 250-character pieces (group 3), and a
    // piece may end inside an escape; the paragraph break is MTEXT's own.
    let split = pairs(" 40\n1\n  3\nangle 90\\U+00\n  1\nB0\\Pnext\n").unwrap();
    assert_eq!(mtext_string(&split, 0, split.len()), "angle 90\u{b0}\\Pnext");
}

#[test]
fn a_polylines_flags_say_what_it_is() {
    assert_eq!(polyline_kind(16 | 1), PolylineKind::Mesh { closed_m: true, closed_n: false });
    assert_eq!(polyline_kind(64), PolylineKind::Polyface);
    assert_eq!(polyline_kind(8 | 1), PolylineKind::Polyline3D);
    assert_eq!(polyline_kind(0), PolylineKind::Polyline2D);
    assert_eq!(signed_decimal_string(-42), "-42");
}

#[test]
fn an_ellipse_without_its_parameters_is_kept_whole_and_reported() {
    let ps = pairs(" 10\n0\n 20\n0\n 11\n1\n 21\n0\n 40\n1\n").unwrap();
    let warnings = missing_required_groups("ELLIPSE", &ps, 0, ps.len());
    assert!(warnings.iter().any(|w| w.contains("start parameter (group 41)")), "{warnings:?}");
    assert!(warnings.iter().any(|w| w.contains("end parameter (group 42)")), "{warnings:?}");
}

#[test]
fn a_point_without_a_position_is_kept_and_reported() {
    let ps = pairs("  5\n2A\n  8\n0\n").unwrap();
    let warnings = missing_required_groups("POINT", &ps, 0, ps.len());
    assert!(warnings.iter().any(|w| w.contains("POINT carries no position (group 10)")), "{warnings:?}");
}

#[test]
fn a_spline_by_control_points_reads_its_whole_definition() {
    let ps = pairs(" 70\n8\n 71\n2\n 72\n6\n 73\n3\n 74\n0\n").unwrap();
    // 8 is "planar": neither closed nor periodic, and the record says so.
    assert_eq!(spline_codes(&ps, 0, ps.len()).unwrap(), (2, Some(false), Some(false)));
}

#[test]
fn a_spline_that_states_no_flags_and_no_weights_is_unstated_and_not_rational() {
    let ps = pairs(" 71\n3\n 11\n0\n 21\n0\n 31\n0\n").unwrap();
    assert_eq!(spline_codes(&ps, 0, ps.len()).unwrap(), (3, None, None));
}

#[test]
fn an_entity_is_in_paper_space_only_where_its_group_67_is_one() {
    let ps = pairs(" 67\n1\n").unwrap();
    assert_eq!(space(&ps, 0, ps.len()), Ok(Space::Paper));
    let ps = pairs(" 67\n0\n").unwrap();
    assert_eq!(space(&ps, 0, ps.len()), Ok(Space::Model));
    let ps = pairs("  8\n0\n").unwrap();
    assert_eq!(space(&ps, 0, ps.len()), Ok(Space::Model));
    let ps = pairs("  8\n0\n 67\nP\n").unwrap();
    assert_eq!(
        space(&ps, 0, ps.len()),
        Err(ReadError::BadNumber { line: 3, code: 67, text: "P".to_string() })
    );
}

#[test]
fn a_solid_without_a_fourth_corner_has_its_third_there() {
    let ps = pairs(" 10\n0\n 20\n0\n 11\n4\n 21\n0\n 12\n0\n 22\n3\n").unwrap();
    assert_eq!(fourth_corner_group(&ps, 0, ps.len()), 12);
    assert!(missing_required_groups("SOLID", &ps, 0, ps.len()).is_empty());
    let ps = pairs(" 12\n1\n 13\n2\n").unwrap();
    assert_eq!(fourth_corner_group(&ps, 0, ps.len()), 13);
}

#[test]
fn only_a_justified_text_has_an_alignment_point() {
    assert!(!justified(Horizontal::Left, Vertical::Baseline));
    assert!(justified(Horizontal::Center, Vertical::Baseline));
    assert!(justified(Horizontal::Left, Vertical::Top));
}

#[test]
fn a_3dfaces_group_70_says_which_edges_are_invisible() {
    let ps = pairs(" 70\n5\n").unwrap();
    assert_eq!(invisible_edges(&ps, 0, ps.len()), Ok([true, false, true, false]));
    let ps = pairs(" 10\n0\n").unwrap();
    assert_eq!(invisible_edges(&ps, 0, ps.len()), Ok([false; 4]));
    let ps = pairs(" 70\nx\n").unwrap();
    assert_eq!(
        invisible_edges(&ps, 0, ps.len()),
        Err(ReadError::BadNumber { line: 1, code: 70, text: "x".to_string() })
    );
}
