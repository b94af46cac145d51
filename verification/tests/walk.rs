use undxf::entity::{face_vertex, FaceVertex};
use undxf::mesh::{mesh_wireframe, polyface_wireframe};
use undxf::outline::Item;
use undxf::read::read_text;
use undxf::record::text;
use undxf::pairs::{pairs, Pair};
use undxf::walk::{leader_lines, lwpolyline_vertices, repeated_numbers, repeated_points, PointAt};
use undxf::ReadError;

fn text_of(groups: &[(i32, &str)]) -> String {
    groups.iter().map(|(code, value)| format!("{code:>3}\n{value}\n")).collect()
}

fn numbers(ps: &[Pair<'_>]) -> Vec<Option<bool>> {
    ps.iter().map(|p| p.value.trim().parse::<f64>().ok().map(|v| v != 0.0)).collect()
}

fn at<'a>(ps: &[Pair<'a>], i: Option<usize>) -> Option<&'a str> {
    i.map(|i| ps[i].value)
}

#[test]
fn an_lwpolyline_vertex_carries_the_bulge_written_after_it() {
    let text = text_of(&[
        (90, "3"),
        (70, "1"),
        (10, "0"),
        (20, "0"),
        (10, "1"),
        (20, "0"),
        (42, "0.5"),
        (10, "1"),
        (20, "1"),
        (42, "-1"),
    ]);
    let ps = pairs(&text).unwrap();
    let (vertices, read) = lwpolyline_vertices(&ps, 0, ps.len());
    let bulges: Vec<_> = vertices.iter().map(|v| at(&ps, v.bulge)).collect();
    assert_eq!(bulges, [None, Some("0.5"), Some("-1")]);
    assert_eq!((ps[vertices[2].x].value, at(&ps, vertices[2].y)), ("1", Some("1")));
    assert_eq!(read, [2, 3, 4, 5, 6, 7, 8, 9]);
}

#[test]
fn a_width_before_the_first_vertex_belongs_to_none() {
    let text = text_of(&[(43, "0"), (40, "9"), (10, "0"), (20, "0"), (40, "1"), (41, "2"), (10, "5")]);
    let ps = pairs(&text).unwrap();
    let (vertices, read) = lwpolyline_vertices(&ps, 0, ps.len());
    assert_eq!(vertices.len(), 2);
    assert_eq!((at(&ps, vertices[0].start_width), at(&ps, vertices[0].end_width)), (Some("1"), Some("2")));
    assert_eq!((vertices[1].y, vertices[1].start_width), (None, None));
    assert_eq!(read, [2, 3, 4, 5, 6]);
}

#[test]
fn repeated_points_take_their_y_and_z_where_they_follow() {
    let text = text_of(&[(11, "1"), (21, "2"), (31, "3"), (11, "4"), (21, "5"), (8, "0"), (11, "6")]);
    let ps = pairs(&text).unwrap();
    let points = repeated_points(&ps, 0, ps.len(), 11);
    assert_eq!(
        points,
        [
            PointAt { x: 0, y: Some(1), z: Some(2) },
            PointAt { x: 3, y: Some(4), z: None },
            PointAt { x: 6, y: None, z: None },
        ]
    );
}

#[test]
fn a_multileader_reads_the_points_of_each_leader_line_block() {
    let text = text_of(&[
        (300, "CONTEXT_DATA{"),
        (10, "5"),
        (20, "5"),
        (30, "0"),
        (302, "LEADER{"),
        (10, "4"),
        (20, "5"),
        (30, "0"),
        (304, "LEADER_LINE{"),
        (10, "0"),
        (20, "0"),
        (30, "0"),
        (10, "2"),
        (20, "3"),
        (30, "0"),
        (91, "0"),
        (305, "}"),
        (304, "LEADER_LINE{"),
        (10, "0"),
        (20, "9"),
        (30, "1"),
        (91, "1"),
        (305, "}"),
        (304, "LEADER_LINE{"),
        (91, "2"),
        (305, "}"),
        (303, "}"),
        (301, "}"),
    ]);
    let ps = pairs(&text).unwrap();
    let (lines, read) = leader_lines(&ps, 0, ps.len());
    let values: Vec<Vec<(&str, Option<&str>, Option<&str>)>> = lines
        .iter()
        .map(|l| l.iter().map(|p| (ps[p.x].value, at(&ps, p.y), at(&ps, p.z))).collect())
        .collect();
    assert_eq!(
        values,
        [
            vec![("0", Some("0"), Some("0")), ("2", Some("3"), Some("0"))],
            vec![("0", Some("9"), Some("1"))],
        ]
    );
    assert_eq!(read, [9, 10, 11, 12, 13, 14, 18, 19, 20]);
}

#[test]
fn every_number_of_a_group_is_read_and_the_first_that_is_not_one_is_the_error() {
    let text = text_of(&[(40, "0"), (72, "3"), (40, "1.5"), (40, "1")]);
    let ps = pairs(&text).unwrap();
    assert_eq!(repeated_numbers(&ps, &numbers(&ps), 0, ps.len(), 40).unwrap(), [0, 2, 3]);
    let text = text_of(&[(40, "0"), (40, "x"), (40, "y")]);
    let ps = pairs(&text).unwrap();
    assert_eq!(
        repeated_numbers(&ps, &numbers(&ps), 0, ps.len(), 40).unwrap_err(),
        ReadError::BadNumber { line: 3, code: 40, text: "x".to_string() }
    );
}

#[test]
fn a_grid_is_joined_along_its_rows_and_its_columns() {
    // Two rows of three: rows joined column by column, then each row along.
    let positions: Vec<u32> = (0..6).collect();
    let (edges, skipped) = mesh_wireframe(&positions, 2, 3, false, false);
    assert_eq!(skipped, 0);
    assert_eq!(edges, [(0, 3), (1, 4), (2, 5), (0, 1), (1, 2), (3, 4), (4, 5)]);
    // Closed both ways: the last row joins the first, the last column the first.
    let (edges, skipped) = mesh_wireframe(&positions, 2, 3, true, true);
    assert_eq!(skipped, 0);
    assert_eq!(edges.len(), 2 * 3 + 2 * 3);
    assert!(edges.contains(&(3, 0)) && edges.contains(&(2, 0)) && edges.contains(&(5, 3)));
    assert_eq!(
        edges,
        [(0, 3), (1, 4), (2, 5), (3, 0), (4, 1), (5, 2), (0, 1), (1, 2), (2, 0), (3, 4), (4, 5), (5, 3)]
    );
}

#[test]
fn a_grid_whose_vertices_do_not_fill_it_is_skipped_whole() {
    let positions: Vec<u32> = (0..5).collect();
    assert_eq!(mesh_wireframe(&positions, 2, 3, false, false), (vec![], 7));
    assert_eq!(mesh_wireframe(&Vec::<u32>::new(), 0, 0, false, false), (vec![], 0));
    assert_eq!(mesh_wireframe(&Vec::<u32>::new(), 2, 2, true, true), (vec![], 8));
    assert_eq!(mesh_wireframe(&positions, usize::MAX, 2, true, false).1, usize::MAX);
}

#[test]
fn a_polyface_mesh_reads_as_the_wireframe_of_its_faces() {
    let vertex = |groups: &str| format!("  0\nVERTEX\n  8\n0\n{groups}");
    let position = |x: u8, y: u8| vertex(&format!(" 10\n{x}\n 20\n{y}\n 30\n0\n 70\n192\n"));
    let face = |a: i32, b: i32, c: i32, d: i32| {
        vertex(&format!(" 10\n0\n 20\n0\n 30\n0\n 70\n128\n 71\n{a}\n 72\n{b}\n 73\n{c}\n 74\n{d}\n"))
    };
    let drawing = [
        "  0\nSECTION\n  2\nENTITIES\n  0\nPOLYLINE\n  5\n2A\n  8\n0\n 66\n1\n 70\n64\n 71\n4\n 72\n2\n".to_string(),
        position(0, 0),
        position(1, 0),
        position(1, 1),
        position(0, 1),
        // A quad whose last edge is invisible, then a triangle with an
        // unused fourth corner, then a face naming a fifth position.
        face(1, 2, 3, -4),
        face(1, 3, 4, 0),
        face(1, 5, 0, 0),
        "  0\nSEQEND\n  8\n0\n  0\nENDSEC\n  0\nEOF\n".to_string(),
    ]
    .concat();
    let (ps, outline, error) = read_text(&drawing).unwrap();
    assert_eq!(error, None);
    let Item::Entity(g) = &outline.items[0] else { panic!("the POLYLINE") };
    let mut positions: Vec<(&str, &str)> = Vec::new();
    let mut faces: Vec<[i64; 4]> = Vec::new();
    for m in &g.members {
        match face_vertex(&ps, m.start, m.end).unwrap() {
            FaceVertex::Position => positions.push((
                text(&ps, m.start, m.end, 10).unwrap(),
                text(&ps, m.start, m.end, 20).unwrap(),
            )),
            FaceVertex::Face(c) => faces.push(c),
            FaceVertex::Neither => panic!("every vertex is a position or a face"),
        }
    }
    assert_eq!(faces, [[1, 2, 3, -4], [1, 3, 4, 0], [1, 5, 0, 0]]);
    assert_eq!(
        polyface_wireframe(&positions, &faces),
        [
            (("0", "0"), ("1", "0")),
            (("1", "0"), ("1", "1")),
            (("1", "1"), ("0", "1")),
            (("0", "1"), ("0", "0")),
            (("0", "0"), ("1", "1")),
            (("1", "1"), ("0", "1")),
            (("0", "1"), ("0", "0")),
        ]
    );
}
