use undxf::entity::object_handle;
use undxf::outline::Item;
use undxf::pairs::Pair;
use undxf::read::read_text;
use undxf::record::NameRef;
use undxf::resolve::resolve_name;
use undxf::style::{image_def, ImageDefAt};

const FRAME: &str = "100\nAcDbRasterImage\n 90\n0\n 10\n10\n 20\n5\n 30\n0\n 11\n0.5\n 21\n0\n 31\n0\n 12\n0\n 22\n0.5\n 32\n0\n 13\n40\n 23\n20\n340\n80F\n 70\n7\n280\n1\n281\n50\n282\n60\n283\n10\n";

const DEFINITION: &str = "  0\nIMAGEDEF\n  5\n80F\n100\nAcDbRasterImageDef\n 90\n0\n  1\nimages/plan.png\n 10\n40\n 20\n20\n 11\n0.1\n 21\n0.1\n280\n1\n281\n2\n";

fn drawing(objects: &str) -> String {
    format!(
        "  0\nSECTION\n  2\nENTITIES\n  0\nIMAGE\n  5\n2A\n100\nAcDbEntity\n  8\n0\n{FRAME}  0\nENDSEC\n  0\nSECTION\n  2\nOBJECTS\n{objects}  0\nENDSEC\n  0\nEOF\n"
    )
}

fn numbers(ps: &[Pair<'_>]) -> Vec<Option<bool>> {
    ps.iter().map(|p| p.value.trim().parse::<f64>().ok().map(|v| v != 0.0)).collect()
}

/// The image's definition, resolved against the definitions the drawing
/// reads, and those definitions.
fn read(text: &str) -> (NameRef, Vec<ImageDefAt>, Vec<String>) {
    let (ps, outline, error) = read_text(text).unwrap();
    assert_eq!(error, None);
    let fl = numbers(&ps);
    let mut definitions = Vec::new();
    let mut reference = NameRef::Absent;
    for item in &outline.items {
        match item {
            Item::ImageDef { start, end } => {
                if let Some(d) = image_def(&ps, &fl, *start, *end).unwrap() {
                    definitions.push(d);
                }
            }
            Item::Entity(g) => reference = object_handle(&ps, g.start, g.end, 340),
            _ => {}
        }
    }
    let handles: Vec<String> = definitions.iter().map(|d| d.handle.clone()).collect();
    let values = definitions
        .iter()
        .flat_map(|d| {
            [d.size_pixels.x, d.size_pixels.y, d.pixel_size.x, d.pixel_size.y]
                .map(|i| ps[i.unwrap()].value.to_string())
        })
        .collect();
    (resolve_name(reference, &handles), definitions, values)
}

#[test]
fn an_image_carries_its_frame_its_settings_and_its_definition() {
    let (reference, definitions, values) = read(&drawing(DEFINITION));
    assert_eq!(reference, NameRef::Resolved("80F".to_string()));
    let [d] = definitions.as_slice() else { panic!("{definitions:?}") };
    assert_eq!(d.handle, "80F");
    assert_eq!(d.file_path.as_deref(), Some("images/plan.png"));
    assert_eq!(values, ["40", "20", "0.1", "0.1"]);
    assert_eq!((d.loaded, d.resolution_unit), (Some(true), Some(2)));
}

#[test]
fn a_definition_nothing_answers_to_keeps_the_handle() {
    let (reference, definitions, _) = read(&drawing(""));
    assert_eq!(reference, NameRef::Unresolved("80F".to_string()));
    assert!(definitions.is_empty());
}
