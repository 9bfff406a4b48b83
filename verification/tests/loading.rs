use ast_generator::{generate_unit, load_spec, GenError};

#[test]
fn well_formed_document_loads() {
    let entries =
        load_spec("{\"Shape\": [\"Circle : double radius\", \"Square : double side\"]}").unwrap();
    assert_eq!(entries.len(), 1);
    assert_eq!(entries[0].0, "Shape");
    assert_eq!(
        entries[0].1,
        vec![
            "Circle : double radius".to_string(),
            "Square : double side".to_string()
        ]
    );
}

#[test]
fn entries_come_out_ordered_by_basename() {
    let entries = load_spec("{\"Stmt\": [], \"Expr\": []}").unwrap();
    assert_eq!(entries.len(), 2);
    assert_eq!(entries[0].0, "Expr");
    assert_eq!(entries[1].0, "Stmt");
}

#[test]
fn unparsable_text_is_source_malformed() {
    assert_eq!(load_spec("not json at all"), Err(GenError::SourceMalformed));
}

#[test]
fn wrong_shape_is_source_malformed() {
    assert_eq!(
        load_spec("{\"Shape\": \"Circle : double radius\"}"),
        Err(GenError::SourceMalformed)
    );
    assert_eq!(load_spec("[1, 2, 3]"), Err(GenError::SourceMalformed));
}

#[test]
fn loaded_document_generates_end_to_end() {
    let entries =
        load_spec("{\"Shape\": [\"Circle : double radius\", \"Square : double side\"]}").unwrap();
    let (basename, specs) = &entries[0];
    let text = generate_unit(basename, specs).unwrap();
    assert!(text.contains("abstract class Shape {"));
    assert!(text.contains("R visitCircleShape(Circle shape);"));
    assert!(text.contains("Circle(double radius) {"));
    assert!(text.contains("final double side;"));
}
