use ast_generator::{
    default_basename, default_variants, generate_unit, output_path, parse_variants, GenError,
};

fn shape_specs() -> Vec<String> {
    vec![
        "Circle : double radius".to_string(),
        "Square : double side".to_string(),
    ]
}

#[test]
fn shape_unit_is_byte_exact() {
    let text = generate_unit("Shape", &shape_specs()).unwrap();
    let expected = "import java.util.List;

abstract class Shape {
    interface Visitor<R> {
        R visitCircleShape(Circle shape);
        R visitSquareShape(Square shape);
    }

    static class Circle extends Shape {
        Circle(double radius) {
            this.radius = radius;
        }

        @Override
        <R> R accept(Visitor<R> visitor) {
            return visitor.visitCircleShape(this);
        }

        final double radius;
    }

    static class Square extends Shape {
        Square(double side) {
            this.side = side;
        }

        @Override
        <R> R accept(Visitor<R> visitor) {
            return visitor.visitSquareShape(this);
        }

        final double side;
    }

    abstract <R> R accept(Visitor<R> visitor);
}
";
    assert_eq!(text, expected);
}

#[test]
fn one_visitor_method_per_variant() {
    let text = generate_unit("Shape", &shape_specs()).unwrap();
    assert_eq!(text.matches("        R visit").count(), 2);
    assert!(text.contains("R visitCircleShape(Circle shape);"));
    assert!(text.contains("R visitSquareShape(Square shape);"));
}

#[test]
fn constructor_parameters_keep_field_order() {
    let specs = vec!["Binary : Expr left, Token operator, Expr right".to_string()];
    let text = generate_unit("Expr", &specs).unwrap();
    assert!(text.contains("Binary(Expr left, Token operator, Expr right) {"));
    let left = text.find("final Expr left;").unwrap();
    let operator = text.find("final Token operator;").unwrap();
    let right = text.find("final Expr right;").unwrap();
    assert!(left < operator && operator < right);
}

#[test]
fn dispatch_method_forwards_to_the_matching_visitor_method() {
    let text = generate_unit("Shape", &shape_specs()).unwrap();
    assert!(text.contains("return visitor.visitCircleShape(this);"));
    assert!(text.contains("return visitor.visitSquareShape(this);"));
}

#[test]
fn repeated_runs_on_the_fallback_spec_are_byte_identical() {
    let basename = default_basename();
    let first = generate_unit(&basename, &default_variants()).unwrap();
    let second = generate_unit(&basename, &default_variants()).unwrap();
    assert_eq!(first, second);
}

#[test]
fn fallback_spec_parses_and_has_four_variants_in_order() {
    let variants = parse_variants(&default_variants()).unwrap();
    assert_eq!(variants.len(), 4);
    assert_eq!(variants[0].name, "Binary");
    assert_eq!(variants[1].name, "Grouping");
    assert_eq!(variants[2].name, "Literal");
    assert_eq!(variants[3].name, "Unary");
}

#[test]
fn fallback_unit_holds_the_four_variant_types_in_order() {
    let basename = default_basename();
    assert_eq!(basename, "Expr");
    let text = generate_unit(&basename, &default_variants()).unwrap();
    let binary = text.find("static class Binary extends Expr {").unwrap();
    let grouping = text.find("static class Grouping extends Expr {").unwrap();
    let literal = text.find("static class Literal extends Expr {").unwrap();
    let unary = text.find("static class Unary extends Expr {").unwrap();
    assert!(binary < grouping && grouping < literal && literal < unary);
    assert_eq!(text.matches("static class ").count(), 4);
}

#[test]
fn fallback_unit_file_is_named_after_the_basename() {
    let path = output_path("out", &default_basename());
    assert_eq!(path, "out/Expr.java");
}

#[test]
fn output_path_joins_directory_basename_and_extension() {
    assert_eq!(output_path("./", "Shape"), ".//Shape.java");
}

#[test]
fn malformed_variant_yields_no_text() {
    let specs = vec![
        "Circle : double radius".to_string(),
        "Square double side".to_string(),
    ];
    assert_eq!(
        generate_unit("Shape", &specs),
        Err(GenError::SpecMalformed)
    );
}

#[test]
fn lowercased_basename_names_the_visitor_parameter() {
    let specs = vec!["Leaf : int value".to_string()];
    let text = generate_unit("TREE", &specs).unwrap();
    assert!(text.contains("R visitLeafTREE(Leaf tree);"));
}
