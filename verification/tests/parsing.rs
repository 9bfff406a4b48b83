use ast_generator::{parse_field, parse_fields, parse_variant, GenError};

#[test]
fn field_with_two_tokens_parses() {
    let f = parse_field("double radius").unwrap();
    assert_eq!(f.ty, "double");
    assert_eq!(f.name, "radius");
}

#[test]
fn field_name_is_everything_after_first_space() {
    let f = parse_field("Object a b").unwrap();
    assert_eq!(f.ty, "Object");
    assert_eq!(f.name, "a b");
}

#[test]
fn field_with_one_token_is_malformed() {
    assert_eq!(parse_field("radius"), Err(GenError::SpecMalformed));
}

#[test]
fn field_with_zero_tokens_is_malformed() {
    assert_eq!(parse_field(""), Err(GenError::SpecMalformed));
}

#[test]
fn field_with_trailing_space_keeps_empty_name() {
    let f = parse_field("double ").unwrap();
    assert_eq!(f.ty, "double");
    assert_eq!(f.name, "");
}

#[test]
fn field_list_splits_on_comma_space() {
    let fs = parse_fields("Expr left, Token operator, Expr right").unwrap();
    assert_eq!(fs.len(), 3);
    assert_eq!(fs[0].ty, "Expr");
    assert_eq!(fs[0].name, "left");
    assert_eq!(fs[1].ty, "Token");
    assert_eq!(fs[1].name, "operator");
    assert_eq!(fs[2].ty, "Expr");
    assert_eq!(fs[2].name, "right");
}

#[test]
fn empty_field_list_is_malformed() {
    assert!(parse_fields("").is_err());
}

#[test]
fn field_list_with_one_bad_piece_is_malformed() {
    assert_eq!(
        parse_fields("Expr left, operator, Expr right"),
        Err(GenError::SpecMalformed)
    );
}

#[test]
fn variant_splits_on_first_colon_and_trims() {
    let v = parse_variant("  Binary   :   Expr left, Token operator, Expr right  ").unwrap();
    assert_eq!(v.name, "Binary");
    assert_eq!(v.fields.len(), 3);
    assert_eq!(v.fields[0].ty, "Expr");
    assert_eq!(v.fields[0].name, "left");
}

#[test]
fn variant_without_colon_is_malformed() {
    assert_eq!(
        parse_variant("Binary Expr left, Token operator"),
        Err(GenError::SpecMalformed)
    );
}

#[test]
fn variant_with_second_colon_keeps_it_in_the_fields() {
    let v = parse_variant("A : B : C").unwrap();
    assert_eq!(v.name, "A");
    assert_eq!(v.fields.len(), 1);
    assert_eq!(v.fields[0].ty, "B");
    assert_eq!(v.fields[0].name, ": C");
}

#[test]
fn variant_with_empty_field_section_is_malformed() {
    assert_eq!(parse_variant("Circle :  "), Err(GenError::SpecMalformed));
}
