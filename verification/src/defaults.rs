//! The built-in fallback specification: a minimal binary-operator
//! expression grammar, used when no input document is supplied.

use vstd::prelude::*;
use vstd::string::*;

use crate::chars::{
    lemma_find_char_is, lemma_split_at, lemma_split_whole, split_pair, trim_back, trim_front,
    trimmed,
};
use crate::model::VariantModel;
use crate::parse::{
    lemma_field_piece, lemma_parse_fields_concat, lemma_parse_fields_one, spec_parse_fields,
    spec_parse_variant, spec_parse_variants,
};

verus! {

/// The default base type name.
pub open spec fn default_basename_text() -> Seq<char> {
    "Expr"@
}

/// The fixed variant list of the fallback grammar, in emission order: a
/// binary node, a grouping node, a literal node, and a unary node.
pub open spec fn default_variant_specs() -> Seq<Seq<char>> {
    seq![
        "Binary : Expr left, Token operator, Expr right"@,
        "Grouping : Expr expression"@,
        "Literal : Object value"@,
        "Unary : Token operator, Expr right"@,
    ]
}

/// A field list of one piece — no comma anywhere, a first space at `sp` —
/// parses.
proof fn lemma_one_piece_body(body: Seq<char>, sp: int)
    requires
        forall|j: int| 0 <= j < body.len() ==> body[j] != ',',
        0 <= sp < body.len(),
        body[sp] == ' ',
        forall|j: int| 0 <= j < sp ==> body[j] != ' ',
    ensures
        spec_parse_fields(split_pair(body, ',', ' ')) is Some,
{
    lemma_split_whole(body);
    lemma_field_piece(body, sp);
    lemma_parse_fields_one(body);
}

/// A field list of two pieces — one separator at `i`, first spaces at `sp1`
/// and `sp2` — parses.
proof fn lemma_two_piece_body(body: Seq<char>, i: int, sp1: int, sp2: int)
    requires
        0 <= i,
        i + 2 <= body.len(),
        body[i] == ',',
        body[i + 1] == ' ',
        forall|j: int| 0 <= j < i ==> body[j] != ',',
        forall|j: int| i + 2 <= j < body.len() ==> body[j] != ',',
        0 <= sp1 < i,
        body[sp1] == ' ',
        forall|j: int| 0 <= j < sp1 ==> body[j] != ' ',
        i + 2 <= sp2 < body.len(),
        body[sp2] == ' ',
        forall|j: int| i + 2 <= j < sp2 ==> body[j] != ' ',
    ensures
        spec_parse_fields(split_pair(body, ',', ' ')) is Some,
{
    lemma_split_at(body, i);
    let p1 = body.subrange(0, i);
    let p2 = body.subrange(i + 2, body.len() as int);
    assert(forall|j: int| 0 <= j < p2.len() ==> p2[j] != ',');
    lemma_split_whole(p2);
    lemma_field_piece(p1, sp1);
    lemma_field_piece(p2, sp2 - (i + 2));
    lemma_parse_fields_one(p1);
    lemma_parse_fields_one(p2);
    lemma_parse_fields_concat(seq![p1], split_pair(p2, ',', ' '));
    assert(split_pair(body, ',', ' ') == seq![p1] + split_pair(p2, ',', ' '));
}

proof fn lemma_binary_parses()
    ensures
        (spec_parse_variant("Binary : Expr left, Token operator, Expr right"@) matches Some(v)
            && v.name == "Binary"@),
{
    let raw = "Binary : Expr left, Token operator, Expr right"@;
    reveal_strlit("Binary : Expr left, Token operator, Expr right");
    reveal_strlit("Binary");
    assert(raw.len() == 46);
    assert(raw[7] == ':');
    assert(forall|j: int| 0 <= j < 7 ==> raw[j] != ':');
    lemma_find_char_is(raw, ':', 7);
    let left = raw.subrange(0, 7);
    assert(left[0] == 'B');
    assert(trim_front(left) == left);
    assert(left.last() == ' ');
    assert(trim_back(left) == trim_back(left.drop_last()));
    assert(left.drop_last().last() == 'y');
    assert(trim_back(left.drop_last()) == left.drop_last());
    assert(left.drop_last() =~= "Binary"@);
    assert(trimmed(left) == "Binary"@);
    let right = raw.subrange(8, 46);
    let body = right.drop_first();
    assert(right[0] == ' ');
    assert(trim_front(right) == trim_front(body));
    assert(body[0] == 'E');
    assert(trim_front(body) == body);
    assert(body.last() == 't');
    assert(trim_back(body) == body);
    assert(trimmed(right) == body);
    assert(body[9] == ',' && body[10] == ' ');
    assert(forall|j: int| 0 <= j < 9 ==> body[j] != ',');
    lemma_split_at(body, 9);
    let p1 = body.subrange(0, 9);
    let rest1 = body.subrange(11, 37);
    assert(p1[4] == ' ');
    assert(forall|j: int| 0 <= j < 4 ==> p1[j] != ' ');
    lemma_field_piece(p1, 4);
    lemma_parse_fields_one(p1);
    assert(rest1[14] == ',' && rest1[15] == ' ');
    assert(forall|j: int| 0 <= j < 14 ==> rest1[j] != ',');
    assert(forall|j: int| 16 <= j < 26 ==> rest1[j] != ',');
    assert(rest1[5] == ' ');
    assert(forall|j: int| 0 <= j < 5 ==> rest1[j] != ' ');
    assert(rest1[20] == ' ');
    assert(forall|j: int| 16 <= j < 20 ==> rest1[j] != ' ');
    lemma_two_piece_body(rest1, 14, 5, 20);
    lemma_parse_fields_concat(seq![p1], split_pair(rest1, ',', ' '));
    assert(spec_parse_fields(split_pair(body, ',', ' ')) is Some);
    assert(spec_parse_variant(raw) is Some);
}

proof fn lemma_grouping_parses()
    ensures
        (spec_parse_variant("Grouping : Expr expression"@) matches Some(v) && v.name
            == "Grouping"@),
{
    let raw = "Grouping : Expr expression"@;
    reveal_strlit("Grouping : Expr expression");
    reveal_strlit("Grouping");
    assert(raw.len() == 26);
    assert(raw[9] == ':');
    assert(forall|j: int| 0 <= j < 9 ==> raw[j] != ':');
    lemma_find_char_is(raw, ':', 9);
    let left = raw.subrange(0, 9);
    assert(left[0] == 'G');
    assert(trim_front(left) == left);
    assert(left.last() == ' ');
    assert(trim_back(left) == trim_back(left.drop_last()));
    assert(left.drop_last().last() == 'g');
    assert(trim_back(left.drop_last()) == left.drop_last());
    assert(left.drop_last() =~= "Grouping"@);
    assert(trimmed(left) == "Grouping"@);
    let right = raw.subrange(10, 26);
    let body = right.drop_first();
    assert(right[0] == ' ');
    assert(trim_front(right) == trim_front(body));
    assert(body[0] == 'E');
    assert(trim_front(body) == body);
    assert(body.last() == 'n');
    assert(trim_back(body) == body);
    assert(trimmed(right) == body);
    assert(forall|j: int| 0 <= j < body.len() ==> body[j] != ',');
    assert(body[4] == ' ');
    assert(forall|j: int| 0 <= j < 4 ==> body[j] != ' ');
    lemma_one_piece_body(body, 4);
    assert(spec_parse_variant(raw) is Some);
}

proof fn lemma_literal_parses()
    ensures
        (spec_parse_variant("Literal : Object value"@) matches Some(v) && v.name == "Literal"@),
{
    let raw = "Literal : Object value"@;
    reveal_strlit("Literal : Object value");
    reveal_strlit("Literal");
    assert(raw.len() == 22);
    assert(raw[8] == ':');
    assert(forall|j: int| 0 <= j < 8 ==> raw[j] != ':');
    lemma_find_char_is(raw, ':', 8);
    let left = raw.subrange(0, 8);
    assert(left[0] == 'L');
    assert(trim_front(left) == left);
    assert(left.last() == ' ');
    assert(trim_back(left) == trim_back(left.drop_last()));
    assert(left.drop_last().last() == 'l');
    assert(trim_back(left.drop_last()) == left.drop_last());
    assert(left.drop_last() =~= "Literal"@);
    assert(trimmed(left) == "Literal"@);
    let right = raw.subrange(9, 22);
    let body = right.drop_first();
    assert(right[0] == ' ');
    assert(trim_front(right) == trim_front(body));
    assert(body[0] == 'O');
    assert(trim_front(body) == body);
    assert(body.last() == 'e');
    assert(trim_back(body) == body);
    assert(trimmed(right) == body);
    assert(forall|j: int| 0 <= j < body.len() ==> body[j] != ',');
    assert(body[6] == ' ');
    assert(forall|j: int| 0 <= j < 6 ==> body[j] != ' ');
    lemma_one_piece_body(body, 6);
    assert(spec_parse_variant(raw) is Some);
}

proof fn lemma_unary_parses()
    ensures
        (spec_parse_variant("Unary : Token operator, Expr right"@) matches Some(v) && v.name
            == "Unary"@),
{
    let raw = "Unary : Token operator, Expr right"@;
    reveal_strlit("Unary : Token operator, Expr right");
    reveal_strlit("Unary");
    assert(raw.len() == 34);
    assert(raw[6] == ':');
    assert(forall|j: int| 0 <= j < 6 ==> raw[j] != ':');
    lemma_find_char_is(raw, ':', 6);
    let left = raw.subrange(0, 6);
    assert(left[0] == 'U');
    assert(trim_front(left) == left);
    assert(left.last() == ' ');
    assert(trim_back(left) == trim_back(left.drop_last()));
    assert(left.drop_last().last() == 'y');
    assert(trim_back(left.drop_last()) == left.drop_last());
    assert(left.drop_last() =~= "Unary"@);
    assert(trimmed(left) == "Unary"@);
    let right = raw.subrange(7, 34);
    let body = right.drop_first();
    assert(right[0] == ' ');
    assert(trim_front(right) == trim_front(body));
    assert(body[0] == 'T');
    assert(trim_front(body) == body);
    assert(body.last() == 't');
    assert(trim_back(body) == body);
    assert(trimmed(right) == body);
    assert(body[14] == ',' && body[15] == ' ');
    assert(forall|j: int| 0 <= j < 14 ==> body[j] != ',');
    assert(forall|j: int| 16 <= j < 26 ==> body[j] != ',');
    assert(body[5] == ' ');
    assert(forall|j: int| 0 <= j < 5 ==> body[j] != ' ');
    assert(body[20] == ' ');
    assert(forall|j: int| 16 <= j < 20 ==> body[j] != ' ');
    lemma_two_piece_body(body, 14, 5, 20);
    assert(spec_parse_variant(raw) is Some);
}

/// Law: the built-in fallback specification is well formed — parsing it
/// always succeeds, yielding exactly four variants named `Binary`,
/// `Grouping`, `Literal` and `Unary`, in that fixed order; generation from
/// it therefore always produces an output unit, the same text for every
/// run.
pub proof fn lemma_default_spec_parses()
    ensures
        (spec_parse_variants(default_variant_specs()) matches Some(vs) && vs.len() == 4
            && vs[0].name == "Binary"@ && vs[1].name == "Grouping"@ && vs[2].name == "Literal"@
            && vs[3].name == "Unary"@),
{
    let specs = default_variant_specs();
    let s1 = "Binary : Expr left, Token operator, Expr right"@;
    let s2 = "Grouping : Expr expression"@;
    let s3 = "Literal : Object value"@;
    let s4 = "Unary : Token operator, Expr right"@;
    lemma_binary_parses();
    lemma_grouping_parses();
    lemma_literal_parses();
    lemma_unary_parses();
    let v1 = spec_parse_variant(s1).unwrap();
    let v2 = spec_parse_variant(s2).unwrap();
    let v3 = spec_parse_variant(s3).unwrap();
    let v4 = spec_parse_variant(s4).unwrap();
    assert(specs.len() == 4);
    assert(specs[0] == s1 && specs[1] == s2 && specs[2] == s3 && specs[3] == s4);
    let t1 = specs.drop_first();
    let t2 = t1.drop_first();
    let t3 = t2.drop_first();
    let t4 = t3.drop_first();
    assert(t1[0] == s2 && t2[0] == s3 && t3[0] == s4);
    assert(t4.len() == 0);
    assert(spec_parse_variants(t4) == Some(Seq::<VariantModel>::empty()));
    assert(spec_parse_variants(t3) == Some(seq![v4] + Seq::<VariantModel>::empty()));
    assert(spec_parse_variants(t2) == Some(seq![v3] + (seq![v4] + Seq::<VariantModel>::empty())));
    assert(spec_parse_variants(t1) == Some(
        seq![v2] + (seq![v3] + (seq![v4] + Seq::<VariantModel>::empty())),
    ));
    assert(spec_parse_variants(specs) == Some(
        seq![v1] + (seq![v2] + (seq![v3] + (seq![v4] + Seq::<VariantModel>::empty()))),
    ));
    let vs = spec_parse_variants(specs).unwrap();
    assert(vs.len() == 4);
    assert(vs[0] == v1 && vs[1] == v2 && vs[2] == v3 && vs[3] == v4);
}

/// The default base type name, as a fresh `String`.
pub fn default_basename() -> (r: String)
    ensures
        r@ == default_basename_text(),
{
    "Expr".to_owned()
}

/// The fallback variant specifications, in their fixed order.
pub fn default_variants() -> (r: Vec<String>)
    ensures
        r.deep_view() == default_variant_specs(),
{
    let mut v: Vec<String> = Vec::new();
    v.push("Binary : Expr left, Token operator, Expr right".to_owned());
    v.push("Grouping : Expr expression".to_owned());
    v.push("Literal : Object value".to_owned());
    v.push("Unary : Token operator, Expr right".to_owned());
    proof {
        assert(v.deep_view() =~= default_variant_specs());
    }
    v
}

} // verus!
