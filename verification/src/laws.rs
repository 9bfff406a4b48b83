//! The structural laws of the generator, stated and proved once for all
//! inputs: one visitor method per variant with distinct names, and
//! order-preserving emission of constructor parameters and field
//! declarations.

use vstd::prelude::*;

use crate::chars::{
    find_char, find_pair, has_pair, is_pair_at, lemma_find_char, lemma_find_char_is,
    lemma_find_pair, lemma_find_pair_is, lemma_split_pair_len, split_pair, trimmed,
};
use crate::emit::{
    class_text, classes_text, decl_line, decl_lines, field_text, fields_params, method_line,
    visitor_lines, visitor_method_name,
};
use crate::model::{FieldModel, VariantModel};
use crate::parse::{spec_parse_field, spec_parse_fields, spec_parse_variant};

verus! {

/// The visitor interface's method lines, one per variant, in variant order.
pub open spec fn method_lines(b: Seq<char>, vs: Seq<VariantModel>) -> Seq<Seq<char>> {
    Seq::new(vs.len(), |i: int| method_line(b, vs[i].name))
}

/// The emitted field declaration lines, one per field, in field order.
pub open spec fn decl_line_list(fs: Seq<FieldModel>) -> Seq<Seq<char>> {
    Seq::new(fs.len(), |i: int| decl_line(fs[i]))
}

/// A field is emittable when its declared type holds no space and its
/// verbatim text holds no `", "`; every field the parser produces is such.
pub open spec fn emittable_field(f: FieldModel) -> bool {
    &&& find_char(f.ty, ' ') is None
    &&& !has_pair(field_text(f), ',', ' ')
}

/// Law: the visitor interface body is exactly one method line per variant,
/// in variant order — the number of emitted methods equals the number of
/// variants.
pub proof fn lemma_one_method_per_variant(b: Seq<char>, vs: Seq<VariantModel>)
    ensures
        method_lines(b, vs).len() == vs.len(),
        visitor_lines(b, vs) == method_lines(b, vs).flatten(),
    decreases vs.len(),
{
    if vs.len() == 0 {
        assert(method_lines(b, vs) =~= Seq::<Seq<char>>::empty());
        assert(Seq::<Seq<char>>::empty().flatten() =~= Seq::<char>::empty());
    } else {
        lemma_one_method_per_variant(b, vs.drop_last());
        assert(method_lines(b, vs.drop_last()) =~= method_lines(b, vs).drop_last());
        method_lines(b, vs).lemma_flatten_and_flatten_alt_are_equivalent();
        method_lines(b, vs).drop_last().lemma_flatten_and_flatten_alt_are_equivalent();
        assert(method_lines(b, vs).flatten_alt() == method_lines(b, vs).drop_last().flatten_alt()
            + method_lines(b, vs).last());
        assert(method_lines(b, vs).last() == method_line(b, vs.last().name));
    }
}

/// Law: the emitted field declaration block is exactly one line per field,
/// in field order.
pub proof fn lemma_one_decl_per_field(fs: Seq<FieldModel>)
    ensures
        decl_line_list(fs).len() == fs.len(),
        decl_lines(fs) == decl_line_list(fs).flatten(),
    decreases fs.len(),
{
    if fs.len() == 0 {
        assert(decl_line_list(fs) =~= Seq::<Seq<char>>::empty());
        assert(Seq::<Seq<char>>::empty().flatten() =~= Seq::<char>::empty());
    } else {
        lemma_one_decl_per_field(fs.drop_last());
        assert(decl_line_list(fs.drop_last()) =~= decl_line_list(fs).drop_last());
        decl_line_list(fs).lemma_flatten_and_flatten_alt_are_equivalent();
        decl_line_list(fs).drop_last().lemma_flatten_and_flatten_alt_are_equivalent();
        assert(decl_line_list(fs).flatten_alt() == decl_line_list(fs).drop_last().flatten_alt()
            + decl_line_list(fs).last());
        assert(decl_line_list(fs).last() == decl_line(fs.last()));
    }
}

/// The emitted concrete type blocks, one per variant, in variant order.
pub open spec fn class_text_list(b: Seq<char>, vs: Seq<VariantModel>) -> Seq<Seq<char>> {
    Seq::new(vs.len(), |i: int| class_text(b, vs[i]))
}

/// Law: the emitted body is exactly one concrete type block per variant, in
/// variant order.
pub proof fn lemma_one_class_per_variant(b: Seq<char>, vs: Seq<VariantModel>)
    ensures
        class_text_list(b, vs).len() == vs.len(),
        classes_text(b, vs) == class_text_list(b, vs).flatten(),
    decreases vs.len(),
{
    if vs.len() == 0 {
        assert(class_text_list(b, vs) =~= Seq::<Seq<char>>::empty());
        assert(Seq::<Seq<char>>::empty().flatten() =~= Seq::<char>::empty());
    } else {
        lemma_one_class_per_variant(b, vs.drop_last());
        assert(class_text_list(b, vs.drop_last()) =~= class_text_list(b, vs).drop_last());
        class_text_list(b, vs).lemma_flatten_and_flatten_alt_are_equivalent();
        class_text_list(b, vs).drop_last().lemma_flatten_and_flatten_alt_are_equivalent();
        assert(class_text_list(b, vs).flatten_alt() == class_text_list(
            b,
            vs,
        ).drop_last().flatten_alt() + class_text_list(b, vs).last());
        assert(class_text_list(b, vs).last() == class_text(b, vs.last()));
    }
}

/// Law: distinct variant names give distinct visitor method names.
pub proof fn lemma_method_names_injective(b: Seq<char>, n1: Seq<char>, n2: Seq<char>)
    requires
        n1 != n2,
    ensures
        visitor_method_name(b, n1) != visitor_method_name(b, n2),
{
    reveal_strlit("visit");
    let m1 = visitor_method_name(b, n1);
    let m2 = visitor_method_name(b, n2);
    assert("visit"@.len() == 5);
    if n1.len() != n2.len() {
        assert(m1.len() != m2.len());
    } else {
        if m1 == m2 {
            assert forall|k: int| 0 <= k < n1.len() implies n1[k] == n2[k] by {
                assert(m1[5 + k] == n1[k]);
                assert(m2[5 + k] == n2[k]);
            }
            assert(n1 =~= n2);
        }
    }
}

/// Law: within one type group, variants with distinct names get distinct
/// visitor method names — the interface holds no duplicate method when the
/// variant names are distinct.
pub proof fn lemma_visitor_methods_distinct(b: Seq<char>, vs: Seq<VariantModel>)
    ensures
        forall|i: int, j: int|
            0 <= i < vs.len() && 0 <= j < vs.len() && vs[i].name != vs[j].name
                ==> visitor_method_name(b, vs[i].name) != visitor_method_name(b, vs[j].name),
{
    assert forall|i: int, j: int|
        0 <= i < vs.len() && 0 <= j < vs.len() && vs[i].name != vs[j].name implies
        visitor_method_name(b, vs[i].name) != visitor_method_name(b, vs[j].name) by {
        lemma_method_names_injective(b, vs[i].name, vs[j].name);
    }
}

/// Parsing a field declaration is inverted by writing it back out: the
/// field's verbatim text is the piece it was parsed from, and its declared
/// type holds no space.
pub proof fn lemma_parse_field_inverse(p: Seq<char>)
    requires
        spec_parse_field(p) is Some,
    ensures
        (spec_parse_field(p) matches Some(f) ==> field_text(f) == p && find_char(f.ty, ' ')
            is None),
{
    reveal_strlit(" ");
    lemma_find_char(p, ' ');
    let i = find_char(p, ' ').unwrap();
    let f = spec_parse_field(p).unwrap();
    assert(" "@.len() == 1 && " "@[0] == ' ');
    assert(field_text(f) =~= p);
    lemma_find_char(f.ty, ' ');
    match find_char(f.ty, ' ') {
        None => {},
        Some(k) => {
            assert(f.ty[k] == p[k]);
        },
    }
}

/// A field whose declared type holds no space parses back from its verbatim
/// text to itself.
pub proof fn lemma_parse_field_text(f: FieldModel)
    requires
        find_char(f.ty, ' ') is None,
    ensures
        spec_parse_field(field_text(f)) == Some(f),
{
    reveal_strlit(" ");
    let t = field_text(f);
    let i = f.ty.len() as int;
    assert(" "@.len() == 1 && " "@[0] == ' ');
    assert(t[i] == ' ');
    lemma_find_char(f.ty, ' ');
    assert forall|j: int| 0 <= j < i implies t[j] != ' ' by {
        assert(t[j] == f.ty[j]);
    }
    lemma_find_char_is(t, ' ', i);
    assert(t.subrange(0, i) =~= f.ty);
    assert(t.subrange(i + 1, t.len() as int) =~= f.name);
}

/// Every piece that splitting on a separator produces is free of that
/// separator.
pub proof fn lemma_split_pieces_no_pair(s: Seq<char>, c1: char, c2: char)
    ensures
        forall|k: int|
            0 <= k < split_pair(s, c1, c2).len() ==> !has_pair(split_pair(s, c1, c2)[k], c1, c2),
    decreases s.len(),
{
    lemma_find_pair(s, c1, c2);
    match find_pair(s, c1, c2) {
        None => {
            assert(split_pair(s, c1, c2) == seq![s]);
            assert(!has_pair(s, c1, c2));
            assert(seq![s][0] == s);
        },
        Some(i) => {
            let head = s.subrange(0, i);
            let tail = s.subrange(i + 2, s.len() as int);
            assert(split_pair(s, c1, c2) == seq![head] + split_pair(tail, c1, c2));
            assert(!has_pair(head, c1, c2)) by {
                if has_pair(head, c1, c2) {
                    let j = choose|j: int| is_pair_at(head, c1, c2, j);
                    assert(head[j] == s[j]);
                    assert(head[j + 1] == s[j + 1]);
                    assert(is_pair_at(s, c1, c2, j));
                }
            }
            lemma_split_pieces_no_pair(tail, c1, c2);
            assert forall|k: int| 0 <= k < split_pair(s, c1, c2).len() implies !has_pair(
                split_pair(s, c1, c2)[k],
                c1,
                c2,
            ) by {
                if k == 0 {
                    assert(split_pair(s, c1, c2)[0] == head);
                } else {
                    assert(split_pair(s, c1, c2)[k] == split_pair(tail, c1, c2)[k - 1]);
                }
            }
        },
    }
}

/// A successful whole-list parse determines each piece's parse, in order.
pub proof fn lemma_parse_fields_pointwise(pieces: Seq<Seq<char>>, fs: Seq<FieldModel>)
    requires
        spec_parse_fields(pieces) == Some(fs),
    ensures
        fs.len() == pieces.len(),
        forall|k: int| 0 <= k < pieces.len() ==> spec_parse_field(pieces[k]) == Some(fs[k]),
    decreases pieces.len(),
{
    if pieces.len() == 0 {
    } else {
        let f0 = spec_parse_field(pieces[0]).unwrap();
        let rest = spec_parse_fields(pieces.drop_first()).unwrap();
        lemma_parse_fields_pointwise(pieces.drop_first(), rest);
        assert(fs == seq![f0] + rest);
        assert(fs[0] == f0);
        assert forall|k: int| 1 <= k < pieces.len() implies spec_parse_field(pieces[k]) == Some(
            fs[k],
        ) by {
            assert(pieces[k] == pieces.drop_first()[k - 1]);
            assert(fs[k] == rest[k - 1]);
        }
    }
}

/// Pointwise successful parses assemble into a successful whole-list parse.
pub proof fn lemma_parse_fields_assemble(pieces: Seq<Seq<char>>, fs: Seq<FieldModel>)
    requires
        pieces.len() == fs.len(),
        forall|k: int| 0 <= k < pieces.len() ==> spec_parse_field(pieces[k]) == Some(fs[k]),
    ensures
        spec_parse_fields(pieces) == Some(fs),
    decreases pieces.len(),
{
    if pieces.len() == 0 {
        assert(fs =~= Seq::<FieldModel>::empty());
    } else {
        assert forall|k: int| 0 <= k < pieces.drop_first().len() implies spec_parse_field(
            pieces.drop_first()[k],
        ) == Some(fs.drop_first()[k]) by {
            assert(pieces.drop_first()[k] == pieces[k + 1]);
            assert(fs.drop_first()[k] == fs[k + 1]);
        }
        lemma_parse_fields_assemble(pieces.drop_first(), fs.drop_first());
        assert(spec_parse_field(pieces[0]) == Some(fs[0]));
        assert(seq![fs[0]] + fs.drop_first() =~= fs);
    }
}

/// Splitting the joined parameter list recovers each field's verbatim text,
/// in order.
pub proof fn lemma_params_split(fs: Seq<FieldModel>)
    requires
        fs.len() >= 1,
        forall|k: int| 0 <= k < fs.len() ==> !has_pair(field_text(fs[k]), ',', ' '),
    ensures
        split_pair(fields_params(fs), ',', ' ') == Seq::new(fs.len(), |k: int| field_text(fs[k])),
    decreases fs.len(),
{
    reveal_strlit(", ");
    assert(", "@.len() == 2 && ", "@[0] == ',' && ", "@[1] == ' ');
    if fs.len() == 1 {
        let t0 = field_text(fs[0]);
        assert(fields_params(fs) == t0);
        lemma_find_pair(t0, ',', ' ');
        match find_pair(t0, ',', ' ') {
            None => {},
            Some(i) => {
                assert(is_pair_at(t0, ',', ' ', i));
                assert(has_pair(t0, ',', ' '));
            },
        }
        assert(split_pair(t0, ',', ' ') == seq![t0]);
        assert(seq![t0] =~= Seq::new(fs.len(), |k: int| field_text(fs[k])));
    } else {
        let t0 = field_text(fs[0]);
        let restj = fields_params(fs.drop_first());
        let s = fields_params(fs);
        assert(s == t0 + ", "@ + restj);
        let i = t0.len() as int;
        assert(s[i] == ',');
        assert(s[i + 1] == ' ');
        assert forall|j: int| 0 <= j < i implies !is_pair_at(s, ',', ' ', j) by {
            if is_pair_at(s, ',', ' ', j) {
                if j + 1 < i {
                    assert(s[j] == t0[j]);
                    assert(s[j + 1] == t0[j + 1]);
                    assert(is_pair_at(t0, ',', ' ', j));
                    assert(has_pair(t0, ',', ' '));
                } else {
                    assert(s[j + 1] == ',');
                }
            }
        }
        lemma_find_pair_is(s, ',', ' ', i);
        assert(s.subrange(0, i) =~= t0);
        assert(s.subrange(i + 2, s.len() as int) =~= restj);
        assert(split_pair(s, ',', ' ') == seq![t0] + split_pair(restj, ',', ' '));
        assert forall|k: int| 0 <= k < fs.drop_first().len() implies !has_pair(
            field_text(fs.drop_first()[k]),
            ',',
            ' ',
        ) by {
            assert(fs.drop_first()[k] == fs[k + 1]);
        }
        lemma_params_split(fs.drop_first());
        assert(seq![t0] + Seq::new(fs.drop_first().len(), |k: int| field_text(fs.drop_first()[k]))
            =~= Seq::new(fs.len(), |k: int| field_text(fs[k])));
    }
}

/// Law: the emitted constructor parameter list re-parses to exactly the
/// fields it was built from, in the same order — emission preserves the
/// field order of the original specification.
pub proof fn lemma_params_round_trip(fs: Seq<FieldModel>)
    requires
        fs.len() >= 1,
        forall|k: int| 0 <= k < fs.len() ==> emittable_field(fs[k]),
    ensures
        spec_parse_fields(split_pair(fields_params(fs), ',', ' ')) == Some(fs),
{
    assert forall|k: int| 0 <= k < fs.len() implies !has_pair(field_text(fs[k]), ',', ' ') by {
        assert(emittable_field(fs[k]));
    }
    lemma_params_split(fs);
    let pieces = Seq::new(fs.len(), |k: int| field_text(fs[k]));
    assert forall|k: int| 0 <= k < pieces.len() implies spec_parse_field(pieces[k]) == Some(
        fs[k],
    ) by {
        assert(emittable_field(fs[k]));
        lemma_parse_field_text(fs[k]);
    }
    lemma_parse_fields_assemble(pieces, fs);
}

/// Law: for every successfully parsed variant, the emitted constructor
/// parameter list re-parses to exactly the variant's fields, in order.
pub proof fn lemma_variant_params_round_trip(raw: Seq<char>)
    requires
        spec_parse_variant(raw) is Some,
    ensures
        (spec_parse_variant(raw) matches Some(v) ==> spec_parse_fields(
            split_pair(fields_params(v.fields), ',', ' '),
        ) == Some(v.fields)),
{
    let v = spec_parse_variant(raw).unwrap();
    lemma_find_char(raw, ':');
    let i = find_char(raw, ':').unwrap();
    let body = trimmed(raw.subrange(i + 1, raw.len() as int));
    let pieces = split_pair(body, ',', ' ');
    lemma_split_pair_len(body, ',', ' ');
    lemma_split_pieces_no_pair(body, ',', ' ');
    lemma_parse_fields_pointwise(pieces, v.fields);
    assert forall|k: int| 0 <= k < v.fields.len() implies emittable_field(v.fields[k]) by {
        lemma_parse_field_inverse(pieces[k]);
    }
    lemma_params_round_trip(v.fields);
}

} // verus!
