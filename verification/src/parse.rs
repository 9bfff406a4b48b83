//! Parsing of compact variant specifications.
//!
//! A raw variant specification is a string `"Name : Type field, Type field"`.
//! It is split once on the first `:`; both halves are trimmed; the right
//! half is split on the literal separator `", "` into field declarations;
//! each field declaration is split on its first space into a declared type
//! and a field name.  Splitting is purely syntactic: a specification without
//! a `:`, or a field declaration without a space, is a fatal
//! `SpecMalformed` error, and no partial recovery is attempted.

use vstd::prelude::*;
use vstd::string::*;

use crate::chars::{
    find_char, find_char_in, find_pair_in, lemma_find_char, split_pair, trim_in, trimmed,
};
use crate::errors::GenError;
use crate::model::{FieldDecl, FieldModel, Variant, VariantModel};

verus! {

/// The field declaration `piece` parsed on its first space: the text before
/// it is the declared type, everything after it is the field name.  `None`
/// when `piece` holds no space at all.
pub open spec fn spec_parse_field(piece: Seq<char>) -> Option<FieldModel> {
    match find_char(piece, ' ') {
        None => None,
        Some(i) => Some(
            FieldModel { ty: piece.subrange(0, i), name: piece.subrange(i + 1, piece.len() as int) },
        ),
    }
}

/// All field declaration pieces parsed in order; `None` as soon as one piece
/// is malformed.
pub open spec fn spec_parse_fields(pieces: Seq<Seq<char>>) -> Option<Seq<FieldModel>>
    decreases pieces.len(),
{
    if pieces.len() == 0 {
        Some(Seq::empty())
    } else {
        match spec_parse_field(pieces[0]) {
            None => None,
            Some(f) => match spec_parse_fields(pieces.drop_first()) {
                None => None,
                Some(rest) => Some(seq![f] + rest),
            },
        }
    }
}

/// The raw variant specification `raw` parsed: split once on the first `:`,
/// both halves trimmed, the right half split on `", "` and parsed field by
/// field.  `None` when `raw` holds no `:` or any field is malformed.
pub open spec fn spec_parse_variant(raw: Seq<char>) -> Option<VariantModel> {
    match find_char(raw, ':') {
        None => None,
        Some(i) => {
            let name = trimmed(raw.subrange(0, i));
            let body = trimmed(raw.subrange(i + 1, raw.len() as int));
            match spec_parse_fields(split_pair(body, ',', ' ')) {
                None => None,
                Some(fs) => Some(VariantModel { name, fields: fs }),
            }
        },
    }
}

/// All raw variant specifications parsed in order; `None` as soon as one is
/// malformed.
pub open spec fn spec_parse_variants(raws: Seq<Seq<char>>) -> Option<Seq<VariantModel>>
    decreases raws.len(),
{
    if raws.len() == 0 {
        Some(Seq::empty())
    } else {
        match spec_parse_variant(raws[0]) {
            None => None,
            Some(v) => match spec_parse_variants(raws.drop_first()) {
                None => None,
                Some(rest) => Some(seq![v] + rest),
            },
        }
    }
}

/// A piece with a first space parses as a field declaration.
pub proof fn lemma_field_piece(p: Seq<char>, sp: int)
    requires
        0 <= sp < p.len(),
        p[sp] == ' ',
        forall|j: int| 0 <= j < sp ==> p[j] != ' ',
    ensures
        spec_parse_field(p) is Some,
{
    crate::chars::lemma_find_char_is(p, ' ', sp);
}

/// Parsing a single piece parses the piece.
pub proof fn lemma_parse_fields_one(p: Seq<char>)
    ensures
        spec_parse_field(p) is None ==> spec_parse_fields(seq![p]) is None,
        spec_parse_field(p) matches Some(f) ==> spec_parse_fields(seq![p]) == Some(seq![f]),
{
    assert(seq![p][0] == p);
    assert(seq![p].drop_first() =~= Seq::<Seq<char>>::empty());
    assert(spec_parse_fields(Seq::<Seq<char>>::empty()) == Some(Seq::<FieldModel>::empty()));
    match spec_parse_field(p) {
        None => {},
        Some(f) => {
            assert(seq![f] + Seq::<FieldModel>::empty() =~= seq![f]);
        },
    }
}

/// Parsing a single raw variant specification parses that specification.
pub proof fn lemma_parse_variants_one(p: Seq<char>)
    ensures
        spec_parse_variant(p) is None ==> spec_parse_variants(seq![p]) is None,
        spec_parse_variant(p) matches Some(v) ==> spec_parse_variants(seq![p]) == Some(seq![v]),
{
    assert(seq![p][0] == p);
    assert(seq![p].drop_first() =~= Seq::<Seq<char>>::empty());
    assert(spec_parse_variants(Seq::<Seq<char>>::empty()) == Some(Seq::<VariantModel>::empty()));
    match spec_parse_variant(p) {
        None => {},
        Some(v) => {
            assert(seq![v] + Seq::<VariantModel>::empty() =~= seq![v]);
        },
    }
}

/// Parsing pieces concatenated parses each part: the whole succeeds exactly
/// when both parts succeed, and then yields the two results in order.
pub proof fn lemma_parse_fields_concat(a: Seq<Seq<char>>, b: Seq<Seq<char>>)
    ensures
        spec_parse_fields(a + b) is Some <==> (spec_parse_fields(a) is Some && spec_parse_fields(b)
            is Some),
        (spec_parse_fields(a) is Some && spec_parse_fields(b) is Some) ==> spec_parse_fields(a + b)
            == Some(spec_parse_fields(a).unwrap() + spec_parse_fields(b).unwrap()),
    decreases a.len(),
{
    if a.len() == 0 {
        assert(a + b =~= b);
        if spec_parse_fields(b) is Some {
            assert(spec_parse_fields(a).unwrap() + spec_parse_fields(b).unwrap() =~= spec_parse_fields(
                b,
            ).unwrap());
        }
    } else {
        assert((a + b)[0] == a[0]);
        assert((a + b).drop_first() =~= a.drop_first() + b);
        lemma_parse_fields_concat(a.drop_first(), b);
        match spec_parse_field(a[0]) {
            None => {},
            Some(f) => {
                if spec_parse_fields(a.drop_first()) is Some && spec_parse_fields(b) is Some {
                    assert(seq![f] + (spec_parse_fields(a.drop_first()).unwrap()
                        + spec_parse_fields(b).unwrap()) =~= (seq![f] + spec_parse_fields(
                        a.drop_first(),
                    ).unwrap()) + spec_parse_fields(b).unwrap());
                }
            },
        }
    }
}

/// The analogue of `lemma_parse_fields_concat` for whole variant lists.
pub proof fn lemma_parse_variants_concat(a: Seq<Seq<char>>, b: Seq<Seq<char>>)
    ensures
        spec_parse_variants(a + b) is Some <==> (spec_parse_variants(a) is Some
            && spec_parse_variants(b) is Some),
        (spec_parse_variants(a) is Some && spec_parse_variants(b) is Some) ==> spec_parse_variants(
            a + b,
        ) == Some(spec_parse_variants(a).unwrap() + spec_parse_variants(b).unwrap()),
    decreases a.len(),
{
    if a.len() == 0 {
        assert(a + b =~= b);
        if spec_parse_variants(b) is Some {
            assert(spec_parse_variants(a).unwrap() + spec_parse_variants(b).unwrap()
                =~= spec_parse_variants(b).unwrap());
        }
    } else {
        assert((a + b)[0] == a[0]);
        assert((a + b).drop_first() =~= a.drop_first() + b);
        lemma_parse_variants_concat(a.drop_first(), b);
        match spec_parse_variant(a[0]) {
            None => {},
            Some(v) => {
                if spec_parse_variants(a.drop_first()) is Some && spec_parse_variants(b) is Some {
                    assert(seq![v] + (spec_parse_variants(a.drop_first()).unwrap()
                        + spec_parse_variants(b).unwrap()) =~= (seq![v] + spec_parse_variants(
                        a.drop_first(),
                    ).unwrap()) + spec_parse_variants(b).unwrap());
                }
            },
        }
    }
}

/// Parses one field declaration.  Fails with `SpecMalformed` exactly when
/// the piece holds no separating space.
pub fn parse_field(piece: &str) -> (r: Result<FieldDecl, GenError>)
    ensures
        match r {
            Ok(f) => spec_parse_field(piece@) == Some(f@),
            Err(e) => e == GenError::SpecMalformed && spec_parse_field(piece@) is None,
        },
        (r is Err) <==> (forall|j: int| 0 <= j < piece@.len() ==> piece@[j] != ' '),
{
    match find_char_in(piece, ' ') {
        None => {
            proof {
                lemma_find_char(piece@, ' ');
            }
            Err(GenError::SpecMalformed)
        },
        Some(i) => {
            proof {
                lemma_find_char(piece@, ' ');
            }
            let n = piece.unicode_len();
            let ty = piece.substring_char(0, i).to_owned();
            let name = piece.substring_char(i + 1, n).to_owned();
            Ok(FieldDecl { ty, name })
        },
    }
}

/// Parses a whole comma-space-separated field list.  Fails with
/// `SpecMalformed` exactly when some piece holds no separating space; an
/// empty list text is one empty piece, which so fails.
pub fn parse_fields(s: &str) -> (r: Result<Vec<FieldDecl>, GenError>)
    ensures
        match r {
            Ok(fs) => spec_parse_fields(split_pair(s@, ',', ' ')) == Some(fs.deep_view()),
            Err(e) => e == GenError::SpecMalformed && spec_parse_fields(split_pair(s@, ',', ' '))
                is None,
        },
{
    let mut fields: Vec<FieldDecl> = Vec::new();
    let mut rest: &str = s;
    let ghost mut done: Seq<Seq<char>> = Seq::empty();
    proof {
        assert(done + split_pair(rest@, ',', ' ') =~= split_pair(s@, ',', ' '));
    }
    loop
        invariant_except_break
            split_pair(s@, ',', ' ') == done + split_pair(rest@, ',', ' '),
            spec_parse_fields(done) == Some(fields.deep_view()),
        ensures
            spec_parse_fields(split_pair(s@, ',', ' ')) == Some(fields.deep_view()),
        decreases rest@.len(),
    {
        match find_pair_in(rest, ',', ' ') {
            None => {
                let last = parse_field(rest);
                proof {
                    assert(split_pair(rest@, ',', ' ') =~= seq![rest@]);
                }
                match last {
                    Err(e) => {
                        proof {
                            lemma_parse_fields_one(rest@);
                            lemma_parse_fields_concat(done, seq![rest@]);
                        }
                        return Err(GenError::SpecMalformed);
                    },
                    Ok(f) => {
                        let ghost old_fields = fields.deep_view();
                        fields.push(f);
                        proof {
                            assert(fields.deep_view() =~= old_fields + seq![f@]);
                            lemma_parse_fields_one(rest@);
                            lemma_parse_fields_concat(done, seq![rest@]);
                        }
                        break;
                    },
                }
            },
            Some(i) => {
                let piece = rest.substring_char(0, i);
                let n = rest.unicode_len();
                let next = rest.substring_char(i + 2, n);
                proof {
                    assert(split_pair(rest@, ',', ' ') == seq![rest@.subrange(0, i as int)]
                        + split_pair(rest@.subrange(i + 2, rest@.len() as int), ',', ' '));
                }
                match parse_field(piece) {
                    Err(e) => {
                        proof {
                            lemma_parse_fields_one(piece@);
                            lemma_parse_fields_concat(seq![piece@], split_pair(next@, ',', ' '));
                            assert(seq![piece@] + split_pair(next@, ',', ' ') =~= split_pair(
                                rest@,
                                ',',
                                ' ',
                            ));
                            lemma_parse_fields_concat(done, split_pair(rest@, ',', ' '));
                        }
                        return Err(GenError::SpecMalformed);
                    },
                    Ok(f) => {
                        let ghost old_fields = fields.deep_view();
                        fields.push(f);
                        proof {
                            assert(fields.deep_view() =~= old_fields + seq![f@]);
                            lemma_parse_fields_one(piece@);
                            lemma_parse_fields_concat(done, seq![piece@]);
                            done = done + seq![piece@];
                            assert(done + split_pair(next@, ',', ' ') =~= split_pair(s@, ',', ' '));
                        }
                        rest = next;
                    },
                }
            },
        }
    }
    Ok(fields)
}

/// Parses one raw variant specification.  Fails with `SpecMalformed` exactly
/// when the specification holds no `:` or some field declaration holds no
/// separating space; in particular a specification lacking a `:` always
/// fails.
pub fn parse_variant(raw: &str) -> (r: Result<Variant, GenError>)
    ensures
        match r {
            Ok(v) => spec_parse_variant(raw@) == Some(v@),
            Err(e) => e == GenError::SpecMalformed && spec_parse_variant(raw@) is None,
        },
        (forall|j: int| 0 <= j < raw@.len() ==> raw@[j] != ':') ==> (r is Err),
{
    match find_char_in(raw, ':') {
        None => {
            proof {
                lemma_find_char(raw@, ':');
            }
            Err(GenError::SpecMalformed)
        },
        Some(i) => {
            proof {
                lemma_find_char(raw@, ':');
            }
            let n = raw.unicode_len();
            let name = trim_in(raw.substring_char(0, i)).to_owned();
            let body = trim_in(raw.substring_char(i + 1, n));
            match parse_fields(body) {
                Err(e) => Err(e),
                Ok(fields) => Ok(Variant { name, fields }),
            }
        },
    }
}

/// Parses a list of raw variant specifications in order.  Fails with
/// `SpecMalformed` exactly when some specification is malformed.
pub fn parse_variants(raws: &Vec<String>) -> (r: Result<Vec<Variant>, GenError>)
    ensures
        match r {
            Ok(vs) => spec_parse_variants(raws.deep_view()) == Some(vs.deep_view()),
            Err(e) => e == GenError::SpecMalformed && spec_parse_variants(raws.deep_view())
                is None,
        },
{
    let mut variants: Vec<Variant> = Vec::new();
    let n = raws.len();
    proof {
        assert(raws.deep_view().take(0) =~= Seq::<Seq<char>>::empty());
    }
    for k in 0..n
        invariant
            n == raws.len(),
            spec_parse_variants(raws.deep_view().take(k as int)) == Some(variants.deep_view()),
    {
        let parsed = parse_variant(raws[k].as_str());
        proof {
            assert(raws.deep_view().take(k as int).push(raws.deep_view()[k as int])
                =~= raws.deep_view().take(k + 1));
            assert(raws.deep_view().take(k as int) + seq![raws.deep_view()[k as int]]
                =~= raws.deep_view().take(k + 1));
            assert(raws.deep_view()[k as int] == raws[k as int]@);
        }
        match parsed {
            Err(e) => {
                proof {
                    let piece = raws.deep_view()[k as int];
                    lemma_parse_variants_one(piece);
                    lemma_parse_variants_concat(raws.deep_view().take(k as int), seq![piece]);
                    lemma_parse_variants_concat(
                        raws.deep_view().take(k + 1),
                        raws.deep_view().skip(k + 1),
                    );
                    assert(raws.deep_view().take(k + 1) + raws.deep_view().skip(k + 1)
                        =~= raws.deep_view());
                }
                return Err(GenError::SpecMalformed);
            },
            Ok(v) => {
                let ghost old_variants = variants.deep_view();
                variants.push(v);
                proof {
                    let piece = raws.deep_view()[k as int];
                    assert(variants.deep_view() =~= old_variants + seq![v@]);
                    lemma_parse_variants_one(piece);
                    lemma_parse_variants_concat(raws.deep_view().take(k as int), seq![piece]);
                }
            },
        }
    }
    proof {
        assert(raws.deep_view().take(n as int) =~= raws.deep_view());
    }
    Ok(variants)
}

} // verus!
