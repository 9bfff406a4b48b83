//! Emission of one output unit: the complete source text of a base type's
//! module — visitor interface, abstract base type, one concrete subtype per
//! variant, and the dispatch method — as `unit_text` describes it.
//!
//! The text is built in memory first and handed back whole, so a malformed
//! specification yields no partially written output.

use vstd::prelude::*;
use vstd::string::*;

use crate::chars::split_pair;
use crate::errors::GenError;
use crate::model::{FieldDecl, FieldModel, Variant, VariantModel};
use crate::parse::{parse_variants, spec_parse_variants};

verus! {

/// The result of `str::to_lowercase` on `s`: a function of the characters
/// alone, left uninterpreted.
pub uninterp spec fn lower_of(s: Seq<char>) -> Seq<char>;

/// Relies on `str::to_lowercase`: the lowercase mapping of the text, which
/// depends on the characters alone.
#[verifier::external_body]
fn lowercase(s: &str) -> (r: String)
    ensures
        r@ == lower_of(s@),
{
    s.to_lowercase()
}

/// A field declaration as it stands in the output: declared type, one
/// space, field name.  For a parsed field this is the input text verbatim.
pub open spec fn field_text(f: FieldModel) -> Seq<char> {
    f.ty + " "@ + f.name
}

/// The constructor parameter list: the field declarations in order, joined
/// with `", "`.
pub open spec fn fields_params(fs: Seq<FieldModel>) -> Seq<char>
    decreases fs.len(),
{
    if fs.len() == 0 {
        Seq::empty()
    } else if fs.len() == 1 {
        field_text(fs[0])
    } else {
        field_text(fs[0]) + ", "@ + fields_params(fs.drop_first())
    }
}

/// One constructor-body line: the parameter assigned verbatim to the
/// same-named field.
pub open spec fn assign_line(f: FieldModel) -> Seq<char> {
    "            this."@ + f.name + " = "@ + f.name + ";\n"@
}

/// The constructor-body lines, in field order.
pub open spec fn assign_lines(fs: Seq<FieldModel>) -> Seq<char>
    decreases fs.len(),
{
    if fs.len() == 0 {
        Seq::empty()
    } else {
        assign_lines(fs.drop_last()) + assign_line(fs.last())
    }
}

/// One immutable field declaration line.
pub open spec fn decl_line(f: FieldModel) -> Seq<char> {
    "        final "@ + field_text(f) + ";\n"@
}

/// The field declaration lines, in field order.
pub open spec fn decl_lines(fs: Seq<FieldModel>) -> Seq<char>
    decreases fs.len(),
{
    if fs.len() == 0 {
        Seq::empty()
    } else {
        decl_lines(fs.drop_last()) + decl_line(fs.last())
    }
}

/// The name of the visitor method for variant `n` of base type `b`.
pub open spec fn visitor_method_name(b: Seq<char>, n: Seq<char>) -> Seq<char> {
    "visit"@ + n + b
}

/// One visitor interface method signature: result type `R`, the method name
/// `visit<Variant><Base>`, and a single parameter of the variant's type
/// named by the lower-cased base name.
pub open spec fn method_line(b: Seq<char>, n: Seq<char>) -> Seq<char> {
    "        R visit"@ + n + b + "("@ + n + " "@ + lower_of(b) + ");\n"@
}

/// The visitor method signatures, one per variant, in variant order.
pub open spec fn visitor_lines(b: Seq<char>, vs: Seq<VariantModel>) -> Seq<char>
    decreases vs.len(),
{
    if vs.len() == 0 {
        Seq::empty()
    } else {
        visitor_lines(b, vs.drop_last()) + method_line(b, vs.last().name)
    }
}

/// The visitor interface block.
pub open spec fn visitor_text(b: Seq<char>, vs: Seq<VariantModel>) -> Seq<char> {
    "    interface Visitor<R> {\n"@ + visitor_lines(b, vs) + "    }\n\n"@
}

/// One concrete variant type: constructor, dispatch method, field
/// declarations.
pub open spec fn class_text(b: Seq<char>, v: VariantModel) -> Seq<char> {
    "    static class "@ + v.name + " extends "@ + b + " {\n"@ + "        "@ + v.name + "("@
        + fields_params(v.fields) + ") {\n"@ + assign_lines(v.fields) + "        }\n\n"@
        + "        @Override\n"@ + "        <R> R accept(Visitor<R> visitor) {\n"@
        + "            return visitor.visit"@ + v.name + b + "(this);\n"@ + "        }\n\n"@
        + decl_lines(v.fields) + "    }\n\n"@
}

/// The concrete variant types, in variant order.
pub open spec fn classes_text(b: Seq<char>, vs: Seq<VariantModel>) -> Seq<char>
    decreases vs.len(),
{
    if vs.len() == 0 {
        Seq::empty()
    } else {
        classes_text(b, vs.drop_last()) + class_text(b, vs.last())
    }
}

/// The complete output unit for base type `b` with variants `vs`: header
/// boilerplate, the opening of the abstract base type, the visitor
/// interface, the variant types, the abstract dispatch method, and the
/// closing of the base type's block.
pub open spec fn unit_text(b: Seq<char>, vs: Seq<VariantModel>) -> Seq<char> {
    "import java.util.List;\n\n"@ + "abstract class "@ + b + " {\n"@ + visitor_text(b, vs)
        + classes_text(b, vs) + "    abstract <R> R accept(Visitor<R> visitor);"@ + "\n}\n"@
}

/// Joining one more field onto a parameter list appends `", "` and the
/// field's text (nothing before it when the list was empty).
pub proof fn lemma_fields_params_snoc(fs: Seq<FieldModel>, f: FieldModel)
    ensures
        fs.len() == 0 ==> fields_params(fs.push(f)) == field_text(f),
        fs.len() > 0 ==> fields_params(fs.push(f)) == fields_params(fs) + ", "@ + field_text(f),
    decreases fs.len(),
{
    if fs.len() == 0 {
        assert(fs.push(f)[0] == f);
    } else {
        assert(fs.push(f)[0] == fs[0]);
        assert(fs.push(f).drop_first() =~= fs.drop_first().push(f));
        lemma_fields_params_snoc(fs.drop_first(), f);
        if fs.len() > 1 {
            assert(field_text(fs[0]) + ", "@ + (fields_params(fs.drop_first()) + ", "@
                + field_text(f)) =~= (field_text(fs[0]) + ", "@ + fields_params(fs.drop_first()))
                + ", "@ + field_text(f));
        }
    }
}

/// Appends a field's verbatim text to `out`.
fn push_field_text(out: &mut String, f: &FieldDecl)
    ensures
        final(out)@ == old(out)@ + field_text(f@),
{
    out.append(f.ty.as_str());
    out.append(" ");
    out.append(f.name.as_str());
    proof {
        assert(out@ =~= old(out)@ + field_text(f@));
    }
}

/// Appends the joined constructor parameter list to `out`.
fn push_params(out: &mut String, fields: &Vec<FieldDecl>)
    ensures
        final(out)@ == old(out)@ + fields_params(fields.deep_view()),
{
    let ghost base = out@;
    let n = fields.len();
    proof {
        assert(fields.deep_view().take(0) =~= Seq::<FieldModel>::empty());
        assert(base + fields_params(fields.deep_view().take(0)) =~= base);
    }
    for j in 0..n
        invariant
            n == fields.len(),
            out@ == base + fields_params(fields.deep_view().take(j as int)),
    {
        if j > 0 {
            out.append(", ");
        }
        push_field_text(out, &fields[j]);
        proof {
            let dv = fields.deep_view();
            assert(dv.take(j as int).push(dv[j as int]) =~= dv.take(j + 1));
            lemma_fields_params_snoc(dv.take(j as int), dv[j as int]);
            assert(out@ =~= base + fields_params(dv.take(j + 1)));
        }
    }
    proof {
        assert(fields.deep_view().take(n as int) =~= fields.deep_view());
    }
}

/// Appends one constructor-body assignment line to `out`.
fn push_assign_line(out: &mut String, f: &FieldDecl)
    ensures
        final(out)@ == old(out)@ + assign_line(f@),
{
    out.append("            this.");
    out.append(f.name.as_str());
    out.append(" = ");
    out.append(f.name.as_str());
    out.append(";\n");
    proof {
        assert(out@ =~= old(out)@ + assign_line(f@));
    }
}

/// Appends one field declaration line to `out`.
fn push_decl_line(out: &mut String, f: &FieldDecl)
    ensures
        final(out)@ == old(out)@ + decl_line(f@),
{
    out.append("        final ");
    out.append(f.ty.as_str());
    out.append(" ");
    out.append(f.name.as_str());
    out.append(";\n");
    proof {
        assert(out@ =~= old(out)@ + decl_line(f@));
    }
}

/// Appends the visitor interface block to `out`.
fn push_visitor(out: &mut String, basename: &str, lower: &str, variants: &Vec<Variant>)
    requires
        lower@ == lower_of(basename@),
    ensures
        final(out)@ == old(out)@ + visitor_text(basename@, variants.deep_view()),
{
    let ghost base = out@;
    out.append("    interface Visitor<R> {\n");
    let n = variants.len();
    let ghost opened = out@;
    proof {
        assert(variants.deep_view().take(0) =~= Seq::<VariantModel>::empty());
        assert(opened + visitor_lines(basename@, variants.deep_view().take(0)) =~= opened);
    }
    for j in 0..n
        invariant
            n == variants.len(),
            lower@ == lower_of(basename@),
            out@ == opened + visitor_lines(basename@, variants.deep_view().take(j as int)),
    {
        out.append("        R visit");
        out.append(variants[j].name.as_str());
        out.append(basename);
        out.append("(");
        out.append(variants[j].name.as_str());
        out.append(" ");
        out.append(lower);
        out.append(");\n");
        proof {
            let dv = variants.deep_view();
            assert(dv.take(j + 1).drop_last() =~= dv.take(j as int));
            assert(dv.take(j + 1).last() == dv[j as int]);
            assert(visitor_lines(basename@, dv.take(j + 1)) == visitor_lines(
                basename@,
                dv.take(j as int),
            ) + method_line(basename@, dv[j as int].name));
            assert(out@ =~= opened + visitor_lines(basename@, dv.take(j + 1)));
        }
    }
    out.append("    }\n\n");
    proof {
        assert(variants.deep_view().take(n as int) =~= variants.deep_view());
        assert(out@ =~= base + visitor_text(basename@, variants.deep_view()));
    }
}

/// Appends one concrete variant type to `out`.
#[verifier::rlimit(60)]
fn push_class(out: &mut String, basename: &str, v: &Variant)
    ensures
        final(out)@ == old(out)@ + class_text(basename@, v@),
{
    let ghost base = out@;
    out.append("    static class ");
    out.append(v.name.as_str());
    out.append(" extends ");
    out.append(basename);
    out.append(" {\n");
    out.append("        ");
    out.append(v.name.as_str());
    out.append("(");
    push_params(out, &v.fields);
    out.append(") {\n");
    let ghost header_done = out@;
    let n = v.fields.len();
    proof {
        assert(v.fields.deep_view().take(0) =~= Seq::<FieldModel>::empty());
        assert(header_done + assign_lines(v.fields.deep_view().take(0)) =~= header_done);
    }
    for j in 0..n
        invariant
            n == v.fields.len(),
            out@ == header_done + assign_lines(v.fields.deep_view().take(j as int)),
    {
        push_assign_line(out, &v.fields[j]);
        proof {
            let dv = v.fields.deep_view();
            assert(dv.take(j + 1).drop_last() =~= dv.take(j as int));
            assert(dv.take(j + 1).last() == dv[j as int]);
            assert(out@ =~= header_done + assign_lines(dv.take(j + 1)));
        }
    }
    proof {
        assert(v.fields.deep_view().take(n as int) =~= v.fields.deep_view());
    }
    out.append("        }\n\n");
    out.append("        @Override\n");
    out.append("        <R> R accept(Visitor<R> visitor) {\n");
    out.append("            return visitor.visit");
    out.append(v.name.as_str());
    out.append(basename);
    out.append("(this);\n");
    out.append("        }\n\n");
    let ghost accept_done = out@;
    proof {
        assert(accept_done + decl_lines(v.fields.deep_view().take(0)) =~= accept_done);
    }
    for j in 0..n
        invariant
            n == v.fields.len(),
            out@ == accept_done + decl_lines(v.fields.deep_view().take(j as int)),
    {
        push_decl_line(out, &v.fields[j]);
        proof {
            let dv = v.fields.deep_view();
            assert(dv.take(j + 1).drop_last() =~= dv.take(j as int));
            assert(dv.take(j + 1).last() == dv[j as int]);
            assert(out@ =~= accept_done + decl_lines(dv.take(j + 1)));
        }
    }
    proof {
        assert(v.fields.deep_view().take(n as int) =~= v.fields.deep_view());
    }
    out.append("    }\n\n");
    proof {
        assert(out@ =~= base + class_text(basename@, v@));
    }
}

/// Produces the complete output unit for `basename` from parsed variants.
pub fn emit_unit(basename: &str, variants: &Vec<Variant>) -> (r: String)
    ensures
        r@ == unit_text(basename@, variants.deep_view()),
{
    let lower = lowercase(basename);
    let mut out = String::new();
    out.append("import java.util.List;\n\n");
    out.append("abstract class ");
    out.append(basename);
    out.append(" {\n");
    push_visitor(&mut out, basename, lower.as_str(), variants);
    let ghost visitor_done = out@;
    let n = variants.len();
    proof {
        assert(variants.deep_view().take(0) =~= Seq::<VariantModel>::empty());
        assert(visitor_done + classes_text(basename@, variants.deep_view().take(0))
            =~= visitor_done);
    }
    for j in 0..n
        invariant
            n == variants.len(),
            out@ == visitor_done + classes_text(basename@, variants.deep_view().take(j as int)),
    {
        push_class(&mut out, basename, &variants[j]);
        proof {
            let dv = variants.deep_view();
            assert(dv.take(j + 1).drop_last() =~= dv.take(j as int));
            assert(dv.take(j + 1).last() == dv[j as int]);
            assert(out@ =~= visitor_done + classes_text(basename@, dv.take(j + 1)));
        }
    }
    proof {
        assert(variants.deep_view().take(n as int) =~= variants.deep_view());
    }
    out.append("    abstract <R> R accept(Visitor<R> visitor);");
    out.append("\n}\n");
    proof {
        assert(out@ =~= unit_text(basename@, variants.deep_view()));
    }
    out
}

/// Parses the raw variant specifications and produces the complete output
/// unit; the first malformed specification aborts the unit with
/// `SpecMalformed` and no text is produced.
pub fn generate_unit(basename: &str, raws: &Vec<String>) -> (r: Result<String, GenError>)
    ensures
        (spec_parse_variants(raws.deep_view()) matches Some(vs) ==> r matches Ok(text)
            && text@ == unit_text(basename@, vs)),
        spec_parse_variants(raws.deep_view()) is None ==> r == Err::<String, GenError>(
            GenError::SpecMalformed,
        ),
{
    match parse_variants(raws) {
        Err(e) => Err(e),
        Ok(variants) => Ok(emit_unit(basename, &variants)),
    }
}

/// The path of the output file for `basename`: the target directory, a
/// separator, and the base name with the output language's extension.
pub fn output_path(directory: &str, basename: &str) -> (r: String)
    ensures
        r@ == directory@ + "/"@ + basename@ + ".java"@,
{
    let mut out = String::new();
    out.append(directory);
    out.append("/");
    out.append(basename);
    out.append(".java");
    proof {
        assert(out@ =~= directory@ + "/"@ + basename@ + ".java"@);
    }
    out
}

} // verus!
