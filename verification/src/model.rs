//! The in-memory model of a parsed type family: fields, variants, and their
//! mathematical values.

use vstd::prelude::*;

verus! {

/// One field of a variant: a declared type (opaque text, passed through to
/// the output verbatim) and the field's identifier.
#[derive(Debug, PartialEq, Eq)]
pub struct FieldDecl {
    pub ty: String,
    pub name: String,
}

/// The mathematical value of a `FieldDecl`.
pub ghost struct FieldModel {
    pub ty: Seq<char>,
    pub name: Seq<char>,
}

impl View for FieldDecl {
    type V = FieldModel;

    open spec fn view(&self) -> FieldModel {
        FieldModel { ty: self.ty@, name: self.name@ }
    }
}

impl DeepView for FieldDecl {
    type V = FieldModel;

    open spec fn deep_view(&self) -> FieldModel {
        self@
    }
}

/// One parsed variant: its name and its fields, in declaration order.  The
/// order is semantically significant: it is the constructor parameter order
/// and the field declaration order of the emitted output.
#[derive(Debug, PartialEq, Eq)]
pub struct Variant {
    pub name: String,
    pub fields: Vec<FieldDecl>,
}

/// The mathematical value of a `Variant`.
pub ghost struct VariantModel {
    pub name: Seq<char>,
    pub fields: Seq<FieldModel>,
}

impl View for Variant {
    type V = VariantModel;

    open spec fn view(&self) -> VariantModel {
        VariantModel { name: self.name@, fields: self.fields.deep_view() }
    }
}

impl DeepView for Variant {
    type V = VariantModel;

    open spec fn deep_view(&self) -> VariantModel {
        self@
    }
}

} // verus!
