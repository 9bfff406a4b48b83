//! A generator for visitor-pattern class hierarchies.
//!
//! The crate reads a compact description of a family of node types — a base
//! name together with variant specifications of the form
//! `"Name : Type field, Type field"` — and emits the complete source text of
//! a module implementing the classic visitor pattern: one abstract base
//! class, one concrete subclass per variant, and a visitor interface with
//! one method per variant.
//!
//! The text of each output unit is built wholly in memory, so a malformed
//! specification produces an error and no text at all, never a partial
//! unit.  Reading the specification document and writing the output files
//! is left to the caller.

pub mod chars;
pub mod defaults;
pub mod emit;
mod errors;
pub mod laws;
pub mod loader;
pub mod model;
pub mod parse;

pub use defaults::{default_basename, default_variants};
pub use emit::{emit_unit, generate_unit, output_path};
pub use errors::GenError;
pub use loader::load_spec;
pub use model::{FieldDecl, Variant};
pub use parse::{parse_field, parse_fields, parse_variant, parse_variants};
