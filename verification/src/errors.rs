//! The error taxonomy of the generator.

use vstd::prelude::*;

verus! {

/// Everything that can go wrong in a generation run.  Every error is fatal:
/// the first one aborts the remaining work.
#[derive(Clone, Copy, Debug, PartialEq, Eq, Structural)]
pub enum GenError {
    /// The command-line configuration is invalid.
    ConfigError,
    /// The input document path cannot be opened.
    SourceUnreadable,
    /// The input document does not parse into a map from names to lists of
    /// variant specifications.
    SourceMalformed,
    /// A variant specification or a field declaration breaks the syntactic
    /// contract: a missing `:`, or a field without a separating space.
    SpecMalformed,
    /// The output file cannot be created or written.
    OutputError,
}

} // verus!
