//! Non-fatal diagnostics. Parsing never aborts on malformed input; each
//! partial-failure condition is recorded as one warning alongside the
//! best-effort output.

use vstd::prelude::*;
use crate::blocks::BlockKind;

verus! {

/// A non-fatal diagnostic recorded during parsing.
#[derive(Debug, Clone, PartialEq, Eq)]
pub enum ParseWarning {
    /// A recognized block header whose body never closes: the block is
    /// dropped and scanning resumes just after its opening brace.
    Unterminated { kind: BlockKind },
    /// A raw block without the labels its kind requires: the block is
    /// dropped.
    MissingLabel { kind: BlockKind },
    /// A module block without a `source` attribute: the module is kept
    /// with an empty source.
    MissingSource { module_name: String },
    /// Two blocks share the identity key `<kind>.<name>`: the later one
    /// overwrites the earlier one in place.
    DuplicateIdentity { kind: BlockKind, name: String },
}

/// Mathematical model of a warning.
pub enum WarningModel {
    Unterminated { kind: BlockKind },
    MissingLabel { kind: BlockKind },
    MissingSource { module_name: Seq<char> },
    DuplicateIdentity { kind: BlockKind, name: Seq<char> },
}

impl DeepView for ParseWarning {
    type V = WarningModel;

    open spec fn deep_view(&self) -> WarningModel {
        match self {
            ParseWarning::Unterminated { kind } => WarningModel::Unterminated { kind: *kind },
            ParseWarning::MissingLabel { kind } => WarningModel::MissingLabel { kind: *kind },
            ParseWarning::MissingSource { module_name } => WarningModel::MissingSource {
                module_name: module_name@,
            },
            ParseWarning::DuplicateIdentity { kind, name } => WarningModel::DuplicateIdentity {
                kind: *kind,
                name: name@,
            },
        }
    }
}

} // verus!
