//! Definitions: the records the index collects, and the recoverable
//! conditions reported alongside them.

use vstd::prelude::*;
use crate::Kind;
use crate::ast::Span;

verus! {

/// The mathematical model of one definition: its name, the indexed file's
/// path, the one-line excerpt of the defining construct, and its kind.
#[verifier::ext_equal]
pub struct DefModel {
    pub name: Seq<u8>,
    pub file: Seq<u8>,
    pub excerpt: Seq<u8>,
    pub kind: Kind,
}

/// One discovered definition. Immutable once created; the invariants (name
/// non-empty, excerpt free of newlines, file constant across one traversal)
/// are stated over whole collections by `traverse::lemma_index_invariants`.
#[derive(Debug, Clone, PartialEq)]
pub struct Definition {
    pub name: Vec<u8>,
    pub file: Vec<u8>,
    pub excerpt: Vec<u8>,
    pub kind: Kind,
}

impl View for Definition {
    type V = DefModel;

    open spec fn view(&self) -> DefModel {
        DefModel {
            name: self.name@,
            file: self.file@,
            excerpt: self.excerpt@,
            kind: self.kind,
        }
    }
}

/// The models of a sequence of definitions.
pub open spec fn views_of(s: Seq<Definition>) -> Seq<DefModel> {
    s.map_values(|d: Definition| d@)
}

/// A recoverable condition found during traversal. Neither aborts the run:
/// an unsupported name shape suppresses that node's definition, a failed
/// span resolution leaves the definition with an empty excerpt.
#[derive(Debug, Clone, Copy, PartialEq, Eq, Structural)]
pub enum Warning {
    /// A definition-bearing node carries name material of a shape the
    /// classifier does not recognize.
    UnsupportedConstruct { span: Span },
    /// A node's span cannot be mapped back to source text.
    SpanResolutionFailure { span: Span },
}

} // verus!
