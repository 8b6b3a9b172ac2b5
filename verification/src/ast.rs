//! The closed node model the traversal engine walks.
//!
//! The external parser hands back a typed tree; before indexing, that tree is
//! converted into this model, which carries exactly what classification
//! reads: per-construct name material, the construct's source span, and the
//! child nodes to descend into.

use vstd::prelude::*;

verus! {

/// A half-open byte range `[begin, end)` into the decoded source buffer.
#[derive(Debug, Clone, Copy, PartialEq, Eq, Structural)]
pub struct Span {
    pub begin: usize,
    pub end: usize,
}

/// The shape of the name material of a class, module or alias declaration.
///
/// Only a direct constant reference and a symbol literal resolve to a name;
/// any other shape is an unsupported construct and produces a warning
/// instead of a definition.
#[derive(Debug, Clone, PartialEq)]
pub enum NameForm {
    /// A direct constant reference; the payload is its literal name.
    ConstRef(Vec<u8>),
    /// A symbol literal; the payload is the symbol's decoded text.
    SymbolLit(Vec<u8>),
    /// Any other shape passed where a name is expected.
    Unsupported,
}

/// One argument of an accessor-generating call, reduced to what
/// classification reads: either a symbol literal with its decoded text, or
/// anything else (ignored).
#[derive(Debug, Clone, PartialEq)]
pub enum ArgForm {
    Symbol(Vec<u8>),
    NonSymbol,
}

/// The construct-specific payload of one node.
#[derive(Debug, Clone, PartialEq)]
pub enum NodeDetail {
    /// A class declaration and its name material.
    ClassDecl { name: NameForm },
    /// A module declaration and its name material.
    ModuleDecl { name: NameForm },
    /// An instance method declaration and its name token.
    MethodDecl { name: Vec<u8> },
    /// A singleton (class-level) method declaration and its name token.
    SingletonMethodDecl { name: Vec<u8> },
    /// A constant assignment and the constant's name token.
    ConstAssign { name: Vec<u8> },
    /// An alias declaration and the *new* name it introduces.
    AliasDecl { new_name: NameForm },
    /// A method call: its name and its arguments, reduced for
    /// classification. The argument nodes themselves also appear among the
    /// node's children, so the traversal descends into them as usual.
    Call { method_name: Vec<u8>, args: Vec<ArgForm> },
    /// Every construct that bears no definition.
    Other,
}

/// One node of the tree: its classification payload, the span of the whole
/// construct, and its children in source order.
#[derive(Debug)]
pub struct Node {
    pub detail: NodeDetail,
    pub span: Span,
    pub children: Vec<Node>,
}

/// Well-formedness of name material: the resolved name text is non-empty.
pub open spec fn wf_name_form(n: NameForm) -> bool {
    match n {
        NameForm::ConstRef(s) => s@.len() > 0,
        NameForm::SymbolLit(s) => s@.len() > 0,
        NameForm::Unsupported => true,
    }
}

/// Well-formedness of one call argument: a symbol's text is non-empty.
pub open spec fn wf_arg_form(a: ArgForm) -> bool {
    match a {
        ArgForm::Symbol(s) => s@.len() > 0,
        ArgForm::NonSymbol => true,
    }
}

/// Well-formedness of a node's own payload: every name token it carries is
/// non-empty. The parser never produces empty identifiers; the converter
/// maps a degenerate shape to `Unsupported` or `NonSymbol`.
pub open spec fn wf_detail(d: NodeDetail) -> bool {
    match d {
        NodeDetail::ClassDecl { name } => wf_name_form(name),
        NodeDetail::ModuleDecl { name } => wf_name_form(name),
        NodeDetail::MethodDecl { name } => name@.len() > 0,
        NodeDetail::SingletonMethodDecl { name } => name@.len() > 0,
        NodeDetail::ConstAssign { name } => name@.len() > 0,
        NodeDetail::AliasDecl { new_name } => wf_name_form(new_name),
        NodeDetail::Call { method_name, args } => forall|i: int|
            0 <= i < args@.len() ==> wf_arg_form(#[trigger] args@[i]),
        NodeDetail::Other => true,
    }
}

/// Well-formedness of a whole tree: every node's payload is well-formed.
pub open spec fn wf_node(n: Node) -> bool
    decreases n,
{
    wf_detail(n.detail) && wf_children(n.children@)
}

/// Well-formedness of a sequence of sibling nodes.
pub open spec fn wf_children(s: Seq<Node>) -> bool
    decreases s,
{
    forall|i: int| 0 <= i < s.len() ==> wf_node(#[trigger] s[i])
}

} // verus!
