//! The traversal engine: a depth-first, pre-order walk of the tree that
//! classifies every node, descends into every child, and appends the
//! discovered definitions and warnings in visit order.

use vstd::prelude::*;
use crate::ast::{Node, NodeDetail, wf_children, wf_detail, wf_node, wf_arg_form, wf_name_form};
use crate::classify::{classify_node, named_defs, own_defs, own_warns, sym_defs};
use crate::defs::{DefModel, Definition, Warning, views_of};
use crate::excerpt::{lemma_excerpt_no_newline, nl};

verus! {

/// All definitions discovered in a pre-order walk of `node`: the node's own
/// contribution first, then those of its children, left to right.
pub open spec fn defs_of(node: Node, file: Seq<u8>, src: Seq<u8>) -> Seq<DefModel>
    decreases node,
{
    own_defs(node, file, src) + defs_of_seq(node.children@, file, src)
}

/// All definitions discovered under a sequence of sibling subtrees.
pub open spec fn defs_of_seq(s: Seq<Node>, file: Seq<u8>, src: Seq<u8>) -> Seq<DefModel>
    decreases s,
{
    if s.len() == 0 {
        Seq::empty()
    } else {
        defs_of_seq(s.drop_last(), file, src) + defs_of(s.last(), file, src)
    }
}

/// All warnings reported in a pre-order walk of `node`.
pub open spec fn warns_of(node: Node, src: Seq<u8>) -> Seq<Warning>
    decreases node,
{
    own_warns(node, src) + warns_of_seq(node.children@, src)
}

/// All warnings reported under a sequence of sibling subtrees.
pub open spec fn warns_of_seq(s: Seq<Node>, src: Seq<u8>) -> Seq<Warning>
    decreases s,
{
    if s.len() == 0 {
        Seq::empty()
    } else {
        warns_of_seq(s.drop_last(), src) + warns_of(s.last(), src)
    }
}

/// Visits `node` and, recursively, every node reachable from it, appending
/// each definition and warning in discovery order.
pub fn collect_node(
    node: &Node,
    file: &Vec<u8>,
    src: &Vec<u8>,
    defs: &mut Vec<Definition>,
    warns: &mut Vec<Warning>,
)
    ensures
        views_of(final(defs)@) =~= views_of(old(defs)@) + defs_of(*node, file@, src@),
        final(warns)@ =~= old(warns)@ + warns_of(*node, src@),
    decreases *node,
{
    classify_node(node, file, src, defs, warns);
    let mut i: usize = 0;
    while i < node.children.len()
        invariant
            0 <= i <= node.children@.len(),
            views_of(defs@) =~= views_of(old(defs)@) + own_defs(*node, file@, src@) + defs_of_seq(
                node.children@.take(i as int),
                file@,
                src@,
            ),
            warns@ =~= old(warns)@ + own_warns(*node, src@) + warns_of_seq(
                node.children@.take(i as int),
                src@,
            ),
        decreases node.children@.len() - i,
    {
        proof {
            assert(decreases_to!(*node => node.children));
            assert(decreases_to!(node.children => node.children@));
            assert(decreases_to!(node.children@ => node.children@[i as int]));
        }
        collect_node(&node.children[i], file, src, defs, warns);
        proof {
            assert(node.children@.take(i + 1).drop_last() =~= node.children@.take(i as int));
            assert(node.children@.take(i + 1).last() == node.children@[i as int]);
        }
        i = i + 1;
    }
    proof {
        assert(node.children@.take(node.children@.len() as int) =~= node.children@);
    }
}

/// Walks the whole tree rooted at `node` and returns the populated tag
/// index in discovery order, together with the recoverable conditions met
/// along the way.
pub fn collect_tags(node: &Node, file: &Vec<u8>, src: &Vec<u8>) -> (r: (
    Vec<Definition>,
    Vec<Warning>,
))
    ensures
        views_of(r.0@) =~= defs_of(*node, file@, src@),
        r.1@ =~= warns_of(*node, src@),
{
    let mut defs: Vec<Definition> = Vec::new();
    let mut warns: Vec<Warning> = Vec::new();
    collect_node(node, file, src, &mut defs, &mut warns);
    (defs, warns)
}

/// The invariants of one collected definition: a non-empty name, the file
/// path of this traversal, and an excerpt free of newline bytes.
pub open spec fn def_ok(d: DefModel, file: Seq<u8>) -> bool {
    &&& d.name.len() > 0
    &&& d.file == file
    &&& forall|j: int| 0 <= j < d.excerpt.len() ==> d.excerpt[j] != nl()
}

/// The invariants hold of every definition in the sequence.
pub open spec fn all_defs_ok(s: Seq<DefModel>, file: Seq<u8>) -> bool {
    forall|k: int| 0 <= k < s.len() ==> def_ok(#[trigger] s[k], file)
}

proof fn lemma_named_defs_ok(
    form: crate::ast::NameForm,
    kind: crate::Kind,
    span: crate::ast::Span,
    file: Seq<u8>,
    src: Seq<u8>,
)
    requires
        wf_name_form(form),
    ensures
        all_defs_ok(named_defs(form, kind, span, file, src), file),
{
    lemma_excerpt_no_newline(src, span);
}

proof fn lemma_own_defs_ok(node: Node, file: Seq<u8>, src: Seq<u8>)
    requires
        wf_detail(node.detail),
    ensures
        all_defs_ok(own_defs(node, file, src), file),
{
    lemma_excerpt_no_newline(src, node.span);
    match node.detail {
        NodeDetail::ClassDecl { name } => lemma_named_defs_ok(
            name,
            crate::Kind::Class,
            node.span,
            file,
            src,
        ),
        NodeDetail::ModuleDecl { name } => lemma_named_defs_ok(
            name,
            crate::Kind::Module,
            node.span,
            file,
            src,
        ),
        NodeDetail::AliasDecl { new_name } => lemma_named_defs_ok(
            new_name,
            crate::Kind::Alias,
            node.span,
            file,
            src,
        ),
        NodeDetail::Call { method_name, args } => {
            lemma_sym_defs_ok(args@, node.span, file, src);
        },
        _ => {},
    }
}

proof fn lemma_sym_defs_ok(
    args: Seq<crate::ast::ArgForm>,
    span: crate::ast::Span,
    file: Seq<u8>,
    src: Seq<u8>,
)
    requires
        forall|i: int| 0 <= i < args.len() ==> wf_arg_form(#[trigger] args[i]),
    ensures
        all_defs_ok(sym_defs(args, span, file, src), file),
    decreases args.len(),
{
    lemma_excerpt_no_newline(src, span);
    if args.len() > 0 {
        assert(forall|i: int|
            0 <= i < args.drop_last().len() ==> wf_arg_form(#[trigger] args.drop_last()[i]));
        lemma_sym_defs_ok(args.drop_last(), span, file, src);
    }
}

/// Every definition collected from a well-formed tree has a non-empty name,
/// carries the file path of this traversal, and has an excerpt that
/// contains no newline byte.
pub proof fn lemma_index_invariants(node: Node, file: Seq<u8>, src: Seq<u8>)
    requires
        wf_node(node),
    ensures
        all_defs_ok(defs_of(node, file, src), file),
    decreases node,
{
    lemma_own_defs_ok(node, file, src);
    lemma_index_invariants_seq(node.children@, file, src);
}

proof fn lemma_index_invariants_seq(s: Seq<Node>, file: Seq<u8>, src: Seq<u8>)
    requires
        wf_children(s),
    ensures
        all_defs_ok(defs_of_seq(s, file, src), file),
    decreases s,
{
    if s.len() > 0 {
        assert(wf_children(s.drop_last()));
        lemma_index_invariants_seq(s.drop_last(), file, src);
        assert(wf_node(s.last()));
        lemma_index_invariants(s.last(), file, src);
    }
}

} // verus!
