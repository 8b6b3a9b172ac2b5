//! The definition classifier: per-construct rules that decide whether one
//! node denotes zero, one, or many definitions, and compute each
//! definition's name and kind.

use vstd::prelude::*;
use crate::Kind;
use crate::ast::{ArgForm, NameForm, Node, NodeDetail, Span};
use crate::defs::{DefModel, Definition, Warning, views_of};
use crate::excerpt::{excerpt_of, resolve_excerpt, span_ok};

verus! {

/// The recognized accessor-declaration prefix, `attr_`, as bytes.
pub open spec fn accessor_prefix() -> Seq<u8> {
    seq![97u8, 116u8, 116u8, 114u8, 95u8]
}

/// Whether a call with this method name generates accessor methods.
pub open spec fn is_accessor_call(name: Seq<u8>) -> bool {
    name.len() >= 5 && name.take(5) == accessor_prefix()
}

/// The name that class/module/alias name material resolves to: the literal
/// name of a direct constant reference, the decoded text of a symbol
/// literal, and nothing for any other shape.
pub open spec fn resolved_name(form: NameForm) -> Option<Seq<u8>> {
    match form {
        NameForm::ConstRef(s) => Some(s@),
        NameForm::SymbolLit(s) => Some(s@),
        NameForm::Unsupported => None,
    }
}

/// The definition model a named construct contributes: one record where the
/// name resolves, none where its shape is unsupported.
pub open spec fn named_defs(form: NameForm, kind: Kind, span: Span, file: Seq<u8>, src: Seq<u8>) -> Seq<DefModel> {
    match resolved_name(form) {
        Some(name) => seq![DefModel { name, file, excerpt: excerpt_of(src, span), kind }],
        None => Seq::empty(),
    }
}

/// The warnings a named construct contributes: an unsupported-construct
/// warning where the name shape is unrecognized, a span-resolution warning
/// where a definition is emitted but its span cannot be resolved.
pub open spec fn named_warns(form: NameForm, span: Span, src: Seq<u8>) -> Seq<Warning> {
    match resolved_name(form) {
        Some(_) => plain_warns(span, src),
        None => seq![Warning::UnsupportedConstruct { span }],
    }
}

/// The warnings of a construct whose name always resolves: one
/// span-resolution warning where its span is out of range.
pub open spec fn plain_warns(span: Span, src: Seq<u8>) -> Seq<Warning> {
    if span_ok(src, span) {
        Seq::empty()
    } else {
        seq![Warning::SpanResolutionFailure { span }]
    }
}

/// The definitions an accessor-generating call contributes: one `Method`
/// record per symbol-literal argument, in argument order; other argument
/// shapes are ignored.
pub open spec fn sym_defs(args: Seq<ArgForm>, span: Span, file: Seq<u8>, src: Seq<u8>) -> Seq<DefModel>
    decreases args.len(),
{
    if args.len() == 0 {
        Seq::empty()
    } else {
        sym_defs(args.drop_last(), span, file, src) + (match args.last() {
            ArgForm::Symbol(s) => seq![
                DefModel { name: s@, file, excerpt: excerpt_of(src, span), kind: Kind::Method },
            ],
            ArgForm::NonSymbol => Seq::empty(),
        })
    }
}

/// The warnings of an accessor-generating call: one span-resolution warning
/// per emitted definition whose span is out of range.
pub open spec fn sym_warns(args: Seq<ArgForm>, span: Span, src: Seq<u8>) -> Seq<Warning>
    decreases args.len(),
{
    if args.len() == 0 {
        Seq::empty()
    } else {
        sym_warns(args.drop_last(), span, src) + (match args.last() {
            ArgForm::Symbol(_) => plain_warns(span, src),
            ArgForm::NonSymbol => Seq::empty(),
        })
    }
}

/// The definitions one node contributes on its own, children aside.
pub open spec fn own_defs(node: Node, file: Seq<u8>, src: Seq<u8>) -> Seq<DefModel> {
    match node.detail {
        NodeDetail::ClassDecl { name } => named_defs(name, Kind::Class, node.span, file, src),
        NodeDetail::ModuleDecl { name } => named_defs(name, Kind::Module, node.span, file, src),
        NodeDetail::MethodDecl { name } => seq![
            DefModel { name: name@, file, excerpt: excerpt_of(src, node.span), kind: Kind::Method },
        ],
        NodeDetail::SingletonMethodDecl { name } => seq![
            DefModel {
                name: name@,
                file,
                excerpt: excerpt_of(src, node.span),
                kind: Kind::SingletonMethod,
            },
        ],
        NodeDetail::ConstAssign { name } => seq![
            DefModel { name: name@, file, excerpt: excerpt_of(src, node.span), kind: Kind::Constant },
        ],
        NodeDetail::AliasDecl { new_name } => named_defs(new_name, Kind::Alias, node.span, file, src),
        NodeDetail::Call { method_name, args } => if is_accessor_call(method_name@) {
            sym_defs(args@, node.span, file, src)
        } else {
            Seq::empty()
        },
        NodeDetail::Other => Seq::empty(),
    }
}

/// The warnings one node contributes on its own, children aside.
pub open spec fn own_warns(node: Node, src: Seq<u8>) -> Seq<Warning> {
    match node.detail {
        NodeDetail::ClassDecl { name } => named_warns(name, node.span, src),
        NodeDetail::ModuleDecl { name } => named_warns(name, node.span, src),
        NodeDetail::MethodDecl { name } => plain_warns(node.span, src),
        NodeDetail::SingletonMethodDecl { name } => plain_warns(node.span, src),
        NodeDetail::ConstAssign { name } => plain_warns(node.span, src),
        NodeDetail::AliasDecl { new_name } => named_warns(new_name, node.span, src),
        NodeDetail::Call { method_name, args } => if is_accessor_call(method_name@) {
            sym_warns(args@, node.span, src)
        } else {
            Seq::empty()
        },
        NodeDetail::Other => Seq::empty(),
    }
}

/// Whether this method name begins with the accessor-declaration prefix.
pub fn starts_with_accessor_prefix(name: &Vec<u8>) -> (r: bool)
    ensures
        r == is_accessor_call(name@),
{
    if name.len() < 5 {
        return false;
    }
    let r = name[0] == 97 && name[1] == 116 && name[2] == 116 && name[3] == 114 && name[4] == 95;
    proof {
        if r {
            assert(name@.take(5) =~= accessor_prefix());
        } else {
            assert(name@.take(5) != accessor_prefix()) by {
                if name@.take(5) == accessor_prefix() {
                    assert(name@[0] == 97 && name@[1] == 116 && name@[2] == 116 && name@[3] == 114
                        && name@[4] == 95);
                }
            }
        }
    }
    r
}

/// Appends the definition a named construct contributes, or the warning its
/// unsupported name shape earns it.
fn classify_named(
    form: &NameForm,
    kind: Kind,
    span: Span,
    file: &Vec<u8>,
    src: &Vec<u8>,
    defs: &mut Vec<Definition>,
    warns: &mut Vec<Warning>,
)
    ensures
        views_of(final(defs)@) =~= views_of(old(defs)@) + named_defs(*form, kind, span, file@, src@),
        final(warns)@ =~= old(warns)@ + named_warns(*form, span, src@),
{
    let name: Vec<u8> = match form {
        NameForm::ConstRef(s) => s.clone(),
        NameForm::SymbolLit(s) => s.clone(),
        NameForm::Unsupported => {
            warns.push(Warning::UnsupportedConstruct { span });
            return ;
        },
    };
    push_def(name, kind, span, file, src, defs, warns);
}

/// Appends one definition with the given resolved name, recording a
/// span-resolution warning and an empty excerpt where the span is invalid.
fn push_def(
    name: Vec<u8>,
    kind: Kind,
    span: Span,
    file: &Vec<u8>,
    src: &Vec<u8>,
    defs: &mut Vec<Definition>,
    warns: &mut Vec<Warning>,
)
    ensures
        views_of(final(defs)@) =~= views_of(old(defs)@) + seq![
            DefModel { name: name@, file: file@, excerpt: excerpt_of(src@, span), kind },
        ],
        final(warns)@ =~= old(warns)@ + plain_warns(span, src@),
{
    let excerpt: Vec<u8> = match resolve_excerpt(src, span) {
        Some(e) => e,
        None => {
            warns.push(Warning::SpanResolutionFailure { span });
            Vec::new()
        },
    };
    defs.push(Definition { name, file: file.clone(), excerpt, kind });
    proof {
        assert(views_of(defs@) =~= views_of(old(defs)@).push(defs@.last()@));
    }
}

/// Classifies one node: appends the definitions and warnings its own
/// construct contributes, leaving its children to the traversal engine.
pub fn classify_node(
    node: &Node,
    file: &Vec<u8>,
    src: &Vec<u8>,
    defs: &mut Vec<Definition>,
    warns: &mut Vec<Warning>,
)
    ensures
        views_of(final(defs)@) =~= views_of(old(defs)@) + own_defs(*node, file@, src@),
        final(warns)@ =~= old(warns)@ + own_warns(*node, src@),
{
    match &node.detail {
        NodeDetail::ClassDecl { name } => {
            classify_named(name, Kind::Class, node.span, file, src, defs, warns);
        },
        NodeDetail::ModuleDecl { name } => {
            classify_named(name, Kind::Module, node.span, file, src, defs, warns);
        },
        NodeDetail::MethodDecl { name } => {
            push_def(name.clone(), Kind::Method, node.span, file, src, defs, warns);
        },
        NodeDetail::SingletonMethodDecl { name } => {
            push_def(name.clone(), Kind::SingletonMethod, node.span, file, src, defs, warns);
        },
        NodeDetail::ConstAssign { name } => {
            push_def(name.clone(), Kind::Constant, node.span, file, src, defs, warns);
        },
        NodeDetail::AliasDecl { new_name } => {
            classify_named(new_name, Kind::Alias, node.span, file, src, defs, warns);
        },
        NodeDetail::Call { method_name, args } => {
            if starts_with_accessor_prefix(method_name) {
                let mut i: usize = 0;
                while i < args.len()
                    invariant
                        0 <= i <= args.len(),
                        node.detail matches NodeDetail::Call { method_name: m, args: a }
                            && a == *args && is_accessor_call(m@),
                        views_of(defs@) =~= views_of(old(defs)@) + sym_defs(
                            args@.take(i as int),
                            node.span,
                            file@,
                            src@,
                        ),
                        warns@ =~= old(warns)@ + sym_warns(args@.take(i as int), node.span, src@),
                    decreases args.len() - i,
                {
                    let ghost prefix = args@.take(i as int);
                    match &args[i] {
                        ArgForm::Symbol(s) => {
                            push_def(s.clone(), Kind::Method, node.span, file, src, defs, warns);
                        },
                        ArgForm::NonSymbol => {},
                    }
                    proof {
                        assert(args@.take(i + 1).drop_last() =~= prefix);
                        assert(args@.take(i + 1).last() == args@[i as int]);
                    }
                    i = i + 1;
                }
                proof {
                    assert(args@.take(args@.len() as int) =~= args@);
                }
            }
        },
        NodeDetail::Other => {},
    }
}

} // verus!
