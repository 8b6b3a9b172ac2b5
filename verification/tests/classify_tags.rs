use rubytags::ast::{ArgForm, NameForm, Node, NodeDetail, Span};
use rubytags::defs::Warning;
use rubytags::traverse::collect_tags;
use rubytags::Kind;

fn span(begin: usize, end: usize) -> Span {
    Span { begin, end }
}

fn leaf(detail: NodeDetail, s: Span) -> Node {
    Node { detail, span: s, children: vec![] }
}

fn file() -> Vec<u8> {
    b"test.rb".to_vec()
}

#[test]
fn class_decl_yields_one_class_definition() {
    let src = b"class Foo; end".to_vec();
    let root = leaf(
        NodeDetail::ClassDecl { name: NameForm::ConstRef(b"Foo".to_vec()) },
        span(0, 14),
    );
    let (defs, warns) = collect_tags(&root, &file(), &src);
    assert_eq!(defs.len(), 1);
    assert_eq!(defs[0].name, b"Foo".to_vec());
    assert_eq!(defs[0].kind, Kind::Class);
    assert_eq!(defs[0].file, b"test.rb".to_vec());
    assert_eq!(defs[0].excerpt, b"class Foo; end".to_vec());
    assert_eq!(warns.len(), 0);
}

#[test]
fn module_decl_yields_one_module_definition() {
    let src = b"module Bar; end".to_vec();
    let root = leaf(
        NodeDetail::ModuleDecl { name: NameForm::ConstRef(b"Bar".to_vec()) },
        span(0, 15),
    );
    let (defs, warns) = collect_tags(&root, &file(), &src);
    assert_eq!(defs.len(), 1);
    assert_eq!(defs[0].name, b"Bar".to_vec());
    assert_eq!(defs[0].kind, Kind::Module);
    assert_eq!(warns.len(), 0);
}

#[test]
fn method_decl_yields_one_method_definition() {
    let src = b"def baz; end".to_vec();
    let root = leaf(NodeDetail::MethodDecl { name: b"baz".to_vec() }, span(0, 12));
    let (defs, _) = collect_tags(&root, &file(), &src);
    assert_eq!(defs.len(), 1);
    assert_eq!(defs[0].name, b"baz".to_vec());
    assert_eq!(defs[0].kind, Kind::Method);
}

#[test]
fn singleton_method_decl_yields_singleton_kind() {
    let src = b"def self.baz; end".to_vec();
    let root = leaf(NodeDetail::SingletonMethodDecl { name: b"baz".to_vec() }, span(0, 17));
    let (defs, _) = collect_tags(&root, &file(), &src);
    assert_eq!(defs.len(), 1);
    assert_eq!(defs[0].name, b"baz".to_vec());
    assert_eq!(defs[0].kind, Kind::SingletonMethod);
}

#[test]
fn constant_assignment_yields_constant_definition() {
    let src = b"FOO = 1".to_vec();
    let root = leaf(NodeDetail::ConstAssign { name: b"FOO".to_vec() }, span(0, 7));
    let (defs, _) = collect_tags(&root, &file(), &src);
    assert_eq!(defs.len(), 1);
    assert_eq!(defs[0].name, b"FOO".to_vec());
    assert_eq!(defs[0].kind, Kind::Constant);
}

#[test]
fn alias_yields_new_name_only() {
    let src = b"alias new_name old_name".to_vec();
    let root = leaf(
        NodeDetail::AliasDecl { new_name: NameForm::SymbolLit(b"new_name".to_vec()) },
        span(0, 23),
    );
    let (defs, _) = collect_tags(&root, &file(), &src);
    assert_eq!(defs.len(), 1);
    assert_eq!(defs[0].name, b"new_name".to_vec());
    assert_eq!(defs[0].kind, Kind::Alias);
    assert!(defs.iter().all(|d| d.name != b"old_name".to_vec()));
}

#[test]
fn accessor_call_yields_one_method_per_symbol_argument() {
    let src = b"attr_accessor :a, :b".to_vec();
    let root = leaf(
        NodeDetail::Call {
            method_name: b"attr_accessor".to_vec(),
            args: vec![ArgForm::Symbol(b"a".to_vec()), ArgForm::Symbol(b"b".to_vec())],
        },
        span(0, 20),
    );
    let (defs, warns) = collect_tags(&root, &file(), &src);
    assert_eq!(defs.len(), 2);
    assert_eq!(defs[0].name, b"a".to_vec());
    assert_eq!(defs[0].kind, Kind::Method);
    assert_eq!(defs[1].name, b"b".to_vec());
    assert_eq!(defs[1].kind, Kind::Method);
    assert_eq!(warns.len(), 0);
}

#[test]
fn accessor_call_ignores_non_symbol_arguments() {
    let src = b"attr_reader :a, 1".to_vec();
    let root = leaf(
        NodeDetail::Call {
            method_name: b"attr_reader".to_vec(),
            args: vec![ArgForm::Symbol(b"a".to_vec()), ArgForm::NonSymbol],
        },
        span(0, 17),
    );
    let (defs, _) = collect_tags(&root, &file(), &src);
    assert_eq!(defs.len(), 1);
    assert_eq!(defs[0].name, b"a".to_vec());
}

#[test]
fn plain_call_yields_nothing() {
    let src = b"puts :a".to_vec();
    let root = leaf(
        NodeDetail::Call {
            method_name: b"puts".to_vec(),
            args: vec![ArgForm::Symbol(b"a".to_vec())],
        },
        span(0, 7),
    );
    let (defs, warns) = collect_tags(&root, &file(), &src);
    assert_eq!(defs.len(), 0);
    assert_eq!(warns.len(), 0);
}

#[test]
fn unsupported_name_shape_warns_and_still_visits_children() {
    let src = b"class (computed); def inner; end; end".to_vec();
    let inner = leaf(NodeDetail::MethodDecl { name: b"inner".to_vec() }, span(18, 32));
    let root = Node {
        detail: NodeDetail::ClassDecl { name: NameForm::Unsupported },
        span: span(0, 37),
        children: vec![inner],
    };
    let (defs, warns) = collect_tags(&root, &file(), &src);
    assert_eq!(defs.len(), 1);
    assert_eq!(defs[0].name, b"inner".to_vec());
    assert_eq!(warns.len(), 1);
    assert_eq!(warns[0], Warning::UnsupportedConstruct { span: span(0, 37) });
}

#[test]
fn stale_span_degrades_to_empty_excerpt_with_warning() {
    let src = b"short".to_vec();
    let root = leaf(NodeDetail::MethodDecl { name: b"gone".to_vec() }, span(2, 99));
    let (defs, warns) = collect_tags(&root, &file(), &src);
    assert_eq!(defs.len(), 1);
    assert_eq!(defs[0].name, b"gone".to_vec());
    assert_eq!(defs[0].excerpt, Vec::<u8>::new());
    assert_eq!(warns.len(), 1);
    assert_eq!(warns[0], Warning::SpanResolutionFailure { span: span(2, 99) });
}

#[test]
fn nested_definitions_are_collected_in_preorder() {
    let src = b"module M\n  class C\n    def m\n    end\n  end\nend".to_vec();
    let def_node = leaf(NodeDetail::MethodDecl { name: b"m".to_vec() }, span(23, 36));
    let class_node = Node {
        detail: NodeDetail::ClassDecl { name: NameForm::ConstRef(b"C".to_vec()) },
        span: span(11, 42),
        children: vec![def_node],
    };
    let root = Node {
        detail: NodeDetail::ModuleDecl { name: NameForm::ConstRef(b"M".to_vec()) },
        span: span(0, 46),
        children: vec![class_node],
    };
    let (defs, warns) = collect_tags(&root, &file(), &src);
    assert_eq!(defs.len(), 3);
    assert_eq!(defs[0].name, b"M".to_vec());
    assert_eq!(defs[1].name, b"C".to_vec());
    assert_eq!(defs[2].name, b"m".to_vec());
    assert_eq!(warns.len(), 0);
}

#[test]
fn other_nodes_produce_nothing_but_are_descended_into() {
    let src = b"begin\n  X = 1\nend".to_vec();
    let casgn = leaf(NodeDetail::ConstAssign { name: b"X".to_vec() }, span(8, 13));
    let root = Node { detail: NodeDetail::Other, span: span(0, 17), children: vec![casgn] };
    let (defs, warns) = collect_tags(&root, &file(), &src);
    assert_eq!(defs.len(), 1);
    assert_eq!(defs[0].name, b"X".to_vec());
    assert_eq!(defs[0].excerpt, b"X = 1".to_vec());
    assert_eq!(warns.len(), 0);
}

#[test]
fn empty_span_is_valid_and_yields_empty_excerpt_without_warning() {
    let src = b"x".to_vec();
    let root = leaf(NodeDetail::MethodDecl { name: b"m".to_vec() }, span(1, 1));
    let (defs, warns) = collect_tags(&root, &file(), &src);
    assert_eq!(defs.len(), 1);
    assert_eq!(defs[0].excerpt, Vec::<u8>::new());
    assert_eq!(warns.len(), 0);
}

#[test]
fn accessor_call_with_no_symbol_arguments_yields_nothing() {
    let src = b"attr_writer x".to_vec();
    let root = leaf(
        NodeDetail::Call { method_name: b"attr_writer".to_vec(), args: vec![ArgForm::NonSymbol] },
        span(0, 13),
    );
    let (defs, warns) = collect_tags(&root, &file(), &src);
    assert_eq!(defs.len(), 0);
    assert_eq!(warns.len(), 0);
}
