use rubytags::ast::{NameForm, Node, NodeDetail, Span};
use rubytags::defs::Definition;
use rubytags::format::{format_index, render_tags};
use rubytags::index_source;
use rubytags::order::sort_by_name;
use rubytags::Kind;

fn span(begin: usize, end: usize) -> Span {
    Span { begin, end }
}

fn def(name: &[u8], excerpt: &[u8], kind: Kind) -> Definition {
    Definition {
        name: name.to_vec(),
        file: b"a.rb".to_vec(),
        excerpt: excerpt.to_vec(),
        kind,
    }
}

#[test]
fn end_to_end_small_class() {
    let src = b"class A\n  def foo\n  end\nend".to_vec();
    let file = b"a.rb".to_vec();
    let method = Node {
        detail: NodeDetail::MethodDecl { name: b"foo".to_vec() },
        span: span(8, 23),
        children: vec![],
    };
    let root = Node {
        detail: NodeDetail::ClassDecl { name: NameForm::ConstRef(b"A".to_vec()) },
        span: span(0, 27),
        children: vec![method],
    };
    let (out, warns) = index_source(&root, &file, &src);
    let expected = b"A\ta.rb\t/^class A$/;\"\tc\nfoo\ta.rb\t/^  def foo$/;\"\tf".to_vec();
    assert_eq!(out, expected);
    assert_eq!(warns.len(), 0);
}

#[test]
fn multi_line_definition_is_excerpted_by_its_first_line() {
    let src = b"def long\n  work\nend".to_vec();
    let file = b"a.rb".to_vec();
    let root = Node {
        detail: NodeDetail::MethodDecl { name: b"long".to_vec() },
        span: span(0, 19),
        children: vec![],
    };
    let (defs, _) = rubytags::traverse::collect_tags(&root, &file, &src);
    assert_eq!(defs[0].excerpt, b"def long".to_vec());
    assert!(!defs[0].excerpt.contains(&b'\n'));
}

#[test]
fn formatter_sorts_by_name_lexicographically() {
    let defs = vec![
        def(b"zeta", b"def zeta", Kind::Method),
        def(b"Alpha", b"class Alpha", Kind::Class),
        def(b"beta", b"def beta", Kind::Method),
    ];
    let sorted = sort_by_name(defs);
    assert_eq!(sorted[0].name, b"Alpha".to_vec());
    assert_eq!(sorted[1].name, b"beta".to_vec());
    assert_eq!(sorted[2].name, b"zeta".to_vec());
}

#[test]
fn sort_is_stable_for_equal_names() {
    let defs = vec![
        def(b"same", b"first", Kind::Method),
        def(b"aaa", b"other", Kind::Constant),
        def(b"same", b"second", Kind::Alias),
    ];
    let sorted = sort_by_name(defs);
    assert_eq!(sorted[0].name, b"aaa".to_vec());
    assert_eq!(sorted[1].excerpt, b"first".to_vec());
    assert_eq!(sorted[2].excerpt, b"second".to_vec());
}

#[test]
fn shorter_name_precedes_its_extension() {
    let defs = vec![def(b"foobar", b"x", Kind::Method), def(b"foo", b"y", Kind::Method)];
    let sorted = sort_by_name(defs);
    assert_eq!(sorted[0].name, b"foo".to_vec());
    assert_eq!(sorted[1].name, b"foobar".to_vec());
}

#[test]
fn formatter_is_idempotent() {
    let defs = vec![
        def(b"b", b"def b", Kind::Method),
        def(b"a", b"A = 1", Kind::Constant),
        def(b"b", b"alias b c", Kind::Alias),
    ];
    let once = format_index(defs.clone());
    let twice = format_index(sort_by_name(defs));
    assert_eq!(once, twice);
}

#[test]
fn render_uses_one_line_per_definition_without_trailing_newline() {
    let defs = vec![def(b"a", b"A = 1", Kind::Constant), def(b"b", b"B = 2", Kind::Constant)];
    let out = render_tags(&defs);
    let expected = b"a\ta.rb\t/^A = 1$/;\"\tC\nb\ta.rb\t/^B = 2$/;\"\tC".to_vec();
    assert_eq!(out, expected);
}

#[test]
fn kind_characters_match_their_kinds() {
    assert_eq!(Kind::Class.as_char(), b'c');
    assert_eq!(Kind::Module.as_char(), b'm');
    assert_eq!(Kind::Method.as_char(), b'f');
    assert_eq!(Kind::SingletonMethod.as_char(), b'F');
    assert_eq!(Kind::Constant.as_char(), b'C');
    assert_eq!(Kind::Alias.as_char(), b'a');
}

#[test]
fn empty_index_renders_empty_output() {
    let out = format_index(Vec::new());
    assert_eq!(out, Vec::<u8>::new());
}

#[test]
fn every_kind_renders_its_tag_character() {
    let defs = vec![
        def(b"a", b"x", Kind::Class),
        def(b"b", b"x", Kind::Module),
        def(b"c", b"x", Kind::Method),
        def(b"d", b"x", Kind::SingletonMethod),
        def(b"e", b"x", Kind::Constant),
        def(b"f", b"x", Kind::Alias),
    ];
    let out = format_index(defs);
    let text = String::from_utf8(out).unwrap();
    let chars: Vec<&str> = text.lines().map(|l| l.rsplit('\t').next().unwrap()).collect();
    assert_eq!(chars, vec!["c", "m", "f", "F", "C", "a"]);
}

#[test]
fn names_sort_by_byte_value_beyond_ascii() {
    let defs = vec![
        def(&[0xC3, 0xA9], b"x", Kind::Method),
        def(b"z", b"y", Kind::Method),
    ];
    let sorted = sort_by_name(defs);
    assert_eq!(sorted[0].name, b"z".to_vec());
    assert_eq!(sorted[1].name, vec![0xC3, 0xA9]);
}
