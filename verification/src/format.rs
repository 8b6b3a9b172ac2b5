//! The output formatter: stably sorts the tag index by name and renders one
//! tab-separated record per definition,
//! `<name>\t<file>\t/^<excerpt>$/;"\t<kind-char>`, with single newlines
//! between records and none after the last.

use vstd::prelude::*;
use crate::defs::{DefModel, Definition, views_of};
use crate::order::{sort_by_name, sort_spec, lemma_sort_idempotent};

verus! {

/// The rendered record of one definition.
pub open spec fn line_of(d: DefModel) -> Seq<u8> {
    d.name + seq![9u8] + d.file + seq![9u8, 47u8, 94u8] + d.excerpt + seq![
        36u8,
        47u8,
        59u8,
        34u8,
        9u8,
        d.kind.char_spec(),
    ]
}

/// The rendered records, joined by single newlines.
pub open spec fn render_spec(s: Seq<DefModel>) -> Seq<u8>
    decreases s.len(),
{
    if s.len() == 0 {
        Seq::empty()
    } else if s.len() == 1 {
        line_of(s[0])
    } else {
        render_spec(s.drop_last()) + seq![10u8] + line_of(s.last())
    }
}

/// Appends all bytes of `b` to `out`.
fn append_bytes(out: &mut Vec<u8>, b: &Vec<u8>)
    ensures
        final(out)@ =~= old(out)@ + b@,
{
    let mut i: usize = 0;
    while i < b.len()
        invariant
            0 <= i <= b@.len(),
            out@ =~= old(out)@ + b@.take(i as int),
        decreases b@.len() - i,
    {
        out.push(b[i]);
        proof {
            assert(old(out)@ + b@.take(i + 1) =~= (old(out)@ + b@.take(i as int)).push(b@[i as int]));
        }
        i = i + 1;
    }
    proof {
        assert(b@.take(b@.len() as int) =~= b@);
    }
}

/// Renders one definition's record and appends it to `out`.
fn append_line(d: &Definition, out: &mut Vec<u8>)
    ensures
        final(out)@ =~= old(out)@ + line_of(d@),
{
    append_bytes(out, &d.name);
    out.push(9);
    append_bytes(out, &d.file);
    out.push(9);
    out.push(47);
    out.push(94);
    append_bytes(out, &d.excerpt);
    out.push(36);
    out.push(47);
    out.push(59);
    out.push(34);
    out.push(9);
    out.push(d.kind.as_char());
}

/// Renders the index as it stands, one record per definition in index
/// order, with single newlines between records.
pub fn render_tags(defs: &Vec<Definition>) -> (out: Vec<u8>)
    ensures
        out@ =~= render_spec(views_of(defs@)),
{
    let ghost m = views_of(defs@);
    let mut out: Vec<u8> = Vec::new();
    let mut i: usize = 0;
    while i < defs.len()
        invariant
            0 <= i <= m.len(),
            m == views_of(defs@),
            out@ =~= render_spec(m.take(i as int)),
        decreases m.len() - i,
    {
        if i > 0 {
            out.push(10);
        }
        append_line(&defs[i], &mut out);
        proof {
            assert(m.take(i + 1).drop_last() =~= m.take(i as int));
            assert(m.take(i + 1).last() == m[i as int]);
            assert(m[i as int] == defs@[i as int]@);
            if i == 0 {
                assert(render_spec(m.take(1)) == line_of(m.take(1)[0]));
                assert(Seq::<u8>::empty() + line_of(m[0]) =~= line_of(m[0]));
            }
        }
        i = i + 1;
    }
    proof {
        assert(m.take(m.len() as int) =~= m);
    }
    out
}

/// The output formatter: stably sorts the index by name, then renders it.
pub fn format_index(defs: Vec<Definition>) -> (out: Vec<u8>)
    ensures
        out@ =~= render_spec(sort_spec(views_of(defs@))),
{
    let sorted = sort_by_name(defs);
    render_tags(&sorted)
}

/// Formatting is idempotent: the formatter's output is a function of the
/// index alone, and feeding the sorted index back through the sorting pass
/// changes nothing, so a second run renders identical output.
pub proof fn lemma_format_idempotent(s: Seq<DefModel>)
    ensures
        render_spec(sort_spec(sort_spec(s))) == render_spec(sort_spec(s)),
{
    lemma_sort_idempotent(s);
}

} // verus!
