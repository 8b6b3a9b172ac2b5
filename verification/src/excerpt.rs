//! The span resolver: maps a construct's span back to source text and keeps
//! only the text up to (excluding) the first newline, so that a definition
//! spanning several physical lines is excerpted by its header line alone.

use vstd::prelude::*;
use crate::ast::Span;

verus! {

/// The newline byte.
pub open spec fn nl() -> u8 {
    10
}

/// The prefix of `s` up to (excluding) its first newline byte; all of `s`
/// if it contains none.
pub open spec fn first_line(s: Seq<u8>) -> Seq<u8>
    decreases s.len(),
{
    if s.len() == 0 {
        s
    } else if s[0] == nl() {
        Seq::empty()
    } else {
        seq![s[0]] + first_line(s.drop_first())
    }
}

/// The length of `first_line(s)`: the index of the first newline in `s`,
/// or `s.len()` if there is none.
pub open spec fn line_len(s: Seq<u8>) -> int
    decreases s.len(),
{
    if s.len() == 0 {
        0
    } else if s[0] == nl() {
        0
    } else {
        1 + line_len(s.drop_first())
    }
}

/// `first_line(s)` is the prefix of `s` that ends at the first newline:
/// it contains no newline itself and, unless it is all of `s`, the byte
/// that follows it in `s` is a newline.
pub proof fn lemma_first_line(s: Seq<u8>)
    ensures
        0 <= line_len(s) <= s.len(),
        first_line(s) == s.take(line_len(s)),
        forall|j: int| 0 <= j < line_len(s) ==> s[j] != nl(),
        line_len(s) < s.len() ==> s[line_len(s)] == nl(),
    decreases s.len(),
{
    if s.len() == 0 {
    } else if s[0] == nl() {
        assert(first_line(s) =~= s.take(0));
    } else {
        lemma_first_line(s.drop_first());
        assert forall|j: int| 0 <= j < line_len(s) implies s[j] != nl() by {
            if j > 0 {
                assert(s[j] == s.drop_first()[j - 1]);
            }
        }
        assert(first_line(s) =~= s.take(line_len(s))) by {
            assert(s.drop_first().take(line_len(s.drop_first())) =~= s.take(line_len(s)).drop_first());
        }
    }
}

/// `line_len(s)` is the only index that is preceded by no newline and is
/// either the end of `s` or a newline itself.
pub proof fn lemma_line_len_unique(s: Seq<u8>, i: int)
    requires
        0 <= i <= s.len(),
        forall|j: int| 0 <= j < i ==> s[j] != nl(),
        i < s.len() ==> s[i] == nl(),
    ensures
        i == line_len(s),
{
    lemma_first_line(s);
    if i < line_len(s) {
        assert(s[i] != nl());
    } else if line_len(s) < i {
        assert(s[line_len(s)] != nl());
    }
}

/// Whether `span` denotes a range that lies inside the source buffer.
pub open spec fn span_ok(src: Seq<u8>, span: Span) -> bool {
    span.begin <= span.end <= src.len()
}

/// The excerpt recorded for a construct covering `span`: the first line of
/// the covered text, or empty where the span cannot be resolved.
pub open spec fn excerpt_of(src: Seq<u8>, span: Span) -> Seq<u8> {
    if span_ok(src, span) {
        first_line(src.subrange(span.begin as int, span.end as int))
    } else {
        Seq::empty()
    }
}

/// An excerpt never contains a newline byte.
pub proof fn lemma_excerpt_no_newline(src: Seq<u8>, span: Span)
    ensures
        forall|j: int| 0 <= j < excerpt_of(src, span).len() ==> excerpt_of(src, span)[j] != nl(),
{
    if span_ok(src, span) {
        lemma_first_line(src.subrange(span.begin as int, span.end as int));
    }
}

/// Resolves `span` against the source buffer: the first line of the covered
/// text, or `None` where the span is out of range.
pub fn resolve_excerpt(src: &Vec<u8>, span: Span) -> (r: Option<Vec<u8>>)
    ensures
        span_ok(src@, span) ==> (r matches Some(e) && e@ == excerpt_of(src@, span)),
        !span_ok(src@, span) ==> r is None,
{
    if span.begin > span.end || span.end > src.len() {
        return None;
    }
    let ghost covered = src@.subrange(span.begin as int, span.end as int);
    let mut out: Vec<u8> = Vec::new();
    let mut i: usize = span.begin;
    while i < span.end && src[i] != 10
        invariant
            span.begin <= i <= span.end <= src.len(),
            covered == src@.subrange(span.begin as int, span.end as int),
            out@ =~= covered.take(i - span.begin),
            forall|j: int| 0 <= j < i - span.begin ==> covered[j] != nl(),
        decreases span.end - i,
    {
        out.push(src[i]);
        assert(out@ =~= covered.take(i + 1 - span.begin));
        i = i + 1;
    }
    proof {
        lemma_line_len_unique(covered, i - span.begin);
        lemma_first_line(covered);
    }
    Some(out)
}

} // verus!
