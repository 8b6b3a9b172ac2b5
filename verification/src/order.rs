//! Ordering of the tag index: lexicographic byte comparison of names and a
//! stable sort that puts the index into output order while preserving the
//! discovery order of equal names.

use vstd::prelude::*;
use crate::defs::{DefModel, Definition, views_of};

verus! {

/// Strict lexicographic order on byte strings: a proper prefix precedes its
/// extensions, and otherwise the first differing byte decides.
pub open spec fn lex_lt(a: Seq<u8>, b: Seq<u8>) -> bool
    decreases a.len(),
{
    if b.len() == 0 {
        false
    } else if a.len() == 0 {
        true
    } else if a[0] < b[0] {
        true
    } else if a[0] > b[0] {
        false
    } else {
        lex_lt(a.drop_first(), b.drop_first())
    }
}

/// The order is total: two byte strings are equal or one strictly precedes
/// the other, and never both.
pub proof fn lemma_lex_total(a: Seq<u8>, b: Seq<u8>)
    ensures
        lex_lt(a, b) || lex_lt(b, a) || a == b,
        !(lex_lt(a, b) && lex_lt(b, a)),
        lex_lt(a, b) ==> a != b,
    decreases a.len() + b.len(),
{
    if a.len() == 0 && b.len() == 0 {
        assert(a =~= b);
    } else if a.len() > 0 && b.len() > 0 && a[0] == b[0] {
        lemma_lex_total(a.drop_first(), b.drop_first());
        if a.drop_first() == b.drop_first() {
            assert(a =~= b) by {
                assert forall|i: int| 0 <= i < a.len() implies a[i] == b[i] by {
                    if i > 0 {
                        assert(a[i] == a.drop_first()[i - 1]);
                        assert(b[i] == b.drop_first()[i - 1]);
                    }
                }
            }
        }
        if a == b {
            assert(a.drop_first() =~= b.drop_first());
        }
    }
}

/// The order is transitive.
pub proof fn lemma_lex_trans(a: Seq<u8>, b: Seq<u8>, c: Seq<u8>)
    requires
        lex_lt(a, b),
        lex_lt(b, c),
    ensures
        lex_lt(a, c),
    decreases a.len() + b.len() + c.len(),
{
    if a.len() > 0 && b.len() > 0 && c.len() > 0 {
        if a[0] == b[0] && b[0] == c[0] {
            lemma_lex_trans(a.drop_first(), b.drop_first(), c.drop_first());
        }
    }
}

/// Compares two byte strings in the lexicographic order.
pub fn bytes_lt(a: &Vec<u8>, b: &Vec<u8>) -> (r: bool)
    ensures
        r == lex_lt(a@, b@),
{
    let mut i: usize = 0;
    proof {
        assert(a@.skip(0) =~= a@);
        assert(b@.skip(0) =~= b@);
    }
    loop
        invariant
            0 <= i <= a@.len(),
            i <= b@.len(),
            forall|j: int| 0 <= j < i ==> a@[j] == b@[j],
            lex_lt(a@, b@) == lex_lt(a@.skip(i as int), b@.skip(i as int)),
        decreases a@.len() - i,
    {
        if i >= a.len() || i >= b.len() {
            return i >= a.len() && i < b.len();
        }
        if a[i] < b[i] {
            return true;
        }
        if a[i] > b[i] {
            return false;
        }
        proof {
            assert(a@.skip(i as int).drop_first() =~= a@.skip(i + 1));
            assert(b@.skip(i as int).drop_first() =~= b@.skip(i + 1));
        }
        i = i + 1;
    }
}

/// Whether the definitions stand in output order: no later name strictly
/// precedes an earlier one.
pub open spec fn sorted_by_name(s: Seq<DefModel>) -> bool {
    forall|i: int, j: int| 0 <= i <= j < s.len() ==> !lex_lt(#[trigger] s[j].name, #[trigger] s[i].name)
}

/// Inserts one definition into a sequence, before the first strictly
/// greater name and after every name less than or equal to its own, so
/// that an earlier equal name keeps its place.
pub open spec fn insert_sorted(d: DefModel, s: Seq<DefModel>) -> Seq<DefModel>
    decreases s.len(),
{
    if s.len() == 0 {
        seq![d]
    } else if lex_lt(d.name, s[0].name) {
        seq![d] + s
    } else {
        seq![s[0]] + insert_sorted(d, s.drop_first())
    }
}

/// The stable sort of the index by name: each definition, in discovery
/// order, inserted after its equals.
pub open spec fn sort_spec(s: Seq<DefModel>) -> Seq<DefModel>
    decreases s.len(),
{
    if s.len() == 0 {
        s
    } else {
        insert_sorted(s.last(), sort_spec(s.drop_last()))
    }
}

/// Where the first strictly greater name stands at `k`, the insertion
/// splits the sequence there.
pub proof fn lemma_insert_at(d: DefModel, s: Seq<DefModel>, k: int)
    requires
        0 <= k <= s.len(),
        forall|j: int| 0 <= j < k ==> !lex_lt(d.name, #[trigger] s[j].name),
        k < s.len() ==> lex_lt(d.name, s[k].name),
    ensures
        insert_sorted(d, s) =~= s.take(k) + seq![d] + s.skip(k),
    decreases s.len(),
{
    if s.len() == 0 {
    } else if lex_lt(d.name, s[0].name) {
        assert(k == 0);
    } else {
        assert(k >= 1);
        assert forall|j: int| 0 <= j < k - 1 implies !lex_lt(
            d.name,
            #[trigger] s.drop_first()[j].name,
        ) by {
            assert(s.drop_first()[j] == s[j + 1]);
        }
        lemma_insert_at(d, s.drop_first(), k - 1);
        assert(s.drop_first().take(k - 1) =~= s.take(k).drop_first());
        assert(s.drop_first().skip(k - 1) =~= s.skip(k));
    }
}

/// A position at which `d` may be inserted: the first whose name is
/// strictly greater.
pub proof fn first_greater(d: DefModel, s: Seq<DefModel>) -> (k: int)
    ensures
        0 <= k <= s.len(),
        forall|j: int| 0 <= j < k ==> !lex_lt(d.name, #[trigger] s[j].name),
        k < s.len() ==> lex_lt(d.name, s[k].name),
    decreases s.len(),
{
    if s.len() == 0 {
        0
    } else if lex_lt(d.name, s[0].name) {
        0
    } else {
        let k0 = first_greater(d, s.drop_first());
        assert forall|j: int| 0 <= j < k0 + 1 implies !lex_lt(d.name, #[trigger] s[j].name) by {
            if j > 0 {
                assert(s[j] == s.drop_first()[j - 1]);
            }
        }
        assert(k0 + 1 < s.len() ==> lex_lt(d.name, s[k0 + 1].name)) by {
            if k0 + 1 < s.len() {
                assert(s[k0 + 1] == s.drop_first()[k0]);
            }
        }
        k0 + 1
    }
}

/// Inserting into a sorted sequence keeps it sorted.
pub proof fn lemma_insert_sorted_keeps_order(d: DefModel, s: Seq<DefModel>)
    requires
        sorted_by_name(s),
    ensures
        sorted_by_name(insert_sorted(d, s)),
{
    let k = first_greater(d, s);
    lemma_insert_at(d, s, k);
    let r = insert_sorted(d, s);
    assert forall|i: int, j: int| 0 <= i <= j < r.len() implies !lex_lt(
        #[trigger] r[j].name,
        #[trigger] r[i].name,
    ) by {
        lemma_lex_total(d.name, r[i].name);
        lemma_lex_total(r[j].name, d.name);
        if i < k && j == k {
            // r[j] == d, r[i] == s[i], and i < k gives !lex_lt(d, s[i])
        } else if i == k && j > k {
            // r[i] == d, r[j] == s[j - 1]
            if k < j - 1 {
                if lex_lt(s[j - 1].name, d.name) {
                    lemma_lex_trans(s[j - 1].name, d.name, s[k].name);
                }
            }
        } else if i < k && j > k {
            assert(r[i] == s[i] && r[j] == s[j - 1]);
        }
    }
}

/// The sorted index is in output order.
pub proof fn lemma_sort_sorted(s: Seq<DefModel>)
    ensures
        sorted_by_name(sort_spec(s)),
    decreases s.len(),
{
    if s.len() > 0 {
        lemma_sort_sorted(s.drop_last());
        lemma_insert_sorted_keeps_order(s.last(), sort_spec(s.drop_last()));
    }
}

/// Sorting a sequence that is already in output order leaves it unchanged.
pub proof fn lemma_sort_of_sorted(s: Seq<DefModel>)
    requires
        sorted_by_name(s),
    ensures
        sort_spec(s) == s,
    decreases s.len(),
{
    if s.len() > 0 {
        assert forall|i: int, j: int|
            0 <= i <= j < s.drop_last().len() implies !lex_lt(
            #[trigger] s.drop_last()[j].name,
            #[trigger] s.drop_last()[i].name,
        ) by {
            assert(s.drop_last()[i] == s[i] && s.drop_last()[j] == s[j]);
        }
        lemma_sort_of_sorted(s.drop_last());
        let k = s.len() - 1;
        assert forall|j: int| 0 <= j < k implies !lex_lt(
            s.last().name,
            #[trigger] s.drop_last()[j].name,
        ) by {
            assert(s.drop_last()[j] == s[j]);
        }
        lemma_insert_at(s.last(), s.drop_last(), k);
        assert(sort_spec(s) =~= s);
    }
}

/// Sorting is idempotent: sorting the sorted index changes nothing, so
/// rendering the index twice yields identical output.
pub proof fn lemma_sort_idempotent(s: Seq<DefModel>)
    ensures
        sort_spec(sort_spec(s)) == sort_spec(s),
{
    lemma_sort_sorted(s);
    lemma_sort_of_sorted(sort_spec(s));
}

/// In the sorted index, of two definitions with distinct names the one with
/// the lexicographically smaller name stands first.
pub proof fn lemma_output_order(s: Seq<DefModel>, i: int, j: int)
    requires
        0 <= i < j < sort_spec(s).len(),
        sort_spec(s)[i].name != sort_spec(s)[j].name,
    ensures
        lex_lt(sort_spec(s)[i].name, sort_spec(s)[j].name),
{
    lemma_sort_sorted(s);
    lemma_lex_total(sort_spec(s)[i].name, sort_spec(s)[j].name);
}

/// The definitions carrying one given name, in order.
pub open spec fn filter_name(s: Seq<DefModel>, n: Seq<u8>) -> Seq<DefModel>
    decreases s.len(),
{
    if s.len() == 0 {
        s
    } else if s.last().name == n {
        filter_name(s.drop_last(), n).push(s.last())
    } else {
        filter_name(s.drop_last(), n)
    }
}

/// Filtering distributes over concatenation.
pub proof fn lemma_filter_name_add(a: Seq<DefModel>, b: Seq<DefModel>, n: Seq<u8>)
    ensures
        filter_name(a + b, n) == filter_name(a, n) + filter_name(b, n),
    decreases b.len(),
{
    if b.len() == 0 {
        assert(a + b =~= a);
        assert(filter_name(a, n) + filter_name(b, n) =~= filter_name(a, n));
    } else {
        lemma_filter_name_add(a, b.drop_last(), n);
        assert((a + b).drop_last() =~= a + b.drop_last());
        assert((a + b).last() == b.last());
        if b.last().name == n {
            assert(filter_name(a, n) + filter_name(b, n) =~= (filter_name(a, n) + filter_name(
                b.drop_last(),
                n,
            )).push(b.last()));
        }
    }
}

/// A sequence in which no name equals `n` filters to nothing.
pub proof fn lemma_filter_name_none(s: Seq<DefModel>, n: Seq<u8>)
    requires
        forall|i: int| 0 <= i < s.len() ==> (#[trigger] s[i].name) != n,
    ensures
        filter_name(s, n) == Seq::<DefModel>::empty(),
    decreases s.len(),
{
    if s.len() > 0 {
        assert forall|i: int| 0 <= i < s.drop_last().len() implies (#[trigger] s.drop_last()[i].name)
            != n by {
            assert(s.drop_last()[i] == s[i]);
        }
        lemma_filter_name_none(s.drop_last(), n);
        assert(filter_name(s, n) =~= Seq::<DefModel>::empty());
    }
}

/// Inserting into a sorted sequence appends the new definition after its
/// equals and leaves every other name's subsequence unchanged.
pub proof fn lemma_insert_filter(d: DefModel, s: Seq<DefModel>, n: Seq<u8>)
    requires
        sorted_by_name(s),
    ensures
        d.name == n ==> filter_name(insert_sorted(d, s), n) == filter_name(s, n).push(d),
        d.name != n ==> filter_name(insert_sorted(d, s), n) == filter_name(s, n),
{
    let k = first_greater(d, s);
    lemma_insert_at(d, s, k);
    lemma_filter_name_add(s.take(k), seq![d], n);
    lemma_filter_name_add(s.take(k) + seq![d], s.skip(k), n);
    lemma_filter_name_add(s.take(k), s.skip(k), n);
    assert(s.take(k) + s.skip(k) =~= s);
    assert(insert_sorted(d, s) =~= (s.take(k) + seq![d]) + s.skip(k));
    assert(seq![d].drop_last() =~= Seq::<DefModel>::empty());
    assert(seq![d].last() == d);
    assert(filter_name(Seq::<DefModel>::empty(), n) =~= Seq::<DefModel>::empty());
    if d.name == n {
        assert(filter_name(seq![d], n) =~= seq![d]);
        assert forall|i: int| 0 <= i < s.skip(k).len() implies (#[trigger] s.skip(k)[i].name)
            != n by {
            assert(s.skip(k)[i] == s[k + i]);
            assert(k < s.len());
            if s[k + i].name == n {
                assert(lex_lt(s[k + i].name, s[k].name));
                assert(!lex_lt(s[k + i].name, s[k].name));
            }
        }
        lemma_filter_name_none(s.skip(k), n);
        assert(filter_name(insert_sorted(d, s), n) =~= filter_name(s.take(k), n) + seq![d]);
        assert(filter_name(s, n) =~= filter_name(s.take(k), n));
        assert(filter_name(s.take(k), n) + seq![d] =~= filter_name(s.take(k), n).push(d));
    } else {
        assert(filter_name(seq![d], n) =~= Seq::<DefModel>::empty());
        assert(filter_name(insert_sorted(d, s), n) =~= filter_name(s, n));
    }
}

/// Stability: sorting preserves, for every name, the discovery order of the
/// definitions that carry it.
pub proof fn lemma_sort_stable(s: Seq<DefModel>, n: Seq<u8>)
    ensures
        filter_name(sort_spec(s), n) == filter_name(s, n),
    decreases s.len(),
{
    if s.len() > 0 {
        lemma_sort_stable(s.drop_last(), n);
        lemma_sort_sorted(s.drop_last());
        lemma_insert_filter(s.last(), sort_spec(s.drop_last()), n);
    }
}

/// The position before which `d` must be inserted to stand after every
/// name less than or equal to its own and before every strictly greater
/// name.
fn find_insert_pos(d: &Definition, out: &Vec<Definition>) -> (k: usize)
    ensures
        0 <= k <= out@.len(),
        forall|j: int| 0 <= j < k ==> !lex_lt(d@.name, #[trigger] views_of(out@)[j].name),
        k < out@.len() ==> lex_lt(d@.name, views_of(out@)[k as int].name),
{
    let mut k: usize = 0;
    while k < out.len()
        invariant
            0 <= k <= out@.len(),
            forall|j: int| 0 <= j < k ==> !lex_lt(d@.name, #[trigger] views_of(out@)[j].name),
        decreases out@.len() - k,
    {
        if bytes_lt(&d.name, &out[k].name) {
            return k;
        }
        k = k + 1;
    }
    k
}

/// Stably sorts the index by name: the result is `sort_spec` of the input,
/// so it is in output order and keeps the discovery order of equal names.
pub fn sort_by_name(defs: Vec<Definition>) -> (r: Vec<Definition>)
    ensures
        views_of(r@) =~= sort_spec(views_of(defs@)),
{
    let ghost orig = defs@;
    let mut rest = defs;
    let mut out: Vec<Definition> = Vec::new();
    while rest.len() > 0
        invariant
            rest@.len() <= orig.len(),
            rest@ =~= orig.skip(orig.len() - rest@.len()),
            views_of(out@) =~= sort_spec(views_of(orig.take(orig.len() - rest@.len()))),
        decreases rest@.len(),
    {
        let ghost i = orig.len() - rest@.len();
        let d = rest.remove(0);
        proof {
            assert(rest@ =~= orig.skip(i + 1));
            assert(d == orig[i]);
        }
        let k = find_insert_pos(&d, &out);
        let ghost sorted_prefix = views_of(out@);
        out.insert(k, d);
        proof {
            lemma_insert_at(d@, sorted_prefix, k as int);
            assert(views_of(out@) =~= sorted_prefix.take(k as int) + seq![d@]
                + sorted_prefix.skip(k as int));
            assert(views_of(orig.take(i + 1)).drop_last() =~= views_of(orig.take(i)));
            assert(views_of(orig.take(i + 1)).last() == d@);
            assert(views_of(out@) =~= sort_spec(views_of(orig.take(i + 1))));
        }
    }
    proof {
        assert(orig.take(orig.len() as int) =~= orig);
    }
    out
}

} // verus!
