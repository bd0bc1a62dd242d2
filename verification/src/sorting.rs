//! Name-ordered sorting of transfer results. Both the upload and the
//! download path re-sort their results by file name after all work is done,
//! so that completion order is never observable; this module gives that sort
//! an exact mathematical definition and verified implementations.

use vstd::prelude::*;
use vstd::multiset::Multiset;
use vstd::seq_lib::lemma_multiset_commutative;
use crate::files::{IndexedFile, DownloadedFile};
use crate::strutil::{lex_le, lemma_lex_le_total, lemma_lex_le_trans, str_le};

verus! {

/// The items of `l` are in ascending order of their key.
pub open spec fn sorted_by_key<A>(l: Seq<A>, key: spec_fn(A) -> Seq<char>) -> bool {
    forall|i: int, j: int|
        0 <= i < j < l.len() ==> lex_le(key(#[trigger] l[i]), key(#[trigger] l[j]))
}

/// Inserts `x` into the already sorted `l`, before the first item whose key
/// is at or after `x`'s.
pub open spec fn spec_insert_by<A>(x: A, l: Seq<A>, key: spec_fn(A) -> Seq<char>) -> Seq<A>
    decreases l.len(),
{
    if l.len() == 0 {
        seq![x]
    } else if lex_le(key(x), key(l[0])) {
        seq![x] + l
    } else {
        seq![l[0]] + spec_insert_by(x, l.drop_first(), key)
    }
}

/// Sorts `l` by key: a stable insertion sort, front to back.
pub open spec fn spec_sort_by<A>(l: Seq<A>, key: spec_fn(A) -> Seq<char>) -> Seq<A>
    decreases l.len(),
{
    if l.len() == 0 {
        l
    } else {
        spec_insert_by(l[0], spec_sort_by(l.drop_first(), key), key)
    }
}

proof fn lemma_empty_to_multiset<A>()
    ensures
        Seq::<A>::empty().to_multiset() == Multiset::<A>::empty(),
{
    broadcast use vstd::seq_lib::group_to_multiset_ensures;
    broadcast use vstd::multiset::group_multiset_axioms;

    assert(Seq::<A>::empty().to_multiset() =~= Multiset::<A>::empty());
}

proof fn lemma_singleton_to_multiset<A>(x: A)
    ensures
        seq![x].to_multiset() == Multiset::<A>::empty().insert(x),
{
    broadcast use vstd::seq_lib::group_to_multiset_ensures;
    broadcast use vstd::multiset::group_multiset_axioms;

    assert(seq![x] =~= Seq::<A>::empty().push(x));
    lemma_empty_to_multiset::<A>();
}

/// Inserting into a sorted sequence keeps it sorted, grows it by one, and
/// adds exactly the new item.
pub proof fn lemma_insert_by_props<A>(x: A, l: Seq<A>, key: spec_fn(A) -> Seq<char>)
    requires
        sorted_by_key(l, key),
    ensures
        spec_insert_by(x, l, key).len() == l.len() + 1,
        sorted_by_key(spec_insert_by(x, l, key), key),
        spec_insert_by(x, l, key).to_multiset() == l.to_multiset().insert(x),
    decreases l.len(),
{
    broadcast use vstd::seq_lib::group_to_multiset_ensures;
    broadcast use vstd::multiset::group_multiset_axioms;

    let r = spec_insert_by(x, l, key);
    if l.len() == 0 {
        lemma_singleton_to_multiset(x);
        lemma_empty_to_multiset::<A>();
        assert(l.to_multiset().insert(x) =~= Multiset::<A>::empty().insert(x));
    } else if lex_le(key(x), key(l[0])) {
        assert(r == seq![x] + l);
        assert forall|i: int, j: int| 0 <= i < j < r.len() implies lex_le(
            key(#[trigger] r[i]),
            key(#[trigger] r[j]),
        ) by {
            if i == 0 {
                assert(r[i] == x);
                assert(r[j] == l[j - 1]);
                if j - 1 > 0 {
                    assert(lex_le(key(l[0]), key(l[j - 1])));
                    lemma_lex_le_trans(key(x), key(l[0]), key(l[j - 1]));
                }
            } else {
                assert(r[i] == l[i - 1]);
                assert(r[j] == l[j - 1]);
            }
        }
        lemma_multiset_commutative(seq![x], l);
        lemma_singleton_to_multiset(x);
        assert(r.to_multiset() =~= l.to_multiset().insert(x));
    } else {
        lemma_lex_le_total(key(x), key(l[0]));
        assert(lex_le(key(l[0]), key(x)));
        let rest = l.drop_first();
        assert(forall|i: int, j: int|
            0 <= i < j < rest.len() ==> lex_le(key(#[trigger] rest[i]), key(#[trigger] rest[j])));
        lemma_insert_by_props(x, rest, key);
        let ri = spec_insert_by(x, rest, key);
        assert(r == seq![l[0]] + ri);
        // every item of the recursive insertion is x or comes from rest
        assert forall|j: int| 1 <= j < r.len() implies lex_le(key(r[0]), key(#[trigger] r[j])) by {
            assert(r[j] == ri[j - 1]);
            assert(ri.contains(ri[j - 1]));
            assert(ri.to_multiset().count(ri[j - 1]) > 0);
            if ri[j - 1] == x {
                assert(lex_le(key(l[0]), key(x)));
            } else {
                assert(rest.to_multiset().count(ri[j - 1]) > 0);
                assert(rest.contains(ri[j - 1]));
                let k = choose|k: int| 0 <= k < rest.len() && rest[k] == ri[j - 1];
                assert(l[k + 1] == rest[k]);
                assert(lex_le(key(l[0]), key(l[k + 1])));
            }
        }
        assert forall|i: int, j: int| 0 <= i < j < r.len() implies lex_le(
            key(#[trigger] r[i]),
            key(#[trigger] r[j]),
        ) by {
            if i > 0 {
                assert(r[i] == ri[i - 1]);
                assert(r[j] == ri[j - 1]);
            }
        }
        lemma_multiset_commutative(seq![l[0]], ri);
        lemma_singleton_to_multiset(l[0]);
        assert(l =~= seq![l[0]] + rest);
        lemma_multiset_commutative(seq![l[0]], rest);
        assert(r.to_multiset() =~= l.to_multiset().insert(x));
    }
}

/// The sort is a permutation of its input and is sorted.
pub proof fn lemma_sort_by_props<A>(l: Seq<A>, key: spec_fn(A) -> Seq<char>)
    ensures
        spec_sort_by(l, key).len() == l.len(),
        sorted_by_key(spec_sort_by(l, key), key),
        spec_sort_by(l, key).to_multiset() == l.to_multiset(),
    decreases l.len(),
{
    broadcast use vstd::seq_lib::group_to_multiset_ensures;
    broadcast use vstd::multiset::group_multiset_axioms;

    if l.len() > 0 {
        let rest = l.drop_first();
        lemma_sort_by_props(rest, key);
        lemma_insert_by_props(l[0], spec_sort_by(rest, key), key);
        assert(l =~= seq![l[0]] + rest);
        lemma_multiset_commutative(seq![l[0]], rest);
        lemma_singleton_to_multiset(l[0]);
        assert(spec_sort_by(l, key).to_multiset() =~= l.to_multiset());
    }
}

/// Where a left-to-right scan stopped is where the insertion lands.
pub proof fn lemma_insert_by_at<A>(x: A, l: Seq<A>, key: spec_fn(A) -> Seq<char>, j: int)
    requires
        0 <= j <= l.len(),
        forall|k: int| 0 <= k < j ==> !lex_le(key(x), key(#[trigger] l[k])),
        j < l.len() ==> lex_le(key(x), key(l[j])),
    ensures
        spec_insert_by(x, l, key) == l.take(j) + seq![x] + l.skip(j),
    decreases j,
{
    if j == 0 {
        if l.len() == 0 {
            assert(spec_insert_by(x, l, key) =~= l.take(0) + seq![x] + l.skip(0));
        } else {
            assert(spec_insert_by(x, l, key) =~= l.take(0) + seq![x] + l.skip(0));
        }
    } else {
        let rest = l.drop_first();
        assert(forall|k: int| 0 <= k < j - 1 ==> !lex_le(key(x), key(#[trigger] rest[k])));
        lemma_insert_by_at(x, rest, key, j - 1);
        assert(seq![l[0]] + (rest.take(j - 1) + seq![x] + rest.skip(j - 1)) =~= l.take(j)
            + seq![x] + l.skip(j));
    }
}

/// The identity key, for sorting name sequences themselves.
pub open spec fn ident_key_fn() -> spec_fn(Seq<char>) -> Seq<char> {
    |s: Seq<char>| s
}

/// Inserting an item and then projecting to keys is inserting its key.
pub proof fn lemma_insert_by_projects<A>(x: A, l: Seq<A>, key: spec_fn(A) -> Seq<char>)
    ensures
        spec_insert_by(x, l, key).map_values(key) == spec_insert_by(
            key(x),
            l.map_values(key),
            ident_key_fn(),
        ),
    decreases l.len(),
{
    let lm = l.map_values(key);
    if l.len() == 0 {
        assert(seq![x].map_values(key) =~= seq![key(x)]);
        assert(spec_insert_by(key(x), lm, ident_key_fn()) =~= seq![key(x)]);
    } else if lex_le(key(x), key(l[0])) {
        assert((seq![x] + l).map_values(key) =~= seq![key(x)] + lm);
        assert(spec_insert_by(key(x), lm, ident_key_fn()) =~= seq![key(x)] + lm);
    } else {
        lemma_insert_by_projects(x, l.drop_first(), key);
        assert(l.drop_first().map_values(key) =~= lm.drop_first());
        assert((seq![l[0]] + spec_insert_by(x, l.drop_first(), key)).map_values(key) =~= seq![
            key(l[0]),
        ] + spec_insert_by(x, l.drop_first(), key).map_values(key));
        assert(spec_insert_by(key(x), lm, ident_key_fn()) =~= seq![lm[0]] + spec_insert_by(
            key(x),
            lm.drop_first(),
            ident_key_fn(),
        ));
        assert(spec_insert_by(x, l, key).map_values(key) =~= spec_insert_by(
            key(x),
            lm,
            ident_key_fn(),
        ));
    }
}

/// Sorting and then projecting to keys is sorting the keys.
pub proof fn lemma_sort_by_projects<A>(l: Seq<A>, key: spec_fn(A) -> Seq<char>)
    ensures
        spec_sort_by(l, key).map_values(key) == spec_sort_by(l.map_values(key), ident_key_fn()),
    decreases l.len(),
{
    let lm = l.map_values(key);
    if l.len() > 0 {
        lemma_sort_by_projects(l.drop_first(), key);
        lemma_insert_by_projects(l[0], spec_sort_by(l.drop_first(), key), key);
        assert(lm.drop_first() =~= l.drop_first().map_values(key));
        assert(lm[0] == key(l[0]));
    } else {
        assert(lm.len() == 0);
        assert(spec_sort_by(l, key).map_values(key) =~= lm);
    }
}

/// Inserting an item and then mapping it is inserting its image, for any
/// map that preserves the sort key.
pub proof fn lemma_insert_by_maps<A, B>(
    x: A,
    l: Seq<A>,
    key_a: spec_fn(A) -> Seq<char>,
    g: spec_fn(A) -> B,
    key_b: spec_fn(B) -> Seq<char>,
)
    requires
        forall|y: A| #[trigger] key_b(g(y)) == key_a(y),
    ensures
        spec_insert_by(x, l, key_a).map_values(g) == spec_insert_by(
            g(x),
            l.map_values(g),
            key_b,
        ),
    decreases l.len(),
{
    let lm = l.map_values(g);
    if l.len() == 0 {
        assert(seq![x].map_values(g) =~= seq![g(x)]);
        assert(spec_insert_by(g(x), lm, key_b) =~= seq![g(x)]);
    } else if lex_le(key_a(x), key_a(l[0])) {
        assert(lm[0] == g(l[0]));
        assert((seq![x] + l).map_values(g) =~= seq![g(x)] + lm);
        assert(spec_insert_by(g(x), lm, key_b) =~= seq![g(x)] + lm);
    } else {
        lemma_insert_by_maps(x, l.drop_first(), key_a, g, key_b);
        assert(lm[0] == g(l[0]));
        assert(l.drop_first().map_values(g) =~= lm.drop_first());
        assert((seq![l[0]] + spec_insert_by(x, l.drop_first(), key_a)).map_values(g) =~= seq![
            g(l[0]),
        ] + spec_insert_by(x, l.drop_first(), key_a).map_values(g));
        assert(spec_insert_by(g(x), lm, key_b) =~= seq![lm[0]] + spec_insert_by(
            g(x),
            lm.drop_first(),
            key_b,
        ));
        assert(spec_insert_by(x, l, key_a).map_values(g) =~= spec_insert_by(
            g(x),
            lm,
            key_b,
        ));
    }
}

/// Sorting and then mapping is mapping and then sorting, for any map that
/// preserves the sort key.
pub proof fn lemma_sort_by_maps<A, B>(
    l: Seq<A>,
    key_a: spec_fn(A) -> Seq<char>,
    g: spec_fn(A) -> B,
    key_b: spec_fn(B) -> Seq<char>,
)
    requires
        forall|y: A| #[trigger] key_b(g(y)) == key_a(y),
    ensures
        spec_sort_by(l, key_a).map_values(g) == spec_sort_by(l.map_values(g), key_b),
    decreases l.len(),
{
    let lm = l.map_values(g);
    if l.len() > 0 {
        lemma_sort_by_maps(l.drop_first(), key_a, g, key_b);
        lemma_insert_by_maps(l[0], spec_sort_by(l.drop_first(), key_a), key_a, g, key_b);
        assert(lm.drop_first() =~= l.drop_first().map_values(g));
        assert(lm[0] == g(l[0]));
    } else {
        assert(lm.len() == 0);
        assert(spec_sort_by(l, key_a).map_values(g) =~= lm);
    }
}

/// The sort key of a manifest entry: its file name.
pub open spec fn indexed_key(f: IndexedFile) -> Seq<char> {
    f.name@
}

/// The manifest-entry key as a function value, shared by every contract that
/// speaks of sorting manifest entries.
pub open spec fn indexed_key_fn() -> spec_fn(IndexedFile) -> Seq<char> {
    |f: IndexedFile| indexed_key(f)
}

/// The sort key of a downloaded file: the wrapped string of its name.
pub open spec fn downloaded_key(f: DownloadedFile) -> Seq<char> {
    f.name.spec_name()
}

/// The downloaded-file key as a function value.
pub open spec fn downloaded_key_fn() -> spec_fn(DownloadedFile) -> Seq<char> {
    |f: DownloadedFile| downloaded_key(f)
}

fn insert_indexed(sorted: Vec<IndexedFile>, x: IndexedFile) -> (r: Vec<IndexedFile>)
    ensures
        r@ == spec_insert_by(x, sorted@, indexed_key_fn()),
{
    let ghost l = sorted@;
    let mut j: usize = 0;
    while j < sorted.len() && !str_le(&x.name, &sorted[j].name)
        invariant
            j <= sorted@.len(),
            sorted@ == l,
            forall|k: int| 0 <= k < j ==> !lex_le(x.name@, #[trigger] l[k].name@),
        decreases sorted@.len() - j,
    {
        j = j + 1;
    }
    let mut v = sorted;
    v.insert(j, x);
    proof {
        lemma_insert_by_at(x, l, indexed_key_fn(), j as int);
        assert(v@ =~= l.take(j as int) + seq![x] + l.skip(j as int));
    }
    v
}

/// Sorts manifest entries by file name.
pub fn sort_indexed_by_name(v: Vec<IndexedFile>) -> (r: Vec<IndexedFile>)
    ensures
        r@ == spec_sort_by(v@, indexed_key_fn()),
{
    let ghost l = v@;
    let mut out: Vec<IndexedFile> = Vec::new();
    let mut i: usize = v.len();
    while i > 0
        invariant
            i <= l.len(),
            v@ == l,
            out@ == spec_sort_by(l.skip(i as int), indexed_key_fn()),
        decreases i,
    {
        i = i - 1;
        let x = v[i].clone();
        out = insert_indexed(out, x);
        proof {
            assert(l.skip(i as int).drop_first() =~= l.skip(i + 1));
            assert(l.skip(i as int)[0] == l[i as int]);
        }
    }
    proof {
        assert(l.skip(0) =~= l);
    }
    out
}

fn insert_downloaded(sorted: Vec<DownloadedFile>, x: DownloadedFile) -> (r: Vec<DownloadedFile>)
    ensures
        r@ == spec_insert_by(x, sorted@, downloaded_key_fn()),
{
    let ghost l = sorted@;
    let xname = x.name.name();
    let mut j: usize = 0;
    while j < sorted.len() && !str_le(xname.as_str(), sorted[j].name.name().as_str())
        invariant
            j <= sorted@.len(),
            sorted@ == l,
            xname@ == x.name.spec_name(),
            forall|k: int| 0 <= k < j ==> !lex_le(x.name.spec_name(), #[trigger] l[k].name.spec_name()),
        decreases sorted@.len() - j,
    {
        j = j + 1;
    }
    let mut v = sorted;
    v.insert(j, x);
    proof {
        lemma_insert_by_at(x, l, downloaded_key_fn(), j as int);
        assert(v@ =~= l.take(j as int) + seq![x] + l.skip(j as int));
    }
    v
}

/// Sorts downloaded files by name.
pub fn sort_downloaded_by_name(v: Vec<DownloadedFile>) -> (r: Vec<DownloadedFile>)
    ensures
        r@ == spec_sort_by(v@, downloaded_key_fn()),
{
    let ghost l = v@;
    let mut out: Vec<DownloadedFile> = Vec::new();
    let mut i: usize = v.len();
    while i > 0
        invariant
            i <= l.len(),
            v@ == l,
            out@ == spec_sort_by(l.skip(i as int), downloaded_key_fn()),
        decreases i,
    {
        i = i - 1;
        let x = v[i].clone();
        out = insert_downloaded(out, x);
        proof {
            assert(l.skip(i as int).drop_first() =~= l.skip(i + 1));
            assert(l.skip(i as int)[0] == l[i as int]);
        }
    }
    proof {
        assert(l.skip(0) =~= l);
    }
    out
}

} // verus!
