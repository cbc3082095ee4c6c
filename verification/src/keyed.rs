//! Sequences of records that are found by a name.

use vstd::prelude::*;

verus! {

/// A record that is found by its name.
pub trait Keyed {
    spec fn key(self) -> Seq<char>;
}

/// No two records of `s` have the same name.
pub open spec fn distinct_keys<T: Keyed>(s: Seq<T>) -> bool {
    forall|i: int, j: int| 0 <= i < j < s.len() ==> s[i].key() != s[j].key()
}

/// The position of the first record of `s` named `k`.
pub open spec fn position<T: Keyed>(s: Seq<T>, k: Seq<char>) -> Option<int>
    decreases s.len(),
{
    if s.len() == 0 {
        None
    } else if s[0].key() == k {
        Some(0)
    } else {
        match position(s.drop_first(), k) {
            Some(i) => Some(i + 1),
            None => None,
        }
    }
}

/// The first record of `s` named `k`.
pub open spec fn lookup<T: Keyed>(s: Seq<T>, k: Seq<char>) -> Option<T> {
    match position(s, k) {
        Some(i) => Some(s[i]),
        None => None,
    }
}

/// `s` after `x` has been stored: `x` takes the place of the record with its
/// name, or comes last if there is none.
pub open spec fn upsert<T: Keyed>(s: Seq<T>, x: T) -> Seq<T> {
    match position(s, x.key()) {
        Some(i) => s.update(i, x),
        None => s.push(x),
    }
}

/// The records of `xs` stored one after another into `s`.
pub open spec fn upsert_all<T: Keyed>(s: Seq<T>, xs: Seq<T>) -> Seq<T>
    decreases xs.len(),
{
    if xs.len() == 0 {
        s
    } else {
        upsert(upsert_all(s, xs.drop_last()), xs.last())
    }
}

/// The records of `s` that satisfy `keep`, in their order.
pub open spec fn select<T>(s: Seq<T>, keep: spec_fn(T) -> bool) -> Seq<T>
    decreases s.len(),
{
    if s.len() == 0 {
        s
    } else if keep(s.last()) {
        select(s.drop_last(), keep).push(s.last())
    } else {
        select(s.drop_last(), keep)
    }
}

/// `position` gives the first index with the name, and none where no record has it.
pub proof fn lemma_position<T: Keyed>(s: Seq<T>, k: Seq<char>)
    ensures
        match position(s, k) {
            Some(i) => 0 <= i < s.len() && s[i].key() == k && forall|j: int|
                0 <= j < i ==> s[j].key() != k,
            None => forall|j: int| 0 <= j < s.len() ==> s[j].key() != k,
        },
    decreases s.len(),
{
    if s.len() == 0 {
    } else if s[0].key() == k {
    } else {
        let t = s.drop_first();
        lemma_position(t, k);
        match position(t, k) {
            Some(i) => {
                assert(s[i + 1] == t[i]);
                assert forall|j: int| 0 <= j < i + 1 implies s[j].key() != k by {
                    if j > 0 {
                        assert(s[j] == t[j - 1]);
                    }
                }
            },
            None => {
                assert forall|j: int| 0 <= j < s.len() implies s[j].key() != k by {
                    if j > 0 {
                        assert(s[j] == t[j - 1]);
                    }
                }
            },
        }
    }
}

/// An index that holds the first record with its name is what `position` gives.
pub proof fn lemma_position_is<T: Keyed>(s: Seq<T>, k: Seq<char>, i: int)
    requires
        0 <= i < s.len(),
        s[i].key() == k,
        forall|j: int| 0 <= j < i ==> s[j].key() != k,
    ensures
        position(s, k) == Some(i),
{
    lemma_position(s, k);
}

/// Where no record has the name, `position` gives none.
pub proof fn lemma_position_none<T: Keyed>(s: Seq<T>, k: Seq<char>)
    requires
        forall|j: int| 0 <= j < s.len() ==> s[j].key() != k,
    ensures
        position(s, k) == None::<int>,
{
    lemma_position(s, k);
}

/// Storing a record keeps the names distinct, and afterwards a name finds the
/// stored record or what it found before.
pub proof fn lemma_upsert<T: Keyed>(s: Seq<T>, x: T)
    requires
        distinct_keys(s),
    ensures
        distinct_keys(upsert(s, x)),
        forall|k: Seq<char>| #[trigger]
            lookup(upsert(s, x), k) == if k == x.key() {
                Some(x)
            } else {
                lookup(s, k)
            },
{
    let t = upsert(s, x);
    lemma_position(s, x.key());
    assert forall|k: Seq<char>| #[trigger]
        lookup(t, k) == if k == x.key() {
            Some(x)
        } else {
            lookup(s, k)
        } by {
        lemma_position(s, k);
        lemma_position(t, k);
        match position(s, k) {
            Some(i) => {
                assert(t[i].key() == k);
                assert(position(t, k) == Some(i)) by {
                    assert forall|j: int| 0 <= j < i implies t[j].key() != k by {
                        assert(s[j].key() != k);
                    }
                    lemma_position_is(t, k, i);
                }
            },
            None => {
                if k == x.key() {
                    assert(t[s.len() as int] == x);
                    lemma_position_is(t, k, s.len() as int);
                } else {
                    lemma_position_none(t, k);
                }
            },
        }
    }
}

/// Storing records one after another into distinct names keeps them distinct.
pub proof fn lemma_upsert_all_distinct<T: Keyed>(s: Seq<T>, xs: Seq<T>)
    requires
        distinct_keys(s),
    ensures
        distinct_keys(upsert_all(s, xs)),
    decreases xs.len(),
{
    if xs.len() > 0 {
        lemma_upsert_all_distinct(s, xs.drop_last());
        lemma_upsert(upsert_all(s, xs.drop_last()), xs.last());
    }
}

/// The first records of a sequence with distinct names have distinct names.
pub proof fn lemma_distinct_prefix<T: Keyed>(s: Seq<T>, n: int)
    requires
        distinct_keys(s),
        0 <= n <= s.len(),
    ensures
        distinct_keys(s.take(n)),
{
    assert forall|i: int, j: int| 0 <= i < j < n implies s.take(n)[i].key() != s.take(n)[j].key() by {
        assert(s.take(n)[i] == s[i]);
        assert(s.take(n)[j] == s[j]);
    }
}

/// Records whose names are new, and differ from one another, are stored at
/// the end in their order.
pub proof fn lemma_upsert_all_fresh<T: Keyed>(s: Seq<T>, xs: Seq<T>)
    requires
        distinct_keys(s + xs),
    ensures
        upsert_all(s, xs) == s + xs,
    decreases xs.len(),
{
    if xs.len() == 0 {
        assert(s + xs =~= s);
    } else {
        let ys = xs.drop_last();
        assert forall|i: int, j: int| 0 <= i < j < (s + ys).len() implies (s + ys)[i].key() != (s
            + ys)[j].key() by {
            assert((s + ys)[i] == (s + xs)[i]);
            assert((s + ys)[j] == (s + xs)[j]);
        }
        lemma_upsert_all_fresh(s, ys);
        let t = s + ys;
        assert forall|j: int| 0 <= j < t.len() implies t[j].key() != xs.last().key() by {
            assert(t[j] == (s + xs)[j]);
            assert((s + xs)[(s + xs).len() - 1] == xs.last());
        }
        lemma_position_none(t, xs.last().key());
        assert(t.push(xs.last()) =~= s + xs);
    }
}

/// Where no two records have the same name, each record is found under its name.
pub proof fn lemma_lookup_at<T: Keyed>(s: Seq<T>, i: int)
    requires
        distinct_keys(s),
        0 <= i < s.len(),
    ensures
        position(s, s[i].key()) == Some(i),
        lookup(s, s[i].key()) == Some(s[i]),
{
    lemma_position(s, s[i].key());
}

/// The first index of `s` whose element satisfies `pred`.
pub open spec fn first_where<T>(s: Seq<T>, pred: spec_fn(T) -> bool) -> Option<int>
    decreases s.len(),
{
    if s.len() == 0 {
        None
    } else if pred(s[0]) {
        Some(0)
    } else {
        match first_where(s.drop_first(), pred) {
            Some(i) => Some(i + 1),
            None => None,
        }
    }
}

/// `first_where` gives an index whose element satisfies the predicate while
/// none before it does, and none where no element does.
pub proof fn lemma_first_where<T>(s: Seq<T>, pred: spec_fn(T) -> bool)
    ensures
        match first_where(s, pred) {
            Some(i) => 0 <= i < s.len() && pred(s[i]) && forall|j: int|
                0 <= j < i ==> !pred(#[trigger] s[j]),
            None => forall|j: int| 0 <= j < s.len() ==> !pred(#[trigger] s[j]),
        },
    decreases s.len(),
{
    if s.len() == 0 {
    } else if pred(s[0]) {
    } else {
        let t = s.drop_first();
        lemma_first_where(t, pred);
        match first_where(t, pred) {
            Some(i) => {
                assert(s[i + 1] == t[i]);
                assert forall|j: int| 0 <= j < i + 1 implies !pred(#[trigger] s[j]) by {
                    if j > 0 {
                        assert(s[j] == t[j - 1]);
                    }
                }
            },
            None => {
                assert forall|j: int| 0 <= j < s.len() implies !pred(#[trigger] s[j]) by {
                    if j > 0 {
                        assert(s[j] == t[j - 1]);
                    }
                }
            },
        }
    }
}

/// An index whose element is the first to satisfy the predicate is what
/// `first_where` gives.
pub proof fn lemma_first_where_is<T>(s: Seq<T>, pred: spec_fn(T) -> bool, i: int)
    requires
        0 <= i < s.len(),
        pred(s[i]),
        forall|j: int| 0 <= j < i ==> !pred(#[trigger] s[j]),
    ensures
        first_where(s, pred) == Some(i),
{
    lemma_first_where(s, pred);
}

/// Where no element satisfies the predicate, `first_where` gives none.
pub proof fn lemma_first_where_none<T>(s: Seq<T>, pred: spec_fn(T) -> bool)
    requires
        forall|j: int| 0 <= j < s.len() ==> !pred(#[trigger] s[j]),
    ensures
        first_where(s, pred) == None::<int>,
{
    lemma_first_where(s, pred);
}

} // verus!
