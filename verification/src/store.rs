//! Vectors of named records, kept so that no two records share a name.

use crate::domain::{Character, Planet, Product};
use crate::keyed::{
    Keyed, lemma_position_is, lemma_position_none, lookup, position, upsert, upsert_all,
};
use crate::text::str_eq;
use vstd::prelude::*;

verus! {

/// A record that gives out its name.
pub(crate) trait Named: DeepView + Sized where <Self as DeepView>::V: Keyed {
    fn name_str(&self) -> (r: &str)
        ensures
            r@ == self.deep_view().key(),
    ;

    fn duplicate(&self) -> (r: Self)
        ensures
            r.deep_view() == self.deep_view(),
    ;
}

impl Named for Product {
    fn name_str(&self) -> (r: &str) {
        self.name.as_str()
    }

    fn duplicate(&self) -> (r: Self) {
        self.clone()
    }
}

impl Named for Planet {
    fn name_str(&self) -> (r: &str) {
        self.id.as_str()
    }

    fn duplicate(&self) -> (r: Self) {
        self.clone()
    }
}

impl Named for Character {
    fn name_str(&self) -> (r: &str) {
        self.name.as_str()
    }

    fn duplicate(&self) -> (r: Self) {
        self.clone()
    }
}

/// The index of the first record of `v` named `k`.
pub(crate) fn position_of<T: Named>(v: &Vec<T>, k: &str) -> (r: Option<usize>) where <T as DeepView>::V: Keyed
    ensures
        match r {
            Some(i) => position(v.deep_view(), k@) == Some(i as int) && i < v.len(),
            None => position(v.deep_view(), k@) == None::<int>,
        },
{
    let mut i: usize = 0;
    while i < v.len()
        invariant
            i <= v.len(),
            forall|j: int| 0 <= j < i ==> (#[trigger] v.deep_view()[j]).key() != k@,
        decreases v.len() - i,
    {
        if str_eq(v[i].name_str(), k) {
            proof {
                lemma_position_is(v.deep_view(), k@, i as int);
            }
            return Some(i);
        }
        i += 1;
    }
    proof {
        lemma_position_none(v.deep_view(), k@);
    }
    None
}

/// A copy of the first record of `v` named `k`.
pub(crate) fn find_named<T: Named>(v: &Vec<T>, k: &str) -> (r: Option<T>) where <T as DeepView>::V: Keyed
    ensures
        r.deep_view() == lookup(v.deep_view(), k@),
{
    match position_of(v, k) {
        Some(i) => Some(v[i].duplicate()),
        None => None,
    }
}

/// Stores `x` in `v`, in place of the record with its name if there is one.
pub(crate) fn store<T: Named>(v: &mut Vec<T>, x: T) where <T as DeepView>::V: Keyed
    ensures
        final(v).deep_view() == upsert(old(v).deep_view(), x.deep_view()),
{
    match position_of(v, x.name_str()) {
        Some(i) => {
            v.set(i, x);
            assert(v.deep_view() =~= old(v).deep_view().update(i as int, x.deep_view()));
        },
        None => {
            v.push(x);
            assert(v.deep_view() =~= old(v).deep_view().push(x.deep_view()));
        },
    }
}

/// Stores copies of the records of `items` in `v`, one after another.
pub(crate) fn store_all<T: Named>(v: &mut Vec<T>, items: &Vec<T>) where <T as DeepView>::V: Keyed
    ensures
        final(v).deep_view() == upsert_all(old(v).deep_view(), items.deep_view()),
{
    let mut i: usize = 0;
    assert(items.deep_view().take(0) =~= Seq::empty());
    while i < items.len()
        invariant
            i <= items.len(),
            v.deep_view() == upsert_all(old(v).deep_view(), items.deep_view().take(i as int)),
        decreases items.len() - i,
    {
        let x = items[i].duplicate();
        proof {
            let xs = items.deep_view().take(i + 1);
            assert(xs.drop_last() =~= items.deep_view().take(i as int));
            assert(xs.last() == x.deep_view());
        }
        store(v, x);
        i += 1;
    }
    assert(items.deep_view().take(items.len() as int) =~= items.deep_view());
}

/// Copies of the records of `v`, in their order.
pub(crate) fn copy_all<T: Named>(v: &Vec<T>) -> (r: Vec<T>) where <T as DeepView>::V: Keyed
    ensures
        r.deep_view() == v.deep_view(),
{
    let mut out: Vec<T> = Vec::new();
    let mut i: usize = 0;
    while i < v.len()
        invariant
            i <= v.len(),
            out.len() == i,
            forall|j: int| 0 <= j < i ==> out@[j].deep_view() == v@[j].deep_view(),
        decreases v.len() - i,
    {
        out.push(v[i].duplicate());
        i += 1;
    }
    assert(out.deep_view() =~= v.deep_view());
    out
}

} // verus!
