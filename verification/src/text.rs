//! Operations on strings and on ordered collections of strings.

use vstd::prelude::*;
use vstd::string::StringSliceAdditionalSpecFns;

verus! {

/// Whether two string slices hold the same characters.
pub fn str_eq(a: &str, b: &str) -> (r: bool)
    ensures
        r == (a@ == b@),
{
    let x = a.as_bytes();
    let y = b.as_bytes();
    proof {
        vstd::utf8::encode_utf8_decode_utf8(a@);
        vstd::utf8::encode_utf8_decode_utf8(b@);
    }
    if x.len() != y.len() {
        return false;
    }
    let mut i: usize = 0;
    while i < x.len()
        invariant
            i <= x.len(),
            x.len() == y.len(),
            x@ == a.spec_bytes(),
            y@ == b.spec_bytes(),
            forall|j: int| 0 <= j < i ==> x@[j] == y@[j],
        decreases x.len() - i,
    {
        if x[i] != y[i] {
            return false;
        }
        i += 1;
    }
    assert(x@ =~= y@);
    true
}

/// An ordered set of names: nothing occurs twice.
pub open spec fn distinct(s: Seq<Seq<char>>) -> bool {
    forall|i: int, j: int| 0 <= i < j < s.len() ==> s[i] != s[j]
}

/// Whether `s` starts with `start` and goes on from there.
pub open spec fn starts_with(s: Seq<Seq<char>>, start: Seq<Seq<char>>) -> bool {
    &&& start.len() <= s.len()
    &&& forall|i: int| 0 <= i < start.len() ==> #[trigger] s[i] == start[i]
}

/// `s` with `x` added at the end unless it is already a member.
pub open spec fn with_member(s: Seq<Seq<char>>, x: Seq<char>) -> Seq<Seq<char>> {
    if s.contains(x) {
        s
    } else {
        s.push(x)
    }
}

/// `s` with every member of `xs` added in turn.
pub open spec fn with_members(s: Seq<Seq<char>>, xs: Seq<Seq<char>>) -> Seq<Seq<char>>
    decreases xs.len(),
{
    if xs.len() == 0 {
        s
    } else {
        with_member(with_members(s, xs.drop_last()), xs.last())
    }
}

/// `s` without the occurrences of `x`, the rest in their order.
pub open spec fn without(s: Seq<Seq<char>>, x: Seq<char>) -> Seq<Seq<char>>
    decreases s.len(),
{
    if s.len() == 0 {
        s
    } else if s.last() == x {
        without(s.drop_last(), x)
    } else {
        without(s.drop_last(), x).push(s.last())
    }
}

/// The members of `s` that `among` lacks, in their order and with repetitions.
pub open spec fn missing_from(s: Seq<Seq<char>>, among: Seq<Seq<char>>) -> Seq<Seq<char>>
    decreases s.len(),
{
    if s.len() == 0 {
        s
    } else if among.contains(s.last()) {
        missing_from(s.drop_last(), among)
    } else {
        missing_from(s.drop_last(), among).push(s.last())
    }
}

/// A copy of a vector of strings.
pub fn clone_strings(v: &Vec<String>) -> (r: Vec<String>)
    ensures
        r.deep_view() == v.deep_view(),
{
    let mut out: Vec<String> = Vec::new();
    let mut i: usize = 0;
    while i < v.len()
        invariant
            i <= v.len(),
            out.len() == i,
            forall|j: int| 0 <= j < i ==> out@[j]@ == v@[j]@,
        decreases v.len() - i,
    {
        out.push(v[i].clone());
        i += 1;
    }
    assert(out.deep_view() =~= v.deep_view());
    out
}

/// Whether `x` is a member of `v`.
pub fn contains_str(v: &Vec<String>, x: &str) -> (r: bool)
    ensures
        r == v.deep_view().contains(x@),
{
    let mut i: usize = 0;
    while i < v.len()
        invariant
            i <= v.len(),
            forall|j: int| 0 <= j < i ==> v.deep_view()[j] != x@,
        decreases v.len() - i,
    {
        if str_eq(v[i].as_str(), x) {
            assert(v.deep_view()[i as int] == x@);
            return true;
        }
        i += 1;
    }
    false
}

/// Adds `x` to the ordered set `v` unless it is already a member.
pub fn insert_str(v: &mut Vec<String>, x: &str)
    ensures
        final(v).deep_view() == with_member(old(v).deep_view(), x@),
{
    if !contains_str(v, x) {
        v.push(x.to_string());
        assert(v.deep_view() =~= old(v).deep_view().push(x@));
    }
}

/// Adds each member of `xs` in turn to the ordered set `v`.
pub fn insert_all(v: &mut Vec<String>, xs: &Vec<String>)
    ensures
        final(v).deep_view() == with_members(old(v).deep_view(), xs.deep_view()),
{
    let mut i: usize = 0;
    assert(xs.deep_view().take(0) =~= Seq::empty());
    while i < xs.len()
        invariant
            i <= xs.len(),
            v.deep_view() == with_members(old(v).deep_view(), xs.deep_view().take(i as int)),
        decreases xs.len() - i,
    {
        proof {
            let t = xs.deep_view().take(i + 1);
            assert(t.drop_last() =~= xs.deep_view().take(i as int));
            assert(t.last() == xs[i as int]@);
        }
        insert_str(v, xs[i].as_str());
        i += 1;
    }
    assert(xs.deep_view().take(xs.len() as int) =~= xs.deep_view());
}

/// Appends copies of the strings of `xs` to `v`.
pub fn append_strings(v: &mut Vec<String>, xs: &Vec<String>)
    ensures
        final(v).deep_view() == old(v).deep_view() + xs.deep_view(),
{
    let mut i: usize = 0;
    assert(v.deep_view() =~= old(v).deep_view() + xs.deep_view().take(0));
    while i < xs.len()
        invariant
            i <= xs.len(),
            v.deep_view() == old(v).deep_view() + xs.deep_view().take(i as int),
        decreases xs.len() - i,
    {
        let ghost before = v.deep_view();
        v.push(xs[i].clone());
        assert(v.deep_view() =~= before.push(xs[i as int]@));
        assert(xs.deep_view().take(i + 1) =~= xs.deep_view().take(i as int).push(xs[i as int]@));
        assert(v.deep_view() =~= old(v).deep_view() + xs.deep_view().take(i + 1));
        i += 1;
    }
    assert(xs.deep_view().take(xs.len() as int) =~= xs.deep_view());
}

/// The strings of `v` other than `x`, in their order.
pub fn remove_str(v: &Vec<String>, x: &str) -> (r: Vec<String>)
    ensures
        r.deep_view() == without(v.deep_view(), x@),
{
    let mut out: Vec<String> = Vec::new();
    let mut i: usize = 0;
    assert(out.deep_view() =~= without(v.deep_view().take(0), x@));
    while i < v.len()
        invariant
            i <= v.len(),
            out.deep_view() == without(v.deep_view().take(i as int), x@),
        decreases v.len() - i,
    {
        let ghost before = out.deep_view();
        proof {
            let t = v.deep_view().take(i + 1);
            assert(t.drop_last() =~= v.deep_view().take(i as int));
            assert(t.last() == v[i as int]@);
        }
        if !str_eq(v[i].as_str(), x) {
            out.push(v[i].clone());
            assert(out.deep_view() =~= before.push(v[i as int]@));
        }
        i += 1;
    }
    assert(v.deep_view().take(v.len() as int) =~= v.deep_view());
    out
}

/// Whether `x` is one of `items`.
pub fn slice_contains(items: &[&str], x: &str) -> (r: bool)
    ensures
        r == items.deep_view().contains(x@),
{
    let mut i: usize = 0;
    while i < items.len()
        invariant
            i <= items.len(),
            forall|j: int| 0 <= j < i ==> items.deep_view()[j] != x@,
        decreases items.len() - i,
    {
        if str_eq(items[i], x) {
            assert(items.deep_view()[i as int] == x@);
            return true;
        }
        i += 1;
    }
    false
}

/// The strings of `v` that are none of `among`, in their order.
pub fn missing_strs(v: &Vec<String>, among: &[&str]) -> (r: Vec<String>)
    ensures
        r.deep_view() == missing_from(v.deep_view(), among.deep_view()),
{
    let mut out: Vec<String> = Vec::new();
    let mut i: usize = 0;
    assert(out.deep_view() =~= missing_from(v.deep_view().take(0), among.deep_view()));
    while i < v.len()
        invariant
            i <= v.len(),
            out.deep_view() == missing_from(v.deep_view().take(i as int), among.deep_view()),
        decreases v.len() - i,
    {
        let ghost before = out.deep_view();
        proof {
            let t = v.deep_view().take(i + 1);
            assert(t.drop_last() =~= v.deep_view().take(i as int));
            assert(t.last() == v[i as int]@);
        }
        if !slice_contains(among, v[i].as_str()) {
            out.push(v[i].clone());
            assert(out.deep_view() =~= before.push(v[i as int]@));
        }
        i += 1;
    }
    assert(v.deep_view().take(v.len() as int) =~= v.deep_view());
    out
}

/// Owned copies of the strings of `items`.
pub fn to_strings(items: &[&str]) -> (r: Vec<String>)
    ensures
        r.deep_view() == items.deep_view(),
{
    let mut out: Vec<String> = Vec::new();
    let mut i: usize = 0;
    while i < items.len()
        invariant
            i <= items.len(),
            out.len() == i,
            forall|j: int| 0 <= j < i ==> out@[j]@ == items@[j]@,
        decreases items.len() - i,
    {
        out.push(items[i].to_string());
        i += 1;
    }
    assert(out.deep_view() =~= items.deep_view());
    out
}

/// The strings of `v` as slices.
pub fn as_strs<'a>(v: &'a Vec<String>) -> (r: Vec<&'a str>)
    ensures
        r.deep_view() == v.deep_view(),
{
    let mut out: Vec<&'a str> = Vec::new();
    let mut i: usize = 0;
    while i < v.len()
        invariant
            i <= v.len(),
            out.len() == i,
            forall|j: int| 0 <= j < i ==> out@[j]@ == v@[j]@,
        decreases v.len() - i,
    {
        out.push(v[i].as_str());
        i += 1;
    }
    assert(out.deep_view() =~= v.deep_view());
    out
}

/// A vector that holds a copy of `a` and nothing else.
pub fn single(a: &str) -> (r: Vec<String>)
    ensures
        r.deep_view() == seq![a@],
{
    let mut r: Vec<String> = Vec::new();
    r.push(a.to_string());
    assert(r.deep_view() =~= seq![a@]);
    r
}

} // verus!
