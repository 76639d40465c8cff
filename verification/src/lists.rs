//! Operations on lists of member numbers and of texts.

use vstd::prelude::*;

verus! {

/// One more element of a prefix passes through a filter.
pub proof fn lemma_filter_take_step<A>(v: Seq<A>, p: spec_fn(A) -> bool, i: int)
    requires
        0 <= i < v.len(),
    ensures
        v.take(i + 1).filter(p) == if p(v[i]) {
            v.take(i).filter(p).push(v[i])
        } else {
            v.take(i).filter(p)
        },
{
    reveal(Seq::filter);
    assert(v.take(i + 1).drop_last() =~= v.take(i));
}

/// Equal to `t`.
pub open spec fn equals(t: i64) -> spec_fn(i64) -> bool {
    |m: i64| m == t
}

/// Index of the first element that satisfies `p`, or -1.
pub open spec fn first_where<A>(v: Seq<A>, p: spec_fn(A) -> bool) -> int
    decreases v.len(),
{
    if v.len() == 0 {
        -1
    } else if p(v[0]) {
        0
    } else {
        let r = first_where(v.drop_first(), p);
        if r < 0 {
            -1
        } else {
            r + 1
        }
    }
}

/// The first element that satisfies `p` stands at `i`.
pub proof fn lemma_first_where_at<A>(v: Seq<A>, p: spec_fn(A) -> bool, i: int)
    requires
        0 <= i < v.len(),
        p(v[i]),
        forall|j: int| 0 <= j < i ==> !p(#[trigger] v[j]),
    ensures
        first_where(v, p) == i,
    decreases i,
{
    if i > 0 {
        assert forall|j: int| 0 <= j < i - 1 implies !p(#[trigger] v.drop_first()[j]) by {
            assert(v.drop_first()[j] == v[j + 1]);
        }
        lemma_first_where_at(v.drop_first(), p, i - 1);
    }
}

/// No element satisfies `p`.
pub proof fn lemma_first_where_none<A>(v: Seq<A>, p: spec_fn(A) -> bool)
    requires
        forall|j: int| 0 <= j < v.len() ==> !p(#[trigger] v[j]),
    ensures
        first_where(v, p) == -1,
    decreases v.len(),
{
    if v.len() > 0 {
        assert forall|j: int| 0 <= j < v.len() - 1 implies !p(#[trigger] v.drop_first()[j]) by {
            assert(v.drop_first()[j] == v[j + 1]);
        }
        lemma_first_where_none(v.drop_first(), p);
    }
}

/// What `first_where` finds satisfies `p`, and nothing before it does.
pub proof fn lemma_first_where<A>(v: Seq<A>, p: spec_fn(A) -> bool)
    ensures
        -1 <= first_where(v, p) < v.len(),
        first_where(v, p) >= 0 ==> p(v[first_where(v, p)]),
        forall|j: int| 0 <= j < v.len() && (first_where(v, p) < 0 || j < first_where(v, p)) ==> !p(#[trigger] v[j]),
    decreases v.len(),
{
    if v.len() > 0 {
        lemma_first_where(v.drop_first(), p);
        assert forall|j: int| 0 <= j < v.len() && (first_where(v, p) < 0 || j < first_where(v, p)) implies !p(#[trigger] v[j]) by {
            if j > 0 {
                assert(v[j] == v.drop_first()[j - 1]);
            }
        }
    }
}

/// A filter keeps at most the whole list.
pub proof fn lemma_filter_len<A>(v: Seq<A>, p: spec_fn(A) -> bool)
    ensures
        v.filter(p).len() <= v.len(),
    decreases v.len(),
{
    reveal(Seq::filter);
    if v.len() > 0 {
        lemma_filter_len(v.drop_last(), p);
    }
}

/// A filter that keeps every element keeps the whole list.
pub proof fn lemma_filter_all<A>(v: Seq<A>, p: spec_fn(A) -> bool)
    requires
        v.filter(p).len() == v.len(),
    ensures
        forall|i: int| 0 <= i < v.len() ==> p(#[trigger] v[i]),
        v.filter(p) == v,
    decreases v.len(),
{
    reveal(Seq::filter);
    if v.len() > 0 {
        let init = v.drop_last();
        lemma_filter_len(init, p);
        if !p(v.last()) {
            assert(v.filter(p) == init.filter(p));
        }
        lemma_filter_all(init, p);
        assert forall|i: int| 0 <= i < v.len() implies p(#[trigger] v[i]) by {
            if i < v.len() - 1 {
                assert(v[i] == init[i]);
            }
        }
        assert(v =~= init.push(v.last()));
    }
}

/// A filter keeps every element when all satisfy it.
pub proof fn lemma_filter_keeps_all<A>(v: Seq<A>, p: spec_fn(A) -> bool)
    requires
        forall|i: int| 0 <= i < v.len() ==> p(#[trigger] v[i]),
    ensures
        v.filter(p) == v,
    decreases v.len(),
{
    reveal(Seq::filter);
    if v.len() > 0 {
        let init = v.drop_last();
        assert forall|i: int| 0 <= i < init.len() implies p(#[trigger] init[i]) by {
            assert(init[i] == v[i]);
        }
        lemma_filter_keeps_all(init, p);
        assert(v =~= init.push(v.last()));
    }
}

/// The list without the occurrences of `m`.
pub open spec fn without(v: Seq<i64>, m: i64) -> Seq<i64> {
    v.filter(|x: i64| x != m)
}

/// `first_where` with `equals(t)` finds a position exactly when `t` occurs.
pub proof fn lemma_first_where_equals(v: Seq<i64>, t: i64)
    ensures
        first_where(v, equals(t)) >= 0 <==> v.contains(t),
{
    lemma_first_where(v, equals(t));
    if v.contains(t) {
        let i = choose|i: int| 0 <= i < v.len() && v[i] == t;
        assert(equals(t)(v[i]));
    }
}

/// `without(v, m)` holds no `m` and every other element of `v`.
pub proof fn lemma_without(v: Seq<i64>, m: i64)
    ensures
        !without(v, m).contains(m),
        forall|x: i64| v.contains(x) && x != m ==> #[trigger] without(v, m).contains(x),
{
    broadcast use vstd::seq_lib::group_filter_ensures;
    let f = |x: i64| x != m;
    if without(v, m).contains(m) {
        let i = choose|i: int| 0 <= i < without(v, m).len() && without(v, m)[i] == m;
        assert(f(v.filter(f)[i]));
    }
    assert forall|x: i64| v.contains(x) && x != m implies #[trigger] without(v, m).contains(x) by {
        let i = choose|i: int| 0 <= i < v.len() && v[i] == x;
        assert(f(v[i]));
    }
}

pub fn contains_i64(v: &Vec<i64>, m: i64) -> (r: bool)
    ensures
        r == v@.contains(m),
{
    let mut i: usize = 0;
    while i < v.len()
        invariant
            i <= v.len(),
            forall|j: int| 0 <= j < i ==> v@[j] != m,
        decreases v.len() - i,
    {
        if v[i] == m {
            return true;
        }
        i += 1;
    }
    false
}

/// Index of the first occurrence of `m`.
pub fn position_i64(v: &Vec<i64>, m: i64) -> (r: Option<usize>)
    ensures
        match r {
            Some(i) => i < v.len() && v@[i as int] == m && forall|j: int| 0 <= j < i ==> v@[j] != m,
            None => !v@.contains(m),
        },
{
    let mut i: usize = 0;
    while i < v.len()
        invariant
            i <= v.len(),
            forall|j: int| 0 <= j < i ==> v@[j] != m,
        decreases v.len() - i,
    {
        if v[i] == m {
            return Some(i);
        }
        i += 1;
    }
    None
}

/// `v.retain(|&x| x != m)`.
pub fn retain_ne(v: &mut Vec<i64>, m: i64)
    ensures
        final(v)@ == without(old(v)@, m),
{
    let ghost old_v = v@;
    let mut out: Vec<i64> = Vec::new();
    let mut i: usize = 0;
    while i < v.len()
        invariant
            i <= v.len(),
            v@ == old_v,
            out@ == without(old_v.take(i as int), m),
        decreases v.len() - i,
    {
        proof {
            reveal(Seq::filter);
            assert(old_v.take(i + 1).drop_last() =~= old_v.take(i as int));
        }
        if v[i] != m {
            out.push(v[i]);
        }
        i += 1;
    }
    assert(old_v.take(old_v.len() as int) =~= old_v);
    *v = out;
}

/// `if !v.contains(&m) { v.push(m) }`.
pub fn push_unique(v: &mut Vec<i64>, m: i64)
    ensures
        final(v)@ == if old(v)@.contains(m) { old(v)@ } else { old(v)@.push(m) },
{
    if !contains_i64(v, m) {
        v.push(m);
    }
}

/// The texts of a list.
pub open spec fn texts(v: Seq<String>) -> Seq<Seq<char>> {
    v.map_values(|s: String| s@)
}

/// Some text of the list equals `s`.
pub open spec fn has_text(v: Seq<String>, s: Seq<char>) -> bool {
    exists|i: int| 0 <= i < v.len() && #[trigger] v[i]@ == s
}

pub fn contains_str(v: &Vec<String>, s: &str) -> (r: bool)
    ensures
        r == has_text(v@, s@),
{
    let mut i: usize = 0;
    while i < v.len()
        invariant
            i <= v.len(),
            forall|j: int| 0 <= j < i ==> #[trigger] v@[j]@ != s@,
        decreases v.len() - i,
    {
        if crate::text::str_eq(v[i].as_str(), s) {
            return true;
        }
        i += 1;
    }
    false
}

/// A copy of a list of texts.
pub fn clone_strings(v: &Vec<String>) -> (r: Vec<String>)
    ensures
        r@ == v@,
{
    let mut out: Vec<String> = Vec::new();
    let mut i: usize = 0;
    while i < v.len()
        invariant
            i <= v.len(),
            out@ == v@.take(i as int),
        decreases v.len() - i,
    {
        out.push(v[i].clone());
        assert(out@ =~= v@.take(i + 1));
        i += 1;
    }
    assert(v@.take(v@.len() as int) =~= v@);
    out
}

/// A copy of a list of member numbers.
pub fn clone_i64s(v: &Vec<i64>) -> (r: Vec<i64>)
    ensures
        r@ == v@,
{
    let mut out: Vec<i64> = Vec::new();
    let mut i: usize = 0;
    while i < v.len()
        invariant
            i <= v.len(),
            out@ == v@.take(i as int),
        decreases v.len() - i,
    {
        out.push(v[i]);
        assert(out@ =~= v@.take(i + 1));
        i += 1;
    }
    assert(v@.take(v@.len() as int) =~= v@);
    out
}

} // verus!
