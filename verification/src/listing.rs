//! The list of public prisons: one listing per owner (a later listing of an
//! owner replaces an earlier one), ordered by owner name.

use vstd::prelude::*;
use crate::json::{Json, JsonView};
use crate::lists::{first_where, lemma_first_where_at, lemma_first_where_none, lemma_first_where};
use crate::summary::{PrisonSummary, PrisonWorker};
use crate::text::chars_of;

verus! {

broadcast use vstd::seq_lib::group_to_multiset_ensures;

/// Lexicographic order of texts by character code (the order of their
/// UTF-8 bytes).
pub open spec fn text_le(a: Seq<char>, b: Seq<char>) -> bool
    decreases a.len(),
{
    if a.len() == 0 {
        true
    } else if b.len() == 0 {
        false
    } else if (a[0] as u32) < (b[0] as u32) {
        true
    } else if (a[0] as u32) > (b[0] as u32) {
        false
    } else {
        text_le(a.drop_first(), b.drop_first())
    }
}

pub proof fn lemma_text_le_total(a: Seq<char>, b: Seq<char>)
    ensures
        text_le(a, b) || text_le(b, a),
    decreases a.len(),
{
    if a.len() > 0 && b.len() > 0 && (a[0] as u32) == (b[0] as u32) {
        lemma_text_le_total(a.drop_first(), b.drop_first());
    }
}

pub proof fn lemma_text_le_trans(a: Seq<char>, b: Seq<char>, c: Seq<char>)
    requires
        text_le(a, b),
        text_le(b, c),
    ensures
        text_le(a, c),
    decreases a.len(),
{
    if a.len() > 0 && b.len() > 0 && c.len() > 0 && (a[0] as u32) == (b[0] as u32) && (b[0] as u32) == (c[0] as u32) {
        lemma_text_le_trans(a.drop_first(), b.drop_first(), c.drop_first());
    }
}

/// Compares two texts, see [`text_le`].
pub fn text_le_exec(a: &str, b: &str) -> (r: bool)
    ensures
        r == text_le(a@, b@),
{
    let av = chars_of(a);
    let bv = chars_of(b);
    let mut i: usize = 0;
    proof {
        assert(a@.skip(0) =~= a@);
        assert(b@.skip(0) =~= b@);
    }
    while i < av.len() && i < bv.len() && (av[i] as u32) == (bv[i] as u32)
        invariant
            i <= av@.len(),
            i <= bv@.len(),
            av@ == a@,
            bv@ == b@,
            text_le(a@, b@) == text_le(a@.skip(i as int), b@.skip(i as int)),
        decreases av@.len() - i,
    {
        proof {
            assert(a@.skip(i as int).drop_first() =~= a@.skip(i + 1));
            assert(b@.skip(i as int).drop_first() =~= b@.skip(i + 1));
        }
        i += 1;
    }
    proof {
        if i < av.len() && i < bv.len() {
            assert(a@.skip(i as int)[0] == a@[i as int]);
            assert(b@.skip(i as int)[0] == b@[i as int]);
        }
    }
    if i == av.len() {
        true
    } else if i == bv.len() {
        false
    } else {
        (av[i] as u32) < (bv[i] as u32)
    }
}

/// A listing by its view: the listing and the workers it counts.
pub open spec fn listing_view(s: PrisonSummary) -> (JsonView, Seq<PrisonWorker>) {
    (s.listing@, s.workers@)
}

pub open spec fn listings_view(v: Seq<PrisonSummary>) -> Seq<(JsonView, Seq<PrisonWorker>)> {
    v.map_values(|s: PrisonSummary| listing_view(s))
}

pub open spec fn keyed_view(v: Seq<(i64, PrisonSummary)>) -> Seq<(i64, (JsonView, Seq<PrisonWorker>))> {
    v.map_values(|e: (i64, PrisonSummary)| (e.0, listing_view(e.1)))
}

/// The name a listing is ordered by: its `MemberName` ("" without one).
pub open spec fn name_key(l: (JsonView, Seq<PrisonWorker>)) -> Seq<char> {
    match l.0.get_str("MemberName"@) {
        Some(n) => n,
        None => ""@,
    }
}

/// Listings in order of owner name.
pub open spec fn by_name(v: Seq<(JsonView, Seq<PrisonWorker>)>) -> bool {
    forall|i: int, j: int| 0 <= i < j < v.len() ==> text_le(name_key(#[trigger] v[i]), name_key(#[trigger] v[j]))
}

/// Entries of a given owner.
pub open spec fn of_owner(m: i64) -> spec_fn((i64, (JsonView, Seq<PrisonWorker>))) -> bool {
    |e: (i64, (JsonView, Seq<PrisonWorker>))| e.0 == m
}

/// The listings after `x` is recorded: it replaces the listing of the same
/// owner, or comes last.
pub open spec fn upsert(
    v: Seq<(i64, (JsonView, Seq<PrisonWorker>))>,
    x: (i64, (JsonView, Seq<PrisonWorker>)),
) -> Seq<(i64, (JsonView, Seq<PrisonWorker>))> {
    let i = first_where(v, of_owner(x.0));
    if i >= 0 {
        v.update(i, x)
    } else {
        v.push(x)
    }
}

/// The listings recorded one after another: one per owner, the last given.
pub open spec fn merged(e: Seq<(i64, (JsonView, Seq<PrisonWorker>))>) -> Seq<(i64, (JsonView, Seq<PrisonWorker>))>
    decreases e.len(),
{
    if e.len() == 0 {
        Seq::empty()
    } else {
        upsert(merged(e.drop_last()), e.last())
    }
}

fn record_listing(kept: &mut Vec<(i64, PrisonSummary)>, x: (i64, PrisonSummary))
    ensures
        keyed_view(final(kept)@) == upsert(keyed_view(old(kept)@), (x.0, listing_view(x.1))),
{
    let ghost v = keyed_view(kept@);
    let ghost p = of_owner(x.0);
    let mut i: usize = 0;
    while i < kept.len()
        invariant
            i <= kept@.len(),
            v == keyed_view(kept@),
            v == keyed_view(old(kept)@),
            p == of_owner(x.0),
            forall|j: int| 0 <= j < i ==> !p(#[trigger] v[j]),
        decreases kept@.len() - i,
    {
        if kept[i].0 == x.0 {
            proof {
                lemma_first_where_at(v, p, i as int);
            }
            let ghost xv = (x.0, listing_view(x.1));
            kept.set(i, x);
            proof {
                assert(keyed_view(kept@) =~= v.update(i as int, xv));
            }
            return;
        }
        i += 1;
    }
    proof {
        lemma_first_where_none(v, p);
    }
    let ghost xv = (x.0, listing_view(x.1));
    kept.push(x);
    proof {
        assert(keyed_view(kept@) =~= v.push(xv));
    }
}

fn name_of(s: &PrisonSummary) -> (r: &str)
    ensures
        r@ == name_key(listing_view(*s)),
{
    match s.listing.get_str("MemberName") {
        Some(n) => n,
        None => "",
    }
}

fn insert_by_name(out: &mut Vec<PrisonSummary>, x: PrisonSummary)
    requires
        by_name(listings_view(old(out)@)),
    ensures
        by_name(listings_view(final(out)@)),
        listings_view(final(out)@).to_multiset() == listings_view(old(out)@).to_multiset().insert(listing_view(x)),
{
    let ghost v = listings_view(out@);
    let ghost xv = listing_view(x);
    let mut p: usize = 0;
    while p < out.len() && text_le_exec(name_of(&out[p]), name_of(&x))
        invariant
            p <= out@.len(),
            v == listings_view(out@),
            xv == listing_view(x),
            forall|j: int| 0 <= j < p ==> text_le(name_key(#[trigger] v[j]), name_key(xv)),
        decreases out@.len() - p,
    {
        p += 1;
    }
    proof {
        if p < v.len() {
            lemma_text_le_total(name_key(v[p as int]), name_key(xv));
        }
        assert forall|j: int| p <= j < v.len() implies text_le(name_key(xv), name_key(#[trigger] v[j])) by {
            if j > p {
                lemma_text_le_trans(name_key(xv), name_key(v[p as int]), name_key(v[j]));
            }
        }
    }
    out.insert(p, x);
    proof {
        let s = listings_view(out@);
        assert(s =~= v.insert(p as int, xv));
        assert forall|i: int, j: int| 0 <= i < j < s.len() implies text_le(name_key(#[trigger] s[i]), name_key(#[trigger] s[j])) by {
            if j < p {
            } else if j == p {
            } else if i == p {
                assert(s[j] == v[j - 1]);
            } else if i < p {
                assert(s[j] == v[j - 1]);
                lemma_text_le_trans(name_key(v[i]), name_key(xv), name_key(v[j - 1]));
            } else {
                assert(s[i] == v[i - 1] && s[j] == v[j - 1]);
            }
        }
    }
}

pub open spec fn listing_of(e: (i64, (JsonView, Seq<PrisonWorker>))) -> (JsonView, Seq<PrisonWorker>) {
    e.1
}

/// The public prison list from its listings, each with its owner's number,
/// in the order they were found (stored ones first, then those of online
/// owners): one listing per owner, the last found, ordered by owner name.
pub fn public_prison_list(entries: Vec<(i64, PrisonSummary)>) -> (r: Vec<PrisonSummary>)
    ensures
        by_name(listings_view(r@)),
        listings_view(r@).to_multiset() == merged(keyed_view(entries@)).map_values(
            |e: (i64, (JsonView, Seq<PrisonWorker>))| listing_of(e),
        ).to_multiset(),
{
    let ghost ev = keyed_view(entries@);
    let mut rest = entries;
    let mut kept: Vec<(i64, PrisonSummary)> = Vec::new();
    while rest.len() > 0
        invariant
            rest@.len() <= ev.len(),
            keyed_view(rest@) == ev.skip(ev.len() - rest@.len()),
            keyed_view(kept@) == merged(ev.take(ev.len() - rest@.len())),
        decreases rest@.len(),
    {
        let ghost k = ev.len() - rest@.len();
        let ghost before = rest@;
        let x = rest.remove(0);
        proof {
            assert(rest@ =~= before.subrange(1, before.len() as int));
            assert(keyed_view(rest@) =~= keyed_view(before).subrange(1, before.len() as int));
            assert(keyed_view(before)[0] == ev[k]);
            assert(keyed_view(rest@) =~= ev.skip(k + 1));
            assert(ev.take(k + 1).drop_last() =~= ev.take(k));
            assert(ev.take(k + 1).last() == (x.0, listing_view(x.1)));
        }
        record_listing(&mut kept, x);
    }
    proof {
        assert(ev.take(ev.len() as int) =~= ev);
    }
    let ghost all = keyed_view(kept@);
    let mut out: Vec<PrisonSummary> = Vec::new();
    let mut n: usize = 0;
    let total = kept.len();
    proof {
        assert(all.len() == total);
        assert(listings_view(out@) =~= Seq::<(JsonView, Seq<PrisonWorker>)>::empty());
        assert(all.take(0).map_values(|e: (i64, (JsonView, Seq<PrisonWorker>))| listing_of(e)) =~= Seq::<(JsonView, Seq<PrisonWorker>)>::empty());
    }
    while kept.len() > 0
        invariant
            kept@.len() <= all.len(),
            all.len() <= usize::MAX,
            n == all.len() - kept@.len(),
            keyed_view(kept@) == all.skip(n as int),
            by_name(listings_view(out@)),
            listings_view(out@).to_multiset() == all.take(n as int).map_values(
                |e: (i64, (JsonView, Seq<PrisonWorker>))| listing_of(e),
            ).to_multiset(),
        decreases kept@.len(),
    {
        let ghost before = kept@;
        let x = kept.remove(0);
        proof {
            assert(kept@ =~= before.subrange(1, before.len() as int));
            assert(keyed_view(kept@) =~= keyed_view(before).subrange(1, before.len() as int));
            assert(keyed_view(before)[0] == all[n as int]);
            assert(keyed_view(kept@) =~= all.skip(n + 1));
            assert(all.take(n + 1).map_values(|e: (i64, (JsonView, Seq<PrisonWorker>))| listing_of(e)) =~= all.take(
                n as int,
            ).map_values(|e: (i64, (JsonView, Seq<PrisonWorker>))| listing_of(e)).push(listing_view(x.1)));
        }
        insert_by_name(&mut out, x.1);
        n += 1;
    }
    proof {
        assert(all.take(all.len() as int) =~= all);
    }
    out
}

/// The list is in order of owner name.
pub proof fn law_public_list_sorted(v: Seq<(JsonView, Seq<PrisonWorker>)>, i: int, j: int)
    requires
        by_name(v),
        0 <= i <= j < v.len(),
    ensures
        text_le(name_key(v[i]), name_key(v[j])),
{
    if i == j {
        lemma_text_le_refl(name_key(v[i]));
    }
}

pub proof fn lemma_text_le_refl(a: Seq<char>)
    ensures
        text_le(a, a),
    decreases a.len(),
{
    if a.len() > 0 {
        lemma_text_le_refl(a.drop_first());
    }
}

/// Recording listings keeps one per owner.
pub proof fn law_one_listing_per_owner(e: Seq<(i64, (JsonView, Seq<PrisonWorker>))>, i: int, j: int)
    requires
        0 <= i < j < merged(e).len(),
    ensures
        merged(e)[i].0 != merged(e)[j].0,
    decreases e.len(),
{
    if e.len() > 0 {
        let prev = merged(e.drop_last());
        let x = e.last();
        let k = first_where(prev, of_owner(x.0));
        lemma_first_where(prev, of_owner(x.0));
        if k >= 0 {
            if i != k && j != k {
                law_one_listing_per_owner(e.drop_last(), i, j);
            } else if i == k {
                if prev[j].0 == x.0 {
                    assert(!of_owner(x.0)(prev[j]) || j >= k);
                }
                law_one_listing_per_owner(e.drop_last(), i, j);
            } else {
                law_one_listing_per_owner(e.drop_last(), i, j);
            }
        } else {
            if j < prev.len() {
                law_one_listing_per_owner(e.drop_last(), i, j);
            } else {
                assert(!of_owner(x.0)(prev[i]));
            }
        }
    }
}


/// Whether the prison of owner `owner` is shown to `requester` in the public
/// list: the requester's own only when asked for.
pub fn shown_in_public_list(owner: i64, requester: i64, include_own: bool) -> (r: bool)
    ensures
        r == (include_own || owner != requester),
{
    include_own || owner != requester
}

} // verus!
