//! Ownership (trial, then collar) and lovership (dating, engagement,
//! wedding): the decisions of each step and the lists they change.

use vstd::prelude::*;
use crate::json::{
    Json, JsonView, JsonNumber, entries_get, entries_set, entries_remove, object_entries, view_items,
    view_entries, lemma_view_items, lemma_view_entries, entries_insert, entries_take, entries_copy,
    int_value, str_value,
};
use crate::lists::{first_where, lemma_first_where_at, lemma_first_where_none, lemma_filter_take_step};
use crate::state::account::OnlineAccount;
use crate::state::world::{World, account_at, account_of_member};
use crate::routing::current_room;
use crate::lists::contains_i64;
use crate::validate::{OWNERSHIP_DELAY_MS, LOVERSHIP_DELAY_MS};

verus! {

// ---------------------------------------------------------------------------
// Lover lists
// ---------------------------------------------------------------------------

/// A lover entry about member `m`: a lover, or a dating offer from them.
pub open spec fn lover_of(m: i64) -> spec_fn(JsonView) -> bool {
    |l: JsonView| l.get_i64("MemberNumber"@) == Some(m) || l.get_i64("BeginDatingOfferedByMemberNumber"@) == Some(m)
}

/// Position of the first entry about member `m`.
pub open spec fn spec_lover_index(list: Seq<JsonView>, m: i64) -> Option<int> {
    let i = first_where(list, lover_of(m));
    if i < 0 {
        None
    } else {
        Some(i)
    }
}

pub fn lover_index(list: &Vec<Json>, member: i64) -> (r: Option<usize>)
    ensures
        match r {
            Some(i) => spec_lover_index(view_items(list@), member) == Some(i as int) && i < list@.len(),
            None => spec_lover_index(view_items(list@), member) is None,
        },
{
    let ghost lv = view_items(list@);
    let ghost p = lover_of(member);
    proof {
        lemma_view_items(list@);
    }
    let mut i: usize = 0;
    while i < list.len()
        invariant
            i <= list.len(),
            lv == view_items(list@),
            p == lover_of(member),
            lv.len() == list.len(),
            forall|k: int| 0 <= k < list.len() ==> #[trigger] lv[k] == crate::json::json_view(list@[k]),
            forall|j: int| 0 <= j < i ==> !p(#[trigger] lv[j]),
        decreases list.len() - i,
    {
        let l = &list[i];
        assert(lv[i as int] == l@);
        if l.get_i64("MemberNumber") == Some(member) || l.get_i64("BeginDatingOfferedByMemberNumber") == Some(
            member,
        ) {
            proof {
                lemma_first_where_at(lv, p, i as int);
            }
            return Some(i);
        }
        i += 1;
    }
    proof {
        lemma_first_where_none(lv, p);
    }
    None
}

/// A pending dating offer only: an offer without a lover yet.
pub open spec fn pending_offer_only() -> spec_fn(JsonView) -> bool {
    |l: JsonView| !(l.get("BeginDatingOfferedByMemberNumber"@) is Some && l.get("MemberNumber"@) is None)
}

/// A lover entry without its pending offers.
pub open spec fn without_offers(l: JsonView) -> JsonView {
    match l {
        JsonView::Object(e) => JsonView::Object(
            entries_remove(
                entries_remove(
                    entries_remove(e, "BeginEngagementOfferedByMemberNumber"@),
                    "BeginWeddingOfferedByMemberNumber"@,
                ),
                "BeginDatingOfferedByMemberNumber"@,
            ),
        ),
        _ => l,
    }
}

/// A lover list as stored and shown: entries that are only a dating offer
/// are dropped, the pending offers of the others are stripped.
pub open spec fn spec_clean_lovership(list: Seq<JsonView>) -> Seq<JsonView> {
    list.filter(pending_offer_only()).map_values(|l: JsonView| without_offers(l))
}

fn strip_offers(l: &Json) -> (r: Json)
    ensures
        r@ == without_offers(l@),
{
    match l {
        Json::Object(_) => {
            let mut e = entries_copy(l);
            entries_take(&mut e, "BeginEngagementOfferedByMemberNumber");
            entries_take(&mut e, "BeginWeddingOfferedByMemberNumber");
            entries_take(&mut e, "BeginDatingOfferedByMemberNumber");
            Json::Object(e)
        },
        _ => l.deep_clone(),
    }
}

pub fn clean_lovership(list: &Vec<Json>) -> (r: Vec<Json>)
    ensures
        view_items(r@) == spec_clean_lovership(view_items(list@)),
{
    let ghost lv = view_items(list@);
    let ghost p = pending_offer_only();
    let ghost f = |l: JsonView| without_offers(l);
    proof {
        lemma_view_items(list@);
    }
    let mut out: Vec<Json> = Vec::new();
    let mut i: usize = 0;
    while i < list.len()
        invariant
            i <= list.len(),
            lv == view_items(list@),
            p == pending_offer_only(),
            f == (|l: JsonView| without_offers(l)),
            lv.len() == list.len(),
            forall|k: int| 0 <= k < list.len() ==> #[trigger] lv[k] == crate::json::json_view(list@[k]),
            view_items(out@) == lv.take(i as int).filter(p).map_values(f),
        decreases list.len() - i,
    {
        proof {
            lemma_filter_take_step(lv, p, i as int);
        }
        let l = &list[i];
        assert(lv[i as int] == l@);
        let offer_only = l.get("BeginDatingOfferedByMemberNumber").is_some() && l.get("MemberNumber").is_none();
        if !offer_only {
            let ghost before = out@;
            let ghost kept = lv.take(i as int).filter(p);
            out.push(strip_offers(l));
            proof {
                lemma_view_items(before);
                lemma_view_items(out@);
                assert(view_items(out@) =~= view_items(before).push(f(lv[i as int])));
                assert(kept.push(lv[i as int]).map_values(f) =~= kept.map_values(f).push(f(lv[i as int])));
            }
        }
        i += 1;
    }
    proof {
        assert(lv.take(list.len() as int) =~= lv);
    }
    out
}

/// Breaking up with a non-player lover by name: the first entry of that
/// name goes; without one, the last entry goes.
pub open spec fn spec_npc_break(list: Seq<JsonView>, name: Seq<char>) -> Seq<JsonView> {
    let i = first_where(list, |l: JsonView| l.get_str("Name"@) == Some(name));
    if i >= 0 {
        list.remove(i)
    } else if list.len() > 0 {
        list.drop_last()
    } else {
        list
    }
}

pub fn npc_break(list: &mut Vec<Json>, name: &str)
    ensures
        view_items(final(list)@) == spec_npc_break(view_items(old(list)@), name@),
{
    let ghost lv = view_items(list@);
    let ghost p = |l: JsonView| l.get_str("Name"@) == Some(name@);
    proof {
        lemma_view_items(list@);
    }
    let mut i: usize = 0;
    let mut found: Option<usize> = None;
    while i < list.len() && found.is_none()
        invariant
            i <= list.len(),
            lv == view_items(list@),
            p == (|l: JsonView| l.get_str("Name"@) == Some(name@)),
            lv.len() == list.len(),
            forall|k: int| 0 <= k < list.len() ==> #[trigger] lv[k] == crate::json::json_view(list@[k]),
            match found {
                Some(j) => j < list.len() && first_where(lv, p) == j,
                None => forall|j: int| 0 <= j < i ==> !p(#[trigger] lv[j]),
            },
        decreases list.len() - i, if found is None { 1int } else { 0int },
    {
        let l = &list[i];
        assert(lv[i as int] == l@);
        let hit = match l.get_str("Name") {
            Some(n) => crate::text::str_eq(n, name),
            None => false,
        };
        if hit {
            proof {
                lemma_first_where_at(lv, p, i as int);
            }
            found = Some(i);
        } else {
            i += 1;
        }
    }
    match found {
        Some(j) => {
            list.remove(j);
            proof {
                lemma_view_items(list@);
                assert(view_items(list@) =~= lv.remove(j as int));
            }
        },
        None => {
            proof {
                lemma_first_where_none(lv, p);
            }
            if list.len() > 0 {
                list.pop();
                proof {
                    lemma_view_items(list@);
                    assert(view_items(list@) =~= lv.drop_last());
                }
            }
        },
    }
}

/// Whether one may break up with member `m`: the entry about `m` must carry
/// integer `Stage` and `Start`, and a wedding (stage 2) must have lasted the
/// delay. The position of that entry.
pub open spec fn spec_lover_break_index(list: Seq<JsonView>, m: i64, now: i64) -> Option<int> {
    match spec_lover_index(list, m) {
        None => None,
        Some(i) => match (list[i].get_i64("Stage"@), list[i].get_i64("Start"@)) {
            (Some(stage), Some(start)) => if stage == 2 && start + LOVERSHIP_DELAY_MS > now {
                None
            } else {
                Some(i)
            },
            _ => None,
        },
    }
}

pub fn lover_break_index(list: &Vec<Json>, member: i64, now: i64) -> (r: Option<usize>)
    ensures
        match r {
            Some(i) => spec_lover_break_index(view_items(list@), member, now) == Some(i as int) && i < list@.len(),
            None => spec_lover_break_index(view_items(list@), member, now) is None,
        },
{
    let i = match lover_index(list, member) {
        Some(i) => i,
        None => return None,
    };
    proof {
        lemma_view_items(list@);
    }
    let e = &list[i];
    assert(view_items(list@)[i as int] == e@);
    assert(spec_lover_index(view_items(list@), member) == Some(i as int));
    let stage = e.get_i64("Stage");
    let start = e.get_i64("Start");
    if stage.is_none() || start.is_none() {
        return None;
    }
    let stage = stage.unwrap();
    let start = start.unwrap();
    if stage == 2 && start as i128 + LOVERSHIP_DELAY_MS as i128 > now as i128 {
        None
    } else {
        Some(i)
    }
}

/// The entries of a list that are not about lover `m`.
pub open spec fn not_lover(m: i64) -> spec_fn(JsonView) -> bool {
    |l: JsonView| l.get_i64("MemberNumber"@) != Some(m)
}

/// Drops the entries whose lover is `m`.
pub fn remove_lover(list: &mut Vec<Json>, m: i64)
    ensures
        view_items(final(list)@) == view_items(old(list)@).filter(not_lover(m)),
{
    let ghost lv = view_items(list@);
    let ghost p = not_lover(m);
    proof {
        lemma_view_items(list@);
    }
    let mut out: Vec<Json> = Vec::new();
    let mut i: usize = 0;
    while i < list.len()
        invariant
            i <= list.len(),
            lv == view_items(list@),
            p == not_lover(m),
            lv.len() == list.len(),
            forall|k: int| 0 <= k < list.len() ==> #[trigger] lv[k] == crate::json::json_view(list@[k]),
            view_items(out@) == lv.take(i as int).filter(p),
        decreases list.len() - i,
    {
        proof {
            lemma_filter_take_step(lv, p, i as int);
        }
        assert(lv[i as int] == list@[i as int]@);
        if list[i].get_i64("MemberNumber") != Some(m) {
            let ghost before = out@;
            out.push(list[i].deep_clone());
            proof {
                lemma_view_items(before);
                lemma_view_items(out@);
                assert(view_items(out@) =~= view_items(before).push(lv[i as int]));
            }
        }
        i += 1;
    }
    proof {
        assert(lv.take(list.len() as int) =~= lv);
    }
    *list = out;
}

/// The lover entry made at a step: member, name, start and stage.
pub open spec fn lover_entry(m: i64, name: Seq<char>, start: i64, stage: i64) -> JsonView {
    JsonView::Object(
        seq![
            ("MemberNumber"@, JsonView::Number(JsonNumber::Int(m))),
            ("Name"@, JsonView::Str(name)),
            ("Start"@, JsonView::Number(JsonNumber::Int(start))),
            ("Stage"@, JsonView::Number(JsonNumber::Int(stage))),
        ],
    )
}

pub fn make_lover_entry(m: i64, name: &str, start: i64, stage: i64) -> (r: Json)
    ensures
        r@ == lover_entry(m, name@, start, stage),
{
    let mut e: Vec<(String, Json)> = Vec::new();
    e.push((crate::text::to_owned_string("MemberNumber"), int_value(m)));
    e.push((crate::text::to_owned_string("Name"), str_value(name)));
    e.push((crate::text::to_owned_string("Start"), int_value(start)));
    e.push((crate::text::to_owned_string("Stage"), int_value(stage)));
    proof {
        lemma_view_entries(e@);
        assert(view_entries(e@) =~= object_entries(lover_entry(m, name@, start, stage)));
    }
    Json::Object(e)
}

/// A list with an entry put at position `i` when it has one, else appended.
pub open spec fn put_entry(list: Seq<JsonView>, i: Option<int>, e: JsonView) -> Seq<JsonView> {
    match i {
        Some(i) => if 0 <= i < list.len() {
            list.update(i, e)
        } else {
            list.push(e)
        },
        None => list.push(e),
    }
}

pub fn put_lover_entry(list: &mut Vec<Json>, i: Option<usize>, e: Json)
    ensures
        view_items(final(list)@) == put_entry(
            view_items(old(list)@),
            match i {
                Some(i) => Some(i as int),
                None => None,
            },
            e@,
        ),
{
    let ghost ev = e@;
    proof {
        lemma_view_items(list@);
    }
    let ghost lv = view_items(list@);
    match i {
        Some(i) => if i < list.len() {
            list.set(i, e);
            proof {
                lemma_view_items(list@);
                assert(view_items(list@) =~= lv.update(i as int, ev));
            }
        } else {
            list.push(e);
            proof {
                lemma_view_items(list@);
                assert(view_items(list@) =~= lv.push(ev));
            }
        },
        None => {
            list.push(e);
            proof {
                lemma_view_items(list@);
                assert(view_items(list@) =~= lv.push(ev));
            }
        },
    }
}

// ---------------------------------------------------------------------------
// Lovership steps
// ---------------------------------------------------------------------------

/// An offer a member may make to another, by step.
#[derive(Clone, Copy, PartialEq, Eq, Structural, Debug)]
pub enum LoverOffer {
    Nothing,
    OfferBeginDating,
    CanOfferBeginDating,
    OfferBeginEngagement,
    CanOfferBeginEngagement,
    OfferBeginWedding,
    CanOfferBeginWedding,
}

/// The entry with `key` set to member `m` (an entry that is no object stays).
pub open spec fn with_offer(e: JsonView, key: Seq<char>, m: i64) -> JsonView {
    match e {
        JsonView::Object(es) => JsonView::Object(entries_set(es, key, JsonView::Number(JsonNumber::Int(m)))),
        _ => e,
    }
}

/// An entry at `stage` whose start lies at least the delay before `now`,
/// with no offer under `key` yet.
pub open spec fn offer_due(e: JsonView, key: Seq<char>, stage: i64, now: i64) -> bool {
    &&& e.get(key) is None
    &&& e.get_i64("Stage"@) == Some(stage)
    &&& e.get_i64("Start"@) matches Some(s) && s + LOVERSHIP_DELAY_MS <= now
}

/// The offer `src` makes to `target` and the target's lover list after it:
/// when `src` has room for a lover (fewer than 5) or already has `target`,
/// a first offer to date (if the target has room and no entry about `src`),
/// else, on the target's entry about `src`, an engagement offer (dating for
/// the delay) or a wedding offer (engaged for the delay). An offer is made
/// when `propose`, else only reported as possible.
pub open spec fn spec_lover_offer(propose: bool, src: OnlineAccount, target: OnlineAccount, now: i64) -> (LoverOffer, Seq<JsonView>) {
    let slist = view_items(src.lovership@);
    let tlist = view_items(target.lovership@);
    let al = spec_lover_index(slist, target.member_number);
    let tl = spec_lover_index(tlist, src.member_number);
    if !((slist.len() < 5 && al is None) || al is Some) {
        (LoverOffer::Nothing, tlist)
    } else if tlist.len() < 5 && tl is None {
        if propose {
            (
                LoverOffer::OfferBeginDating,
                tlist.push(
                    JsonView::Object(
                        seq![("BeginDatingOfferedByMemberNumber"@, JsonView::Number(JsonNumber::Int(src.member_number)))],
                    ),
                ),
            )
        } else {
            (LoverOffer::CanOfferBeginDating, tlist)
        }
    } else {
        match tl {
            None => (LoverOffer::Nothing, tlist),
            Some(ti) => {
                let e = tlist[ti];
                if offer_due(e, "BeginEngagementOfferedByMemberNumber"@, 0, now) {
                    if propose {
                        (
                            LoverOffer::OfferBeginEngagement,
                            tlist.update(ti, with_offer(e, "BeginEngagementOfferedByMemberNumber"@, src.member_number)),
                        )
                    } else {
                        (LoverOffer::CanOfferBeginEngagement, tlist)
                    }
                } else if offer_due(e, "BeginWeddingOfferedByMemberNumber"@, 1, now) {
                    if propose {
                        (
                            LoverOffer::OfferBeginWedding,
                            tlist.update(ti, with_offer(e, "BeginWeddingOfferedByMemberNumber"@, src.member_number)),
                        )
                    } else {
                        (LoverOffer::CanOfferBeginWedding, tlist)
                    }
                } else {
                    (LoverOffer::Nothing, tlist)
                }
            },
        }
    }
}

fn offer_due_exec(e: &Json, key: &str, stage: i64, now: i64) -> (r: bool)
    ensures
        r == offer_due(e@, key@, stage, now),
{
    e.get(key).is_none() && e.get_i64("Stage") == Some(stage) && match e.get_i64("Start") {
        Some(s) => s as i128 + LOVERSHIP_DELAY_MS as i128 <= now as i128,
        None => false,
    }
}

fn with_offer_exec(e: &Json, key: &str, m: i64) -> (r: Json)
    ensures
        r@ == with_offer(e@, key@, m),
{
    match e {
        Json::Object(_) => crate::json::with_entry(e, key, int_value(m)),
        _ => e.deep_clone(),
    }
}

/// Decides the offer `src` makes to `target`, see [`spec_lover_offer`].
pub fn lover_offer(propose: bool, src: &OnlineAccount, target: &OnlineAccount, now: i64) -> (r: (LoverOffer, Vec<Json>))
    ensures
        r.0 == spec_lover_offer(propose, *src, *target, now).0,
        view_items(r.1@) == spec_lover_offer(propose, *src, *target, now).1,
{
    proof {
        lemma_view_items(src.lovership@);
        lemma_view_items(target.lovership@);
    }
    let mut tlist = crate::json::clone_items(&target.lovership);
    let al = lover_index(&src.lovership, target.member_number);
    let tl = lover_index(&target.lovership, src.member_number);
    if !((src.lovership.len() < 5 && al.is_none()) || al.is_some()) {
        return (LoverOffer::Nothing, tlist);
    }
    if target.lovership.len() < 5 && tl.is_none() {
        if propose {
            let mut e: Vec<(String, Json)> = Vec::new();
            e.push((crate::text::to_owned_string("BeginDatingOfferedByMemberNumber"), int_value(src.member_number)));
            proof {
                lemma_view_entries(e@);
                assert(view_entries(e@) =~= seq![("BeginDatingOfferedByMemberNumber"@, JsonView::Number(JsonNumber::Int(src.member_number)))]);
                lemma_view_items(tlist@);
            }
            let ghost before = view_items(tlist@);
            let offer = Json::Object(e);
            let ghost ov = offer@;
            tlist.push(offer);
            proof {
                lemma_view_items(tlist@);
                assert(view_items(tlist@) =~= before.push(ov));
            }
            return (LoverOffer::OfferBeginDating, tlist);
        } else {
            return (LoverOffer::CanOfferBeginDating, tlist);
        }
    }
    let ti = match tl {
        Some(ti) => ti,
        None => return (LoverOffer::Nothing, tlist),
    };
    proof {
        lemma_view_items(target.lovership@);
        lemma_view_items(tlist@);
    }
    let e = &target.lovership[ti];
    assert(view_items(target.lovership@)[ti as int] == e@);
    if offer_due_exec(e, "BeginEngagementOfferedByMemberNumber", 0, now) {
        if propose {
            let ghost before = view_items(tlist@);
            let ne = with_offer_exec(e, "BeginEngagementOfferedByMemberNumber", src.member_number);
            let ghost nv = ne@;
            tlist.set(ti, ne);
            proof {
                lemma_view_items(tlist@);
                assert(view_items(tlist@) =~= before.update(ti as int, nv));
            }
            (LoverOffer::OfferBeginEngagement, tlist)
        } else {
            (LoverOffer::CanOfferBeginEngagement, tlist)
        }
    } else if offer_due_exec(e, "BeginWeddingOfferedByMemberNumber", 1, now) {
        if propose {
            let ghost before = view_items(tlist@);
            let ne = with_offer_exec(e, "BeginWeddingOfferedByMemberNumber", src.member_number);
            let ghost nv = ne@;
            tlist.set(ti, ne);
            proof {
                lemma_view_items(tlist@);
                assert(view_items(tlist@) =~= before.update(ti as int, nv));
            }
            (LoverOffer::OfferBeginWedding, tlist)
        } else {
            (LoverOffer::CanOfferBeginWedding, tlist)
        }
    } else {
        (LoverOffer::Nothing, tlist)
    }
}

/// Both sides of a lovership at a stage: `src`'s entry about the target at
/// `ai` and the target's entry about `src` (put where it is, else appended).
pub open spec fn spec_mutual(
    slist: Seq<JsonView>,
    tlist: Seq<JsonView>,
    ai: int,
    src: i64,
    src_name: Seq<char>,
    target: i64,
    target_name: Seq<char>,
    now: i64,
    stage: i64,
) -> (Seq<JsonView>, Seq<JsonView>) {
    (
        put_entry(slist, Some(ai), lover_entry(target, target_name, now, stage)),
        put_entry(tlist, spec_lover_index(tlist, src), lover_entry(src, src_name, now, stage)),
    )
}

/// One accept step: the lists after it and what happened (stage, accepted
/// or only possible); nothing when it does not apply.
pub open spec fn accept_step(
    applies: bool,
    accept: bool,
    lists: (Seq<JsonView>, Seq<JsonView>),
    ai: int,
    src: i64,
    src_name: Seq<char>,
    target: i64,
    target_name: Seq<char>,
    now: i64,
    stage: i64,
) -> (Seq<JsonView>, Seq<JsonView>, Seq<(i64, bool)>) {
    if !applies {
        (lists.0, lists.1, Seq::empty())
    } else if accept {
        let m = spec_mutual(lists.0, lists.1, ai, src, src_name, target, target_name, now, stage);
        (m.0, m.1, seq![(stage, true)])
    } else {
        (lists.0, lists.1, seq![(stage, false)])
    }
}

/// The accept steps of `src` towards `target`, on `src`'s list and the
/// target's list (as left by the offer step): accepting dating (when the
/// target has room or an entry about `src`), engagement (while dating) and
/// the wedding (while engaged), each on the offer recorded in `src`'s entry
/// about the target. Each applies when accepted, else is reported possible.
pub open spec fn spec_lover_accept(
    accept: bool,
    slist: Seq<JsonView>,
    src: i64,
    src_name: Seq<char>,
    tlist: Seq<JsonView>,
    target: i64,
    target_name: Seq<char>,
    now: i64,
) -> (Seq<JsonView>, Seq<JsonView>, Seq<(i64, bool)>) {
    match spec_lover_index(slist, target) {
        None => (slist, tlist, Seq::empty()),
        Some(ai) => if slist.len() > 5 {
            (slist, tlist, Seq::empty())
        } else {
            let e = slist[ai];
            let a1 = e.get_i64("BeginDatingOfferedByMemberNumber"@) == Some(target) && (tlist.len() < 5
                || spec_lover_index(tlist, src) is Some);
            let r1 = accept_step(a1, accept, (slist, tlist), ai, src, src_name, target, target_name, now, 0);
            let a2 = e.get_i64("Stage"@) == Some(0i64) && e.get_i64("BeginEngagementOfferedByMemberNumber"@) == Some(
                target,
            );
            let r2 = accept_step(a2, accept, (r1.0, r1.1), ai, src, src_name, target, target_name, now, 1);
            let a3 = e.get_i64("Stage"@) == Some(1i64) && e.get_i64("BeginWeddingOfferedByMemberNumber"@) == Some(
                target,
            );
            let r3 = accept_step(a3, accept, (r2.0, r2.1), ai, src, src_name, target, target_name, now, 2);
            (r3.0, r3.1, r1.2 + r2.2 + r3.2)
        },
    }
}

fn mutual(
    slist: &mut Vec<Json>,
    tlist: &mut Vec<Json>,
    ai: usize,
    src: i64,
    src_name: &str,
    target: i64,
    target_name: &str,
    now: i64,
    stage: i64,
)
    ensures
        (view_items(final(slist)@), view_items(final(tlist)@)) == spec_mutual(
            view_items(old(slist)@),
            view_items(old(tlist)@),
            ai as int,
            src,
            src_name@,
            target,
            target_name@,
            now,
            stage,
        ),
{
    let tl = lover_index(tlist, src);
    put_lover_entry(slist, Some(ai), make_lover_entry(target, target_name, now, stage));
    put_lover_entry(tlist, tl, make_lover_entry(src, src_name, now, stage));
}

/// Applies the accept steps of `src` towards `target` to both lists and
/// returns what happened, see [`spec_lover_accept`].
pub fn lover_accept(
    accept: bool,
    slist: &mut Vec<Json>,
    src: i64,
    src_name: &str,
    tlist: &mut Vec<Json>,
    target: i64,
    target_name: &str,
    now: i64,
) -> (r: Vec<(i64, bool)>)
    ensures
        (view_items(final(slist)@), view_items(final(tlist)@), r@) == spec_lover_accept(
            accept,
            view_items(old(slist)@),
            src,
            src_name@,
            view_items(old(tlist)@),
            target,
            target_name@,
            now,
        ),
{
    let mut out: Vec<(i64, bool)> = Vec::new();
    proof {
        lemma_view_items(slist@);
        lemma_view_items(tlist@);
    }
    let ai = match lover_index(slist, target) {
        Some(ai) => ai,
        None => {
            assert(out@ =~= Seq::<(i64, bool)>::empty());
            return out;
        },
    };
    if slist.len() > 5 {
        assert(out@ =~= Seq::<(i64, bool)>::empty());
        return out;
    }
    proof {
        lemma_view_items(slist@);
    }
    let e = slist[ai].deep_clone();
    let ghost s0 = view_items(slist@);
    let ghost t0 = view_items(tlist@);
    assert(s0[ai as int] == e@);
    let ghost ai_i = ai as int;
    // dating
    let a1 = e.get_i64("BeginDatingOfferedByMemberNumber") == Some(target) && (tlist.len() < 5 || lover_index(
        tlist,
        src,
    ).is_some());
    let ghost r1 = accept_step(a1, accept, (s0, t0), ai_i, src, src_name@, target, target_name@, now, 0);
    if a1 {
        if accept {
            mutual(slist, tlist, ai, src, src_name, target, target_name, now, 0);
        }
        out.push((0, accept));
    }
    assert(view_items(slist@) == r1.0 && view_items(tlist@) == r1.1);
    assert(out@ =~= r1.2);
    // engagement
    let a2 = e.get_i64("Stage") == Some(0) && e.get_i64("BeginEngagementOfferedByMemberNumber") == Some(target);
    let ghost r2 = accept_step(a2, accept, (r1.0, r1.1), ai_i, src, src_name@, target, target_name@, now, 1);
    proof {
        lemma_view_items(slist@);
    }
    if a2 {
        if accept {
            mutual(slist, tlist, ai, src, src_name, target, target_name, now, 1);
        }
        out.push((1, accept));
    }
    assert(view_items(slist@) == r2.0 && view_items(tlist@) == r2.1);
    assert(out@ =~= r1.2 + r2.2);
    // wedding
    let a3 = e.get_i64("Stage") == Some(1) && e.get_i64("BeginWeddingOfferedByMemberNumber") == Some(target);
    let ghost r3 = accept_step(a3, accept, (r2.0, r2.1), ai_i, src, src_name@, target, target_name@, now, 2);
    if a3 {
        if accept {
            mutual(slist, tlist, ai, src, src_name, target, target_name, now, 2);
        }
        out.push((2, accept));
    }
    assert(view_items(slist@) == r3.0 && view_items(tlist@) == r3.1);
    assert(out@ =~= r1.2 + r2.2 + r3.2);
    out
}

// ---------------------------------------------------------------------------
// Ownership steps
// ---------------------------------------------------------------------------

/// The difficulty level of an account (0 without one).
pub open spec fn difficulty_level(acc: OnlineAccount) -> i64 {
    match acc.difficulty {
        Some(d) => match d@.get_i64("Level"@) {
            Some(l) => l,
            None => 0,
        },
        None => 0,
    }
}

/// A submissive may leave their owner: during a trial (stage 0) at any
/// time; once collared, after the delay and below the Extreme difficulty
/// (level 3). The ownership needs integer `Stage` and `Start`.
pub open spec fn spec_ownership_break_allowed(acc: OnlineAccount, now: i64) -> bool {
    match acc.ownership {
        None => false,
        Some(o) => match (o@.get_i64("Stage"@), o@.get_i64("Start"@)) {
            (Some(stage), Some(start)) => (stage == 0 || start + OWNERSHIP_DELAY_MS <= now) && !(
            difficulty_level(acc) > 2 && stage != 0),
            _ => false,
        },
    }
}

pub fn ownership_break_allowed(acc: &OnlineAccount, now: i64) -> (r: bool)
    ensures
        r == spec_ownership_break_allowed(*acc, now),
{
    let o = match &acc.ownership {
        Some(o) => o,
        None => return false,
    };
    let stage = match o.get_i64("Stage") {
        Some(s) => s,
        None => return false,
    };
    let start = match o.get_i64("Start") {
        Some(s) => s,
        None => return false,
    };
    if stage != 0 && start as i128 + OWNERSHIP_DELAY_MS as i128 > now as i128 {
        return false;
    }
    let level = match &acc.difficulty {
        Some(d) => match d.get_i64("Level") {
            Some(l) => l,
            None => 0,
        },
        None => 0,
    };
    !(level > 2 && stage != 0)
}

/// The notes an owner keeps on a collared submissive (stage 1, owned by
/// `src`): at most 4000 characters; empty or missing notes remove them.
pub open spec fn spec_notes_update(ownership: Option<JsonView>, src: i64, notes: Option<Seq<char>>) -> Option<JsonView> {
    match ownership {
        None => None,
        Some(o) => if o.get_i64("Stage"@) != Some(1i64) || o.get_i64("MemberNumber"@) != Some(src) {
            None
        } else {
            match o {
                JsonView::Object(e) => Some(
                    JsonView::Object(
                        match notes {
                            Some(n) => if n.len() > 0 {
                                entries_set(e, "Notes"@, JsonView::Str(crate::prison::take_upto(n, 4000)))
                            } else {
                                entries_remove(e, "Notes"@)
                            },
                            None => entries_remove(e, "Notes"@),
                        },
                    ),
                ),
                _ => Some(o),
            }
        },
    }
}

pub fn notes_update(ownership: &Option<Json>, src: i64, notes: Option<&str>) -> (r: Option<Json>)
    ensures
        crate::chat::opt_json(r) == spec_notes_update(
            crate::chat::opt_json(*ownership),
            src,
            match notes {
                Some(n) => Some(n@),
                None => None,
            },
        ),
{
    let o = match ownership {
        Some(o) => o,
        None => return None,
    };
    if o.get_i64("Stage") != Some(1) || o.get_i64("MemberNumber") != Some(src) {
        return None;
    }
    match o {
        Json::Object(_) => {
            let mut e = entries_copy(o);
            match notes {
                Some(n) => if crate::text::char_count(n) > 0 {
                    entries_insert(&mut e, crate::text::to_owned_string("Notes"), Json::Str(crate::text::take_chars(n, 4000)));
                } else {
                    entries_take(&mut e, "Notes");
                },
                None => {
                    entries_take(&mut e, "Notes");
                },
            }
            Some(Json::Object(e))
        },
        _ => Some(o.deep_clone()),
    }
}

/// An owner releasing a submissive present in the room: allowed when the
/// requester owns the target; whether it ends a trial (stage 0, or no
/// integer stage) rather than a collar.
pub open spec fn spec_release_in_room(ownership: Option<JsonView>, src: i64) -> Option<bool> {
    match ownership {
        Some(o) => if o.get_i64("MemberNumber"@) == Some(src) {
            Some(
                match o.get_i64("Stage"@) {
                    Some(s) => s == 0,
                    None => true,
                },
            )
        } else {
            None
        },
        None => None,
    }
}

pub fn release_in_room(ownership: &Option<Json>, src: i64) -> (r: Option<bool>)
    ensures
        r == spec_release_in_room(crate::chat::opt_json(*ownership), src),
{
    match ownership {
        Some(o) => if o.get_i64("MemberNumber") == Some(src) {
            Some(
                match o.get_i64("Stage") {
                    Some(s) => s == 0,
                    None => true,
                },
            )
        } else {
            None
        },
        None => None,
    }
}

/// What an owner-to-be may do towards a target.
#[derive(Clone, Copy, PartialEq, Eq, Structural, Debug)]
pub enum OwnerOffer {
    /// Nothing applies.
    Nothing,
    /// Nothing applies and no further step is looked at.
    Stop,
    OfferStartTrial,
    CanOfferStartTrial,
    OfferEndTrial,
    CanOfferEndTrial,
}

/// A trial that may end: owned by `src` for the delay, at stage 0, no end
/// offered yet.
pub open spec fn trial_may_end(o: JsonView, src: i64, now: i64) -> bool {
    &&& o.get_i64("MemberNumber"@) == Some(src)
    &&& o.get("EndTrialOfferedByMemberNumber"@) is None
    &&& o.get_i64("Stage"@) == Some(0i64)
    &&& o.get_i64("Start"@) matches Some(s) && s + OWNERSHIP_DELAY_MS <= now
}

/// The offer `src` (whose own ownership is `src_ownership`) makes to
/// `target`: none when `src` belongs to the target, when the target
/// black-lists `src` or has an owner's name; to an unowned target, an offer
/// of a trial (none to oneself, which ends the request); on a trial with
/// `src` that may end, an offer to end it. Made when `propose`, else
/// reported possible.
pub open spec fn spec_owner_offer(propose: bool, src_ownership: Option<JsonView>, src: i64, target: OnlineAccount, now: i64) -> OwnerOffer {
    let owned_by_target = match src_ownership {
        Some(o) => o.get_i64("MemberNumber"@) == Some(target.member_number),
        None => false,
    };
    let target_has_owner = match target.ownership {
        Some(o) => o@.get("MemberNumber"@) is Some,
        None => false,
    };
    if owned_by_target || target.black_list@.contains(src) || target.owner@.len() > 0 {
        OwnerOffer::Nothing
    } else if !target_has_owner {
        if src == target.member_number {
            OwnerOffer::Stop
        } else if propose {
            OwnerOffer::OfferStartTrial
        } else {
            OwnerOffer::CanOfferStartTrial
        }
    } else if trial_may_end(target.ownership.unwrap()@, src, now) {
        if propose {
            OwnerOffer::OfferEndTrial
        } else {
            OwnerOffer::CanOfferEndTrial
        }
    } else {
        OwnerOffer::Nothing
    }
}

/// No ownership offer reaches a target who black-lists the sender or
/// already has an owner's name, whatever is proposed and whenever; an offer
/// is made only when proposed, and only reported possible otherwise.
pub proof fn law_owner_offer_refusals(propose: bool, src_ownership: Option<JsonView>, src: i64, target: OnlineAccount, now: i64)
    ensures
        target.black_list@.contains(src) ==> spec_owner_offer(propose, src_ownership, src, target, now) == OwnerOffer::Nothing,
        target.owner@.len() > 0 ==> spec_owner_offer(propose, src_ownership, src, target, now) == OwnerOffer::Nothing,
        spec_owner_offer(propose, src_ownership, src, target, now) == OwnerOffer::OfferStartTrial
            || spec_owner_offer(propose, src_ownership, src, target, now) == OwnerOffer::OfferEndTrial ==> propose,
        spec_owner_offer(propose, src_ownership, src, target, now) == OwnerOffer::CanOfferStartTrial
            || spec_owner_offer(propose, src_ownership, src, target, now) == OwnerOffer::CanOfferEndTrial ==> !propose,
{
}

pub fn owner_offer(propose: bool, src_ownership: &Option<Json>, src: i64, target: &OnlineAccount, now: i64) -> (r: OwnerOffer)
    ensures
        target.black_list@.contains(src) ==> r == OwnerOffer::Nothing,
        target.owner@.len() > 0 ==> r == OwnerOffer::Nothing,
        r == spec_owner_offer(propose, crate::chat::opt_json(*src_ownership), src, *target, now),
{
    let owned_by_target = match src_ownership {
        Some(o) => o.get_i64("MemberNumber") == Some(target.member_number),
        None => false,
    };
    if owned_by_target || crate::lists::contains_i64(&target.black_list, src) || crate::text::char_count(
        target.owner.as_str(),
    ) > 0 {
        return OwnerOffer::Nothing;
    }
    let o = match &target.ownership {
        Some(o) => o,
        None => {
            return if src == target.member_number {
                OwnerOffer::Stop
            } else if propose {
                OwnerOffer::OfferStartTrial
            } else {
                OwnerOffer::CanOfferStartTrial
            };
        },
    };
    if o.get("MemberNumber").is_none() {
        return if src == target.member_number {
            OwnerOffer::Stop
        } else if propose {
            OwnerOffer::OfferStartTrial
        } else {
            OwnerOffer::CanOfferStartTrial
        };
    }
    let may_end = o.get_i64("MemberNumber") == Some(src) && o.get("EndTrialOfferedByMemberNumber").is_none()
        && o.get_i64("Stage") == Some(0) && match o.get_i64("Start") {
        Some(s) => s as i128 + OWNERSHIP_DELAY_MS as i128 <= now as i128,
        None => false,
    };
    if may_end {
        if propose {
            OwnerOffer::OfferEndTrial
        } else {
            OwnerOffer::CanOfferEndTrial
        }
    } else {
        OwnerOffer::Nothing
    }
}

/// The target's ownership once `src` offers a trial.
pub open spec fn start_trial_offer(src: i64) -> JsonView {
    JsonView::Object(seq![("StartTrialOfferedByMemberNumber"@, JsonView::Number(JsonNumber::Int(src)))])
}

pub fn make_start_trial_offer(src: i64) -> (r: Json)
    ensures
        r@ == start_trial_offer(src),
{
    let mut e: Vec<(String, Json)> = Vec::new();
    e.push((crate::text::to_owned_string("StartTrialOfferedByMemberNumber"), int_value(src)));
    proof {
        lemma_view_entries(e@);
        assert(view_entries(e@) =~= object_entries(start_trial_offer(src)));
    }
    Json::Object(e)
}

/// The target's ownership once `src` offers to end the trial.
pub fn make_end_trial_offer(ownership: &Json, src: i64) -> (r: Json)
    ensures
        r@ == with_offer(ownership@, "EndTrialOfferedByMemberNumber"@, src),
{
    with_offer_exec(ownership, "EndTrialOfferedByMemberNumber", src)
}

/// The ownership of a submissive at a stage: owner, owner's name, start.
pub open spec fn ownership_record(owner: i64, name: Seq<char>, start: i64, stage: i64) -> JsonView {
    lover_entry(owner, name, start, stage)
}

pub fn make_ownership(owner: i64, name: &str, start: i64, stage: i64) -> (r: Json)
    ensures
        r@ == ownership_record(owner, name@, start, stage),
{
    make_lover_entry(owner, name, start, stage)
}

/// What a submissive-to-be may accept from `target`, given its own
/// ownership: a trial offered by the target (stage 0 accepted), then the end
/// of a trial with the target (the collar, stage 1). Each entry: the stage
/// and whether it is accepted (else reported possible). Nothing applies
/// when `src` has another owner or the target black-lists `src`.
pub open spec fn spec_submissive_steps(accept: bool, src_ownership: Option<JsonView>, src: i64, target: i64, target_black_list: Seq<i64>) -> Seq<(i64, bool)> {
    let can_interact = match src_ownership {
        None => true,
        Some(o) => o.get_i64("MemberNumber"@) is None || o.get_i64("MemberNumber"@) == Some(target),
    };
    if !can_interact || target_black_list.contains(src) {
        Seq::empty()
    } else {
        match src_ownership {
            None => Seq::empty(),
            Some(o) => {
                let s1: Seq<(i64, bool)> = if o.get_i64("StartTrialOfferedByMemberNumber"@) == Some(target) {
                    seq![(0i64, accept)]
                } else {
                    Seq::empty()
                };
                let s2: Seq<(i64, bool)> = if o.get_i64("Stage"@) == Some(0i64) && o.get_i64("EndTrialOfferedByMemberNumber"@)
                    == Some(target) {
                    seq![(1i64, accept)]
                } else {
                    Seq::empty()
                };
                s1 + s2
            },
        }
    }
}

pub fn submissive_steps(accept: bool, src_ownership: &Option<Json>, src: i64, target: i64, target_black_list: &Vec<i64>) -> (r: Vec<(i64, bool)>)
    ensures
        r@ == spec_submissive_steps(accept, crate::chat::opt_json(*src_ownership), src, target, target_black_list@),
{
    let mut out: Vec<(i64, bool)> = Vec::new();
    let can_interact = match src_ownership {
        None => true,
        Some(o) => {
            let mn = o.get_i64("MemberNumber");
            mn.is_none() || mn == Some(target)
        },
    };
    if !can_interact || crate::lists::contains_i64(target_black_list, src) {
        assert(out@ =~= Seq::<(i64, bool)>::empty());
        return out;
    }
    let o = match src_ownership {
        Some(o) => o,
        None => {
            assert(out@ =~= Seq::<(i64, bool)>::empty());
            return out;
        },
    };
    if o.get_i64("StartTrialOfferedByMemberNumber") == Some(target) {
        out.push((0, accept));
    }
    if o.get_i64("Stage") == Some(0) && o.get_i64("EndTrialOfferedByMemberNumber") == Some(target) {
        out.push((1, accept));
    }
    proof {
        let s1: Seq<(i64, bool)> = if o@.get_i64("StartTrialOfferedByMemberNumber"@) == Some(target) {
            seq![(0i64, accept)]
        } else {
            Seq::empty()
        };
        let s2: Seq<(i64, bool)> = if o@.get_i64("Stage"@) == Some(0i64) && o@.get_i64("EndTrialOfferedByMemberNumber"@)
            == Some(target) {
            seq![(1i64, accept)]
        } else {
            Seq::empty()
        };
        assert(out@ =~= s1 + s2);
    }
    out
}


// ---------------------------------------------------------------------------
// Who a relation request may reach
// ---------------------------------------------------------------------------

/// Where an ownership request goes.
#[derive(Debug, Clone, Copy, PartialEq, Eq, Structural)]
pub enum OwnershipTarget {
    /// Nothing is done.
    Ignore,
    /// A release of a submissive who is not in the room: decided from the
    /// stored account.
    ReleaseOffline,
    /// The target is in the sender's room and online.
    InRoom,
}

/// An ownership request (other than a break) of the account on `sid` about
/// member `target`: the sender must be in a room; a release of a member not
/// in it is an offline release; otherwise the target must be a member of the
/// room and online.
pub open spec fn spec_ownership_target(w: World, sid: Seq<char>, target: i64, release: bool) -> OwnershipTarget {
    match current_room(w, sid) {
        None => OwnershipTarget::Ignore,
        Some(room) => if !room.members@.contains(target) {
            if release {
                OwnershipTarget::ReleaseOffline
            } else {
                OwnershipTarget::Ignore
            }
        } else if account_of_member(w, target) is Some {
            OwnershipTarget::InRoom
        } else {
            OwnershipTarget::Ignore
        },
    }
}

/// The route of an ownership request, see [`spec_ownership_target`].
pub fn ownership_target(world: &World, socket_id: &str, target: i64, release: bool) -> (r: OwnershipTarget)
    ensures
        r == spec_ownership_target(*world, socket_id@, target, release),
{
    let acc = match world.get_by_socket(socket_id) {
        Some(a) => a,
        None => return OwnershipTarget::Ignore,
    };
    let room = match &acc.chat_room_id {
        Some(rid) => match world.chat_rooms.get(rid.as_str()) {
            Some(room) => room,
            None => return OwnershipTarget::Ignore,
        },
        None => return OwnershipTarget::Ignore,
    };
    if !contains_i64(&room.members, target) {
        if release {
            OwnershipTarget::ReleaseOffline
        } else {
            OwnershipTarget::Ignore
        }
    } else if world.get_by_member(target).is_some() {
        OwnershipTarget::InRoom
    } else {
        OwnershipTarget::Ignore
    }
}

/// An offline release is allowed when the stored account's `Ownership`
/// names the sender as owner.
pub open spec fn spec_offline_release_allowed(doc: JsonView, owner: i64) -> bool {
    match doc.get("Ownership"@) {
        Some(o) => o.get_i64("MemberNumber"@) == Some(owner),
        None => false,
    }
}

/// Whether member `owner` may release the stored account `doc`, see
/// [`spec_offline_release_allowed`].
pub fn offline_release_allowed(doc: &Json, owner: i64) -> (r: bool)
    ensures
        r == spec_offline_release_allowed(doc@, owner),
{
    match doc.get("Ownership") {
        Some(o) => match o.get_i64("MemberNumber") {
            Some(m) => m == owner,
            None => false,
        },
        None => false,
    }
}

/// A lovership request (other than a break) of the account on `sid` about
/// member `target` is considered when the sender is in a room, the target is
/// another member of that room, online, and has not black-listed the sender.
pub open spec fn spec_lovership_target_ok(w: World, sid: Seq<char>, target: i64) -> bool {
    match current_room(w, sid) {
        None => false,
        Some(room) => {
            let src = account_at(w, sid).unwrap();
            &&& room.members@.contains(target)
            &&& src.member_number != target
            &&& account_of_member(w, target) matches Some(t) && !t.black_list@.contains(src.member_number)
        },
    }
}

/// Whether a lovership request may go on, see [`spec_lovership_target_ok`].
pub fn lovership_target_ok(world: &World, socket_id: &str, target: i64) -> (r: bool)
    ensures
        r == spec_lovership_target_ok(*world, socket_id@, target),
{
    let acc = match world.get_by_socket(socket_id) {
        Some(a) => a,
        None => return false,
    };
    let room = match &acc.chat_room_id {
        Some(rid) => match world.chat_rooms.get(rid.as_str()) {
            Some(room) => room,
            None => return false,
        },
        None => return false,
    };
    if !contains_i64(&room.members, target) || acc.member_number == target {
        return false;
    }
    match world.get_by_member(target) {
        Some(t) => !contains_i64(&t.black_list, acc.member_number),
        None => false,
    }
}

} // verus!
