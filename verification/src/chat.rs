//! Chat-room rules between characters: who may use items on whom, and the
//! normalisation of character updates.

use vstd::prelude::*;
use crate::json::{Json, JsonView, number_trunc, view_items, lemma_view_items, opt_view};
use crate::lists::{first_where, lemma_first_where_at, lemma_first_where_none, lemma_filter_take_step};
use crate::state::account::OnlineAccount;
use crate::state::world::{World, account_at, account_of_member};

verus! {

/// The value of an optional document.
pub open spec fn opt_json(o: Option<Json>) -> Option<JsonView> {
    match o {
        Some(v) => Some(v@),
        None => None,
    }
}

/// A reputation entry of type "Dominant" with a number for its value.
pub open spec fn is_dominant_entry() -> spec_fn(JsonView) -> bool {
    |e: JsonView|
        e.get_str("Type"@) == Some("Dominant"@) && match e.get("Value"@) {
            Some(JsonView::Number(_)) => true,
            _ => false,
        }
}

/// The Dominant reputation: the (truncated) value of the first "Dominant"
/// entry with a number for its value, 0 when there is none.
pub open spec fn spec_dominant_value(reputation: Option<JsonView>) -> i64 {
    match reputation {
        Some(JsonView::Array(rs)) => {
            let i = first_where(rs, is_dominant_entry());
            if i < 0 {
                0
            } else {
                match rs[i].get("Value"@) {
                    Some(JsonView::Number(n)) => number_trunc(n),
                    _ => 0,
                }
            }
        },
        _ => 0,
    }
}

/// The Dominant reputation of an account.
pub fn dominant_value(acc: &OnlineAccount) -> (r: i64)
    ensures
        r == spec_dominant_value(opt_json(acc.reputation)),
{
    let rep = match &acc.reputation {
        Some(r) => r,
        None => return 0,
    };
    let rs = match rep.as_array() {
        Some(rs) => rs,
        None => return 0,
    };
    let ghost rv = view_items(rs@);
    let ghost p = is_dominant_entry();
    proof {
        lemma_view_items(rs@);
    }
    let mut i: usize = 0;
    while i < rs.len()
        invariant
            i <= rs.len(),
            rv == view_items(rs@),
            p == is_dominant_entry(),
            opt_json(acc.reputation) == Some(JsonView::Array(rv)),
            rv.len() == rs.len(),
            forall|k: int| 0 <= k < rs.len() ==> #[trigger] rv[k] == rs@[k]@,
            forall|j: int| 0 <= j < i ==> !p(#[trigger] rv[j]),
        decreases rs.len() - i,
    {
        let e = &rs[i];
        assert(rv[i as int] == e@);
        let is_dom = match e.get_str("Type") {
            Some(t) => crate::text::str_eq(t, "Dominant"),
            None => false,
        };
        if is_dom {
            match e.get("Value") {
                Some(Json::Number(n)) => {
                    proof {
                        lemma_first_where_at(rv, p, i as int);
                    }
                    return match n {
                        crate::json::JsonNumber::Int(v) => *v,
                        crate::json::JsonNumber::Big(_) => i64::MAX,
                        crate::json::JsonNumber::Float(f) => f.trunc,
                    };
                },
                _ => {},
            }
        }
        i += 1;
    }
    proof {
        lemma_first_where_none(rv, p);
    }
    0
}

/// `m` is one of the account's lovers.
pub open spec fn is_lover(target: OnlineAccount, m: i64) -> bool {
    exists|i: int| 0 <= i < target.lovership@.len() && (#[trigger] target.lovership@[i])@.get_i64("MemberNumber"@) == Some(m)
}

/// `m` owns the account.
pub open spec fn is_owner(target: OnlineAccount, m: i64) -> bool {
    match target.ownership {
        Some(o) => o@.get_i64("MemberNumber"@) == Some(m),
        None => false,
    }
}

/// Whether `source` may use items on `target`, by the target's item
/// permission: oneself and the owner always may; at 0 anyone; at 1 anyone
/// not black-listed; at 2 anyone not black-listed who is at most 25 below
/// the target in Dominant reputation, white-listed or a lover; at 3 the
/// white-listed and lovers; at 4 lovers; above that no one. A negative
/// permission counts as 2.
pub open spec fn spec_allow_item(source: OnlineAccount, target: OnlineAccount) -> bool {
    let s = source.member_number;
    if s == target.member_number {
        true
    } else if is_owner(target, s) {
        true
    } else {
        let perm = if target.item_permission < 0 {
            2
        } else {
            target.item_permission
        };
        let black = target.black_list@.contains(s);
        let white = target.white_list@.contains(s);
        let lover = is_lover(target, s);
        if perm <= 0 {
            true
        } else if perm == 1 {
            !black
        } else if perm == 2 {
            !black && (spec_dominant_value(opt_json(source.reputation)) + 25 >= spec_dominant_value(
                opt_json(target.reputation),
            ) || white || lover)
        } else if perm == 3 {
            white || lover
        } else if perm == 4 {
            lover
        } else {
            false
        }
    }
}

pub fn lover_of(target: &OnlineAccount, m: i64) -> (r: bool)
    ensures
        r == is_lover(*target, m),
{
    let mut i: usize = 0;
    while i < target.lovership.len()
        invariant
            i <= target.lovership.len(),
            forall|j: int| 0 <= j < i ==> (#[trigger] target.lovership@[j])@.get_i64("MemberNumber"@) != Some(m),
        decreases target.lovership.len() - i,
    {
        if target.lovership[i].get_i64("MemberNumber") == Some(m) {
            return true;
        }
        i += 1;
    }
    false
}

/// Whether `source` may use items on `target`, see [`spec_allow_item`].
/// Who may use items on whom, level by level: oneself and the owner
/// always; at permission 0 anyone; at 1 and 2 no black-listed member; at 3
/// the white-listed and lovers and no one else; at 4 lovers and no one else;
/// above 4 no one else.
pub proof fn law_allow_item_levels(source: OnlineAccount, target: OnlineAccount)
    ensures
        source.member_number == target.member_number ==> spec_allow_item(source, target),
        is_owner(target, source.member_number) ==> spec_allow_item(source, target),
        target.item_permission == 0 ==> spec_allow_item(source, target),
        target.item_permission == 3 && target.white_list@.contains(source.member_number) ==> spec_allow_item(
            source,
            target,
        ),
        (target.item_permission == 3 || target.item_permission == 4) && is_lover(target, source.member_number)
            ==> spec_allow_item(source, target),
        ({
            let other = source.member_number != target.member_number && !is_owner(target, source.member_number);
            &&& other && (1 <= target.item_permission <= 2 || target.item_permission < 0)
                && target.black_list@.contains(source.member_number) ==> !spec_allow_item(source, target)
            &&& other && target.item_permission == 3 && !target.white_list@.contains(source.member_number)
                && !is_lover(target, source.member_number) ==> !spec_allow_item(source, target)
            &&& other && target.item_permission == 4 && !is_lover(target, source.member_number)
                ==> !spec_allow_item(source, target)
            &&& other && target.item_permission > 4 ==> !spec_allow_item(source, target)
        }),
{
}

pub fn chat_room_get_allow_item(source: &OnlineAccount, target: &OnlineAccount) -> (r: bool)
    ensures
        target.item_permission == 3 && target.white_list@.contains(source.member_number) ==> r,
        target.item_permission == 0 ==> r,
        source.member_number == target.member_number ==> r,
        r == spec_allow_item(*source, *target),
{
    let s = source.member_number;
    if s == target.member_number {
        return true;
    }
    if let Some(o) = &target.ownership {
        if o.get_i64("MemberNumber") == Some(s) {
            return true;
        }
    }
    let perm = if target.item_permission < 0 {
        2
    } else {
        target.item_permission
    };
    if perm <= 0 {
        return true;
    }
    if perm == 1 {
        return !crate::lists::contains_i64(&target.black_list, s);
    }
    if perm == 2 {
        if crate::lists::contains_i64(&target.black_list, s) {
            return false;
        }
        return dominant_value(source) as i128 + 25 >= dominant_value(target) as i128
            || crate::lists::contains_i64(&target.white_list, s) || lover_of(target, s);
    }
    if perm == 3 {
        return crate::lists::contains_i64(&target.white_list, s) || lover_of(target, s);
    }
    if perm == 4 {
        return lover_of(target, s);
    }
    false
}

/// The answer to an allow-item query of the account on socket `sid` about
/// member `target`: none when the asker is not online; otherwise whether
/// the target is in the asker's room and the asker may use items on them.
pub open spec fn spec_allow_item_query(w: World, sid: Seq<char>, target: i64) -> Option<bool> {
    match account_at(w, sid) {
        None => None,
        Some(src) => Some(
            match src.chat_room_id {
                Some(rid) => if w.chat_rooms.map().contains_key(rid@) && w.chat_rooms.map()[rid@].members@.contains(
                    target,
                ) {
                    match account_of_member(w, target) {
                        Some(t) => spec_allow_item(src, t),
                        None => false,
                    }
                } else {
                    false
                },
                None => false,
            },
        ),
    }
}

pub fn allow_item_query(world: &World, socket_id: &str, target: i64) -> (r: Option<bool>)
    ensures
        r == spec_allow_item_query(*world, socket_id@, target),
{
    let src = match world.get_by_socket(socket_id) {
        Some(a) => a,
        None => return None,
    };
    let rid = match &src.chat_room_id {
        Some(rid) => rid,
        None => return Some(false),
    };
    let room = match world.chat_rooms.get(rid.as_str()) {
        Some(room) => room,
        None => return Some(false),
    };
    if !crate::lists::contains_i64(&room.members, target) {
        return Some(false);
    }
    match world.get_by_member(target) {
        Some(t) => Some(chat_room_get_allow_item(src, t)),
        None => Some(false),
    }
}

/// The pose of a pose update: the texts of an array, a text as a list of
/// one, anything else as an empty list; none without a `Pose`.
pub open spec fn spec_normalize_pose(data: JsonView) -> Option<JsonView> {
    match data.get("Pose"@) {
        Some(JsonView::Array(a)) => Some(JsonView::Array(a.filter(|p: JsonView| p is Str))),
        Some(JsonView::Str(s)) => Some(JsonView::Array(seq![JsonView::Str(s)])),
        Some(_) => Some(JsonView::Array(Seq::empty())),
        None => None,
    }
}

pub fn normalize_pose(data: &Json) -> (r: Option<Json>)
    ensures
        opt_json(r) == spec_normalize_pose(data@),
{
    match data.get("Pose") {
        Some(Json::Array(a)) => {
            let ghost av = view_items(a@);
            let ghost p = |x: JsonView| x is Str;
            proof {
                lemma_view_items(a@);
            }
            let mut out: Vec<Json> = Vec::new();
            let mut i: usize = 0;
            while i < a.len()
                invariant
                    i <= a.len(),
                    av == view_items(a@),
                    av.len() == a.len(),
                    p == (|x: JsonView| x is Str),
                    forall|k: int| 0 <= k < a.len() ==> #[trigger] av[k] == a@[k]@,
                    view_items(out@) == av.take(i as int).filter(p),
                decreases a.len() - i,
            {
                proof {
                    lemma_filter_take_step(av, p, i as int);
                    lemma_view_items(out@);
                }
                if a[i].is_string() {
                    let c = a[i].deep_clone();
                    let ghost before = out@;
                    out.push(c);
                    proof {
                        lemma_view_items(before);
                        lemma_view_items(out@);
                        assert(view_items(out@) =~= view_items(before).push(av[i as int]));
                    }
                }
                i += 1;
            }
            proof {
                assert(av.take(a.len() as int) =~= av);
            }
            Some(Json::Array(out))
        },
        Some(Json::Str(s)) => {
            let mut out: Vec<Json> = Vec::new();
            out.push(Json::Str(s.clone()));
            proof {
                lemma_view_items(out@);
                assert(view_items(out@) =~= seq![JsonView::Str(s@)]);
            }
            Some(Json::Array(out))
        },
        Some(_) => {
            let out: Vec<Json> = Vec::new();
            proof {
                assert(view_items(out@) =~= Seq::<JsonView>::empty());
            }
            Some(Json::Array(out))
        },
        None => None,
    }
}

} // verus!
