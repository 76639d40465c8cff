//! Room administration: who may administer, the edits of the member lists
//! and of the member order, and room updates.

use vstd::prelude::*;
use rand::seq::SliceRandom;
use crate::json::{Json, JsonView, view_items, lemma_view_items, opt_view};
use crate::lists::{has_text, texts, contains_str, without, push_unique, retain_ne};
use crate::room::{
    created_limit, short_text_field, text_items, int_items, all_ints, is_array, is_bool, non_null,
};
use crate::state::account::OnlineAccount;
use crate::state::chatroom::{ChatRoom, strings_view};
use crate::state::world::{World, account_at, room_name_taken, spec_room_key};
use crate::text::{spec_trim, spec_to_uppercase, byte_count};

verus! {

broadcast use vstd::multiset::group_multiset_axioms;

/// An administration request of the account on socket `sid`: an `Action`
/// text and an integer `MemberNumber`, from an online admin of an existing
/// room; only reordering ("Swap", "MoveLeft", "MoveRight") may name oneself.
/// The action, the target and the room id.
pub open spec fn spec_admin_request(w: World, sid: Seq<char>, data: JsonView) -> Option<(Seq<char>, i64, Seq<char>)> {
    match (data.get_str("Action"@), data.get_i64("MemberNumber"@)) {
        (Some(action), Some(target)) => match account_at(w, sid) {
            None => None,
            Some(acc) => match acc.chat_room_id {
                None => None,
                Some(rid) => if !w.chat_rooms.map().contains_key(rid@) {
                    None
                } else if !w.chat_rooms.map()[rid@].admin@.contains(acc.member_number) {
                    None
                } else if acc.member_number == target && action != "Swap"@ && action != "MoveLeft"@ && action
                    != "MoveRight"@ {
                    None
                } else {
                    Some((action, target, rid@))
                },
            },
        },
        _ => None,
    }
}

pub fn admin_request(world: &World, socket_id: &str, data: &Json) -> (r: Option<(String, i64, String)>)
    ensures
        match spec_admin_request(*world, socket_id@, data@) {
            Some((a, t, rid)) => r matches Some(x) && x.0@ == a && x.1 == t && x.2@ == rid,
            None => r is None,
        },
{
    let action = match data.get_str("Action") {
        Some(a) => a,
        None => return None,
    };
    let target = match data.get_i64("MemberNumber") {
        Some(t) => t,
        None => return None,
    };
    let acc = match world.get_by_socket(socket_id) {
        Some(a) => a,
        None => return None,
    };
    let rid = match &acc.chat_room_id {
        Some(r) => r,
        None => return None,
    };
    let room = match world.chat_rooms.get(rid.as_str()) {
        Some(r) => r,
        None => return None,
    };
    if !crate::lists::contains_i64(&room.admin, acc.member_number) {
        return None;
    }
    if acc.member_number == target && !crate::text::str_eq(action, "Swap") && !crate::text::str_eq(action, "MoveLeft")
        && !crate::text::str_eq(action, "MoveRight") {
        return None;
    }
    Some((crate::text::to_owned_string(action), target, rid.clone()))
}

// ---------------------------------------------------------------------------
// Member lists and order
// ---------------------------------------------------------------------------

/// The list with `m` added at the end unless it holds it.
pub open spec fn with_member(v: Seq<i64>, m: i64) -> Seq<i64> {
    if v.contains(m) {
        v
    } else {
        v.push(m)
    }
}

/// What an edit of a room's lists or order did.
#[derive(Clone, Copy, PartialEq, Eq, Structural, Debug)]
pub enum AdminEdit {
    /// Nothing was done.
    Nothing,
    /// The ban list changed (the target, if in the room, is then removed).
    Banned,
    /// The target is to be removed from the room.
    Kicked,
    /// The member order changed.
    Reordered,
    Promoted,
    Demoted,
    Whitelisted,
    Unwhitelisted,
    Unbanned,
}

/// The edit an action makes on a room, for a target at position `idx` of
/// its members (none: not in the room). In the room: "Ban", "Kick",
/// "MoveLeft", "MoveRight", "Shuffle", "Promote", "Demote", "Whitelist",
/// "Unwhitelist"; outside it: "Ban", "Unban", "Whitelist", "Unwhitelist".
/// The kind of edit; the lists' changes are stated on the room.
pub open spec fn spec_admin_edit_kind(action: Seq<char>, in_room: bool, idx: int, len: int) -> AdminEdit {
    if in_room {
        if action == "Ban"@ {
            AdminEdit::Banned
        } else if action == "Kick"@ {
            AdminEdit::Kicked
        } else if action == "MoveLeft"@ && idx > 0 {
            AdminEdit::Reordered
        } else if action == "MoveRight"@ && idx + 1 < len {
            AdminEdit::Reordered
        } else if action == "Shuffle"@ {
            AdminEdit::Reordered
        } else if action == "Promote"@ {
            AdminEdit::Promoted
        } else if action == "Demote"@ {
            AdminEdit::Demoted
        } else if action == "Whitelist"@ {
            AdminEdit::Whitelisted
        } else if action == "Unwhitelist"@ {
            AdminEdit::Unwhitelisted
        } else {
            AdminEdit::Nothing
        }
    } else {
        if action == "Ban"@ {
            AdminEdit::Banned
        } else if action == "Unban"@ {
            AdminEdit::Unbanned
        } else if action == "Whitelist"@ {
            AdminEdit::Whitelisted
        } else if action == "Unwhitelist"@ {
            AdminEdit::Unwhitelisted
        } else {
            AdminEdit::Nothing
        }
    }
}

/// `SliceRandom::shuffle` with the thread's random generator: the members
/// in some order.
#[verifier::external_body]
fn shuffle_members(v: &mut Vec<i64>)
    ensures
        final(v)@.to_multiset() == old(v)@.to_multiset(),
        final(v)@.len() == old(v)@.len(),
{
    v.shuffle(&mut rand::thread_rng());
}

/// Swaps two positions of a list.
pub fn swap_at(v: &mut Vec<i64>, i: usize, j: usize)
    requires
        i < old(v)@.len(),
        j < old(v)@.len(),
    ensures
        final(v)@ == old(v)@.update(i as int, old(v)@[j as int]).update(j as int, old(v)@[i as int]),
        final(v)@.to_multiset() == old(v)@.to_multiset(),
{
    let ghost ms = v@;
    let a = v[i];
    let b = v[j];
    v.set(i, b);
    v.set(j, a);
    proof {
        if i != j {
            let s1 = ms.update(i as int, ms[j as int]);
            vstd::seq_lib::to_multiset_update(ms, i as int, ms[j as int]);
            vstd::seq_lib::to_multiset_update(s1, j as int, ms[i as int]);
            assert(s1[j as int] == ms[j as int]);
            assert(ms.to_multiset().contains(ms[i as int])) by {
                vstd::seq_lib::to_multiset_contains(ms, ms[i as int]);
                assert(ms.contains(ms[i as int]));
            }
            assert(v@.to_multiset() =~= ms.to_multiset());
        } else {
            assert(v@ =~= ms);
        }
    }
}

/// The edit itself, see [`admin_edit`].
fn edit_room_lists(room: &mut ChatRoom, action: &str, target: i64) -> (r: AdminEdit)
    ensures
        ({
            let idx = crate::lists::first_where(old(room).members@, crate::lists::equals(target));
            r == spec_admin_edit_kind(action@, idx >= 0, idx, old(room).members@.len() as int)
        }),
        final(room).ban@ == if r == AdminEdit::Banned {
            with_member(old(room).ban@, target)
        } else if r == AdminEdit::Unbanned {
            without(old(room).ban@, target)
        } else {
            old(room).ban@
        },
        final(room).admin@ == if r == AdminEdit::Promoted {
            with_member(old(room).admin@, target)
        } else if r == AdminEdit::Demoted {
            without(old(room).admin@, target)
        } else {
            old(room).admin@
        },
        final(room).whitelist@ == if r == AdminEdit::Whitelisted {
            with_member(old(room).whitelist@, target)
        } else if r == AdminEdit::Unwhitelisted {
            without(old(room).whitelist@, target)
        } else {
            old(room).whitelist@
        },
        r == AdminEdit::Reordered && action@ == "MoveLeft"@ ==> ({
            let idx = crate::lists::first_where(old(room).members@, crate::lists::equals(target));
            let ms = old(room).members@;
            final(room).members@ == ms.update(idx, ms[idx - 1]).update(idx - 1, ms[idx])
        }),
        r == AdminEdit::Reordered && action@ == "MoveRight"@ ==> ({
            let idx = crate::lists::first_where(old(room).members@, crate::lists::equals(target));
            let ms = old(room).members@;
            final(room).members@ == ms.update(idx, ms[idx + 1]).update(idx + 1, ms[idx])
        }),
        r == AdminEdit::Reordered ==> final(room).members@.to_multiset() == old(room).members@.to_multiset(),
        r != AdminEdit::Reordered ==> final(room).members == old(room).members,
        *final(room) == (ChatRoom {
            ban: final(room).ban,
            admin: final(room).admin,
            whitelist: final(room).whitelist,
            members: final(room).members,
            ..*old(room)
        }),
{
    proof {
        reveal_strlit("Ban");
        reveal_strlit("Kick");
        reveal_strlit("MoveLeft");
        reveal_strlit("MoveRight");
        reveal_strlit("Shuffle");
        reveal_strlit("Promote");
        reveal_strlit("Demote");
        reveal_strlit("Whitelist");
        reveal_strlit("Unwhitelist");
        reveal_strlit("Unban");
        assert("MoveLeft"@.len() == 8);
        assert("MoveRight"@.len() == 9);
        assert("Shuffle"@.len() == 7);
    }
    let ghost p = crate::lists::equals(target);
    let idx = crate::lists::position_i64(&room.members, target);
    proof {
        match idx {
            Some(i) => crate::lists::lemma_first_where_at(room.members@, p, i as int),
            None => crate::lists::lemma_first_where_none(room.members@, p),
        }
    }
    let ghost ms = room.members@;
    let len = room.members.len();
    match idx {
        Some(a) => {
            if crate::text::str_eq(action, "Ban") {
                push_unique(&mut room.ban, target);
                AdminEdit::Banned
            } else if crate::text::str_eq(action, "Kick") {
                AdminEdit::Kicked
            } else if crate::text::str_eq(action, "MoveLeft") && a > 0 {
                swap_at(&mut room.members, a, a - 1);
                AdminEdit::Reordered
            } else if crate::text::str_eq(action, "MoveRight") && a + 1 < len {
                swap_at(&mut room.members, a, a + 1);
                AdminEdit::Reordered
            } else if crate::text::str_eq(action, "Shuffle") {
                shuffle_members(&mut room.members);
                AdminEdit::Reordered
            } else if crate::text::str_eq(action, "Promote") {
                push_unique(&mut room.admin, target);
                AdminEdit::Promoted
            } else if crate::text::str_eq(action, "Demote") {
                retain_ne(&mut room.admin, target);
                AdminEdit::Demoted
            } else if crate::text::str_eq(action, "Whitelist") {
                push_unique(&mut room.whitelist, target);
                AdminEdit::Whitelisted
            } else if crate::text::str_eq(action, "Unwhitelist") {
                retain_ne(&mut room.whitelist, target);
                AdminEdit::Unwhitelisted
            } else {
                AdminEdit::Nothing
            }
        },
        None => {
            if crate::text::str_eq(action, "Ban") {
                push_unique(&mut room.ban, target);
                AdminEdit::Banned
            } else if crate::text::str_eq(action, "Unban") {
                retain_ne(&mut room.ban, target);
                AdminEdit::Unbanned
            } else if crate::text::str_eq(action, "Whitelist") {
                push_unique(&mut room.whitelist, target);
                AdminEdit::Whitelisted
            } else if crate::text::str_eq(action, "Unwhitelist") {
                retain_ne(&mut room.whitelist, target);
                AdminEdit::Unwhitelisted
            } else {
                AdminEdit::Nothing
            }
        },
    }
}

/// Applies an administration action to a room, see
/// [`spec_admin_edit_kind`]: the ban, admin and white lists gain or lose
/// the target, the order moves the target one place or is shuffled.
pub fn admin_edit(room: &mut ChatRoom, action: &str, target: i64) -> (r: AdminEdit)
    ensures
        ({
            let idx = crate::lists::first_where(old(room).members@, crate::lists::equals(target));
            r == spec_admin_edit_kind(action@, idx >= 0, idx, old(room).members@.len() as int)
        }),
        final(room).ban@ == if r == AdminEdit::Banned {
            with_member(old(room).ban@, target)
        } else if r == AdminEdit::Unbanned {
            without(old(room).ban@, target)
        } else {
            old(room).ban@
        },
        final(room).admin@ == if r == AdminEdit::Promoted {
            with_member(old(room).admin@, target)
        } else if r == AdminEdit::Demoted {
            without(old(room).admin@, target)
        } else {
            old(room).admin@
        },
        final(room).whitelist@ == if r == AdminEdit::Whitelisted {
            with_member(old(room).whitelist@, target)
        } else if r == AdminEdit::Unwhitelisted {
            without(old(room).whitelist@, target)
        } else {
            old(room).whitelist@
        },
        r == AdminEdit::Reordered && action@ == "MoveLeft"@ ==> ({
            let idx = crate::lists::first_where(old(room).members@, crate::lists::equals(target));
            let ms = old(room).members@;
            final(room).members@ == ms.update(idx, ms[idx - 1]).update(idx - 1, ms[idx])
        }),
        r == AdminEdit::Reordered && action@ == "MoveRight"@ ==> ({
            let idx = crate::lists::first_where(old(room).members@, crate::lists::equals(target));
            let ms = old(room).members@;
            final(room).members@ == ms.update(idx, ms[idx + 1]).update(idx + 1, ms[idx])
        }),
        r == AdminEdit::Reordered ==> final(room).members@.to_multiset() == old(room).members@.to_multiset(),
        r != AdminEdit::Reordered ==> final(room).members == old(room).members,
        *final(room) == (ChatRoom {
            ban: final(room).ban,
            admin: final(room).admin,
            whitelist: final(room).whitelist,
            members: final(room).members,
            ..*old(room)
        }),
        action@ == "Ban"@ ==> r == AdminEdit::Banned && final(room).ban@.contains(target) && forall|x: i64|
            old(room).ban@.contains(x) ==> #[trigger] final(room).ban@.contains(x),
        action@ == "Unban"@ && !old(room).members@.contains(target) ==> r == AdminEdit::Unbanned
            && !final(room).ban@.contains(target) && forall|x: i64|
            old(room).ban@.contains(x) && x != target ==> #[trigger] final(room).ban@.contains(x),
        action@ == "Unban"@ && old(room).members@.contains(target) ==> r == AdminEdit::Nothing
            && final(room).ban@ == old(room).ban@,
        action@ == "Kick"@ && old(room).members@.contains(target) ==> r == AdminEdit::Kicked,
        action@ == "Promote"@ && old(room).members@.contains(target) ==> final(room).admin@.contains(target),
        action@ == "Demote"@ && old(room).members@.contains(target) ==> !final(room).admin@.contains(target),
        action@ == "Whitelist"@ ==> final(room).whitelist@.contains(target),
        action@ == "Unwhitelist"@ ==> !final(room).whitelist@.contains(target),
        final(room).members@.to_multiset() == old(room).members@.to_multiset(),
{
    let ghost before = *room;
    let r = edit_room_lists(room, action, target);
    proof {
        reveal_strlit("Ban");
        reveal_strlit("Kick");
        reveal_strlit("MoveLeft");
        reveal_strlit("MoveRight");
        reveal_strlit("Shuffle");
        reveal_strlit("Promote");
        reveal_strlit("Demote");
        reveal_strlit("Whitelist");
        reveal_strlit("Unwhitelist");
        reveal_strlit("Unban");
        crate::lists::lemma_first_where_equals(before.members@, target);
        crate::lists::lemma_without(before.ban@, target);
        crate::lists::lemma_without(before.admin@, target);
        crate::lists::lemma_without(before.whitelist@, target);
        lemma_with_member(before.ban@, target);
        lemma_with_member(before.admin@, target);
        lemma_with_member(before.whitelist@, target);
        assert("Ban"@.len() == 3 && "Kick"@.len() == 4 && "Unban"@.len() == 5 && "Demote"@.len() == 6);
        assert("Shuffle"@.len() == 7 && "Promote"@.len() == 7 && "MoveLeft"@.len() == 8);
        assert("MoveRight"@.len() == 9 && "Whitelist"@.len() == 9 && "Unwhitelist"@.len() == 11);
        assert("Shuffle"@[0] != "Promote"@[0]);
        assert("MoveRight"@[0] != "Whitelist"@[0]);
    }
    r
}

/// A ban always bans, and an unban of someone outside the room always
/// unbans, wherever the target stands and however many members there are.
pub proof fn law_ban_and_unban_take_effect(in_room: bool, idx: int, len: int)
    ensures
        spec_admin_edit_kind("Ban"@, in_room, idx, len) == AdminEdit::Banned,
        spec_admin_edit_kind("Unban"@, false, idx, len) == AdminEdit::Unbanned,
{
    reveal_strlit("Ban");
    reveal_strlit("Unban");
    assert("Ban"@.len() == 3 && "Unban"@.len() == 5);
}

/// `with_member(v, m)` holds `m` and every element of `v`.
proof fn lemma_with_member(v: Seq<i64>, m: i64)
    ensures
        with_member(v, m).contains(m),
        forall|x: i64| v.contains(x) ==> #[trigger] with_member(v, m).contains(x),
{
    if !v.contains(m) {
        assert(v.push(m)[v.len() as int] == m);
        assert forall|x: i64| v.contains(x) implies #[trigger] with_member(v, m).contains(x) by {
            let i = choose|i: int| 0 <= i < v.len() && v[i] == x;
            assert(v.push(m)[i] == x);
        }
    }
}

/// Swaps two members of a room, by member number; nothing when they are the
/// same or either is not in the room. Whether the order changed.
pub open spec fn spec_swap_members(ms: Seq<i64>, t: i64, d: i64) -> Option<Seq<i64>> {
    let ti = crate::lists::first_where(ms, crate::lists::equals(t));
    let di = crate::lists::first_where(ms, crate::lists::equals(d));
    if t == d || ti < 0 || di < 0 {
        None
    } else {
        Some(ms.update(ti, ms[di]).update(di, ms[ti]))
    }
}

pub fn swap_members(members: &mut Vec<i64>, t: i64, d: i64) -> (r: bool)
    ensures
        match spec_swap_members(old(members)@, t, d) {
            Some(ms) => r && final(members)@ == ms,
            None => !r && final(members)@ == old(members)@,
        },
{
    if t == d {
        return false;
    }
    let ti = crate::lists::position_i64(members, t);
    let di = crate::lists::position_i64(members, d);
    proof {
        match ti {
            Some(i) => crate::lists::lemma_first_where_at(members@, crate::lists::equals(t), i as int),
            None => crate::lists::lemma_first_where_none(members@, crate::lists::equals(t)),
        }
        match di {
            Some(i) => crate::lists::lemma_first_where_at(members@, crate::lists::equals(d), i as int),
            None => crate::lists::lemma_first_where_none(members@, crate::lists::equals(d)),
        }
    }
    match (ti, di) {
        (Some(ti), Some(di)) => {
            swap_at(members, ti, di);
            true
        },
        _ => false,
    }
}

// ---------------------------------------------------------------------------
// Room updates
// ---------------------------------------------------------------------------

/// The texts among a list's items, in order.
pub open spec fn texts_among(a: Seq<JsonView>) -> Seq<Seq<char>> {
    a.filter(|x: JsonView| x is Str).map_values(|x: JsonView| x.as_str().unwrap())
}

/// The integers among a list's items, in order.
pub open spec fn ints_among(a: Seq<JsonView>) -> Seq<i64> {
    a.filter(|x: JsonView| x.as_i64() is Some).map_values(|x: JsonView| x.as_i64().unwrap())
}

pub fn filter_texts(a: &Vec<Json>) -> (r: Vec<String>)
    ensures
        strings_view(r@) == texts_among(view_items(a@)),
{
    let ghost av = view_items(a@);
    let ghost p = |x: JsonView| x is Str;
    let ghost f = |x: JsonView| x.as_str().unwrap();
    proof {
        lemma_view_items(a@);
    }
    let mut out: Vec<String> = Vec::new();
    let mut i: usize = 0;
    while i < a.len()
        invariant
            i <= a.len(),
            av == view_items(a@),
            av.len() == a.len(),
            p == (|x: JsonView| x is Str),
            f == (|x: JsonView| x.as_str().unwrap()),
            forall|k: int| 0 <= k < a.len() ==> #[trigger] av[k] == crate::json::json_view(a@[k]),
            strings_view(out@) == av.take(i as int).filter(p).map_values(f),
        decreases a.len() - i,
    {
        proof {
            crate::lists::lemma_filter_take_step(av, p, i as int);
        }
        let ghost before = av.take(i as int).filter(p);
        let ghost sv = strings_view(out@);
        if let Some(t) = a[i].as_str() {
            out.push(crate::text::to_owned_string(t));
            proof {
                assert(strings_view(out@) =~= sv.push(t@));
                assert(before.push(av[i as int]).map_values(f) =~= before.map_values(f).push(f(av[i as int])));
            }
        }
        i += 1;
    }
    proof {
        assert(av.take(a.len() as int) =~= av);
    }
    out
}

pub fn filter_ints(a: &Vec<Json>) -> (r: Vec<i64>)
    ensures
        r@ == ints_among(view_items(a@)),
{
    let ghost av = view_items(a@);
    let ghost p = |x: JsonView| x.as_i64() is Some;
    let ghost f = |x: JsonView| x.as_i64().unwrap();
    proof {
        lemma_view_items(a@);
    }
    let mut out: Vec<i64> = Vec::new();
    let mut i: usize = 0;
    while i < a.len()
        invariant
            i <= a.len(),
            av == view_items(a@),
            av.len() == a.len(),
            p == (|x: JsonView| x.as_i64() is Some),
            f == (|x: JsonView| x.as_i64().unwrap()),
            forall|k: int| 0 <= k < a.len() ==> #[trigger] av[k] == crate::json::json_view(a@[k]),
            out@ == av.take(i as int).filter(p).map_values(f),
        decreases a.len() - i,
    {
        proof {
            crate::lists::lemma_filter_take_step(av, p, i as int);
        }
        let ghost before = av.take(i as int).filter(p);
        if let Some(n) = a[i].as_i64() {
            out.push(n);
            proof {
                assert(before.push(av[i as int]).map_values(f) =~= before.map_values(f).push(f(av[i as int])));
            }
        }
        i += 1;
    }
    proof {
        assert(av.take(a.len() as int) =~= av);
    }
    out
}

/// The part of an update request that describes the room: its `Room`, or
/// the request itself without one.
pub open spec fn update_room_data(data: JsonView) -> JsonView {
    match data.get("Room"@) {
        Some(r) => r,
        None => data,
    }
}

/// A member list that must be given: the integers of a list of integers.
pub open spec fn required_members(v: Option<JsonView>) -> Option<Seq<i64>> {
    match v {
        Some(JsonView::Array(a)) => if all_ints(a) {
            Some(int_items(a))
        } else {
            None
        },
        _ => None,
    }
}

/// An update is valid when its room data has a text name (trimmed, a valid
/// room name), description (at most 300 bytes) and background (at most 100
/// bytes), and lists of integers for `Admin` and `Ban`.
pub open spec fn spec_update_valid(data: JsonView) -> bool {
    let rd = update_room_data(data);
    &&& rd.get_str("Name"@) is Some
    &&& rd.get_str("Description"@) is Some
    &&& rd.get_str("Background"@) is Some
    &&& crate::validate::spec_is_chat_room_name(spec_trim(rd.get_str("Name"@).unwrap()))
    &&& byte_count(rd.get_str("Description"@).unwrap()) <= 300
    &&& byte_count(rd.get_str("Background"@).unwrap()) <= 100
    &&& required_members(rd.get("Admin"@)) is Some
    &&& required_members(rd.get("Ban"@)) is Some
}

/// The visibility an update sets: the texts of a `Visibility` list, else
/// from a `Private` flag; none without either.
pub open spec fn updated_visibility(rd: JsonView) -> Option<Seq<Seq<char>>> {
    match rd.get("Visibility"@) {
        Some(JsonView::Array(a)) => Some(texts_among(a)),
        _ => match rd.get_bool("Private"@) {
            Some(p) => Some(
                if p {
                    seq!["Admin"@]
                } else {
                    seq!["All"@]
                },
            ),
            None => None,
        },
    }
}

/// The access list an update sets: the texts of an `Access` list, else from
/// a `Locked` flag; none without either.
pub open spec fn updated_access(rd: JsonView) -> Option<Seq<Seq<char>>> {
    match rd.get("Access"@) {
        Some(JsonView::Array(a)) => Some(texts_among(a)),
        _ => match rd.get_bool("Locked"@) {
            Some(l) => Some(
                if l {
                    seq!["Admin"@, "Whitelist"@]
                } else {
                    seq!["All"@]
                },
            ),
            None => None,
        },
    }
}

/// The privacy flag an update sets, following its visibility.
pub open spec fn updated_private(rd: JsonView) -> Option<bool> {
    match rd.get("Visibility"@) {
        Some(JsonView::Array(a)) => Some(!texts_among(a).contains("All"@)),
        _ => rd.get_bool("Private"@),
    }
}

/// The lock flag an update sets, following its access list.
pub open spec fn updated_locked(rd: JsonView) -> Option<bool> {
    match rd.get("Access"@) {
        Some(JsonView::Array(a)) => Some(!texts_among(a).contains("All"@)),
        _ => rd.get_bool("Locked"@),
    }
}

/// The limit an update sets: an integer, or a text that parses as one,
/// taken as an `i32`; 10 when there is none or it lies outside 2..=20.
pub open spec fn updated_limit(rd: JsonView) -> i32 {
    let n = match rd.get("Limit"@) {
        Some(lim) => match lim.as_i64() {
            Some(n) => n,
            None => match lim.as_str() {
                Some(s) => match crate::text::spec_parse_i64(s) {
                    Some(n) => n,
                    None => 10,
                },
                None => 10,
            },
        },
        None => 10,
    };
    let n32 = n as i32;
    if 2 <= n32 && n32 <= 20 {
        n32
    } else {
        10
    }
}

/// The changes of a valid room update.
pub struct RoomUpdate {
    pub name: String,
    pub description: String,
    pub background: String,
    pub admin: Vec<i64>,
    pub ban: Vec<i64>,
    pub language: Option<String>,
    /// A `Custom` given (null included).
    pub custom: Option<Json>,
    pub block_category: Vec<String>,
    pub whitelist: Option<Vec<i64>>,
    pub game: String,
    pub limit: i32,
    pub visibility: Option<Vec<String>>,
    pub access: Option<Vec<String>>,
    pub private: Option<bool>,
    pub locked: Option<bool>,
    /// A `MapData` given: its value, none for null.
    pub map_data: Option<Option<Json>>,
}

/// The changes read from a valid update request.
pub open spec fn update_matches(u: RoomUpdate, data: JsonView) -> bool {
    let rd = update_room_data(data);
    &&& u.name@ == spec_trim(rd.get_str("Name"@).unwrap())
    &&& u.description@ == rd.get_str("Description"@).unwrap()
    &&& u.background@ == rd.get_str("Background"@).unwrap()
    &&& Some(u.admin@) == required_members(rd.get("Admin"@))
    &&& Some(u.ban@) == required_members(rd.get("Ban"@))
    &&& match rd.get_str("Language"@) {
        Some(l) => u.language matches Some(x) && x@ == l,
        None => u.language is None,
    }
    &&& crate::chat::opt_json(u.custom) == rd.get("Custom"@)
    &&& strings_view(u.block_category@) == match rd.get("BlockCategory"@) {
        Some(JsonView::Array(a)) => texts_among(a),
        _ => Seq::empty(),
    }
    &&& match rd.get("Whitelist"@) {
        Some(JsonView::Array(a)) => u.whitelist matches Some(w) && w@ == ints_among(a),
        _ => u.whitelist is None,
    }
    &&& u.game@ == short_text_field(rd.get_str("Game"@))
    &&& u.limit == updated_limit(rd)
    &&& match updated_visibility(rd) {
        Some(v) => u.visibility matches Some(x) && strings_view(x@) == v,
        None => u.visibility is None,
    }
    &&& match updated_access(rd) {
        Some(v) => u.access matches Some(x) && strings_view(x@) == v,
        None => u.access is None,
    }
    &&& u.private == updated_private(rd)
    &&& u.locked == updated_locked(rd)
    &&& match rd.get("MapData"@) {
        Some(m) => u.map_data matches Some(x) && crate::chat::opt_json(x) == non_null(Some(m)),
        None => u.map_data is None,
    }
}

fn required_member_list(v: Option<&Json>) -> (r: Option<Vec<i64>>)
    ensures
        match required_members(opt_view(v)) {
            Some(a) => r matches Some(x) && x@ == a,
            None => r is None,
        },
{
    match v {
        Some(j) => match j.as_array() {
            Some(a) => {
                let f = filter_ints(a);
                if f.len() == a.len() {
                    proof {
                        let av = view_items(a@);
                        lemma_view_items(a@);
                        assert(av.filter(|x: JsonView| x.as_i64() is Some).len() == av.len());
                        crate::lists::lemma_filter_all(av, |x: JsonView| x.as_i64() is Some);
                        assert(f@ =~= int_items(av));
                    }
                    Some(f)
                } else {
                    proof {
                        let av = view_items(a@);
                        lemma_view_items(a@);
                        if all_ints(av) {
                            crate::lists::lemma_filter_keeps_all(av, |x: JsonView| x.as_i64() is Some);
                        }
                    }
                    None
                }
            },
            None => None,
        },
        None => None,
    }
}

fn role_list(items: &[&str]) -> (r: Vec<String>)
    ensures
        r@.len() == items@.len(),
        forall|i: int| 0 <= i < items@.len() ==> #[trigger] r@[i]@ == items@[i]@,
{
    let mut out: Vec<String> = Vec::new();
    let mut i: usize = 0;
    while i < items.len()
        invariant
            i <= items@.len(),
            out@.len() == i,
            forall|k: int| 0 <= k < i ==> #[trigger] out@[k]@ == items@[k]@,
        decreases items@.len() - i,
    {
        out.push(crate::text::to_owned_string(items[i]));
        i += 1;
    }
    out
}

/// Reads a room update request; none when it is invalid (answered
/// "InvalidRoomData").
pub fn room_update_request(data: &Json) -> (r: Option<RoomUpdate>)
    ensures
        match r {
            Some(u) => spec_update_valid(data@) && update_matches(u, data@),
            None => !spec_update_valid(data@),
        },
{
    let rd = match data.get("Room") {
        Some(r) => r,
        None => data,
    };
    let name = match rd.get_str("Name") {
        Some(n) => crate::text::trim(n),
        None => return None,
    };
    let description = match rd.get_str("Description") {
        Some(d) => d,
        None => return None,
    };
    let background = match rd.get_str("Background") {
        Some(b) => b,
        None => return None,
    };
    if !crate::validate::is_chat_room_name(name.as_str()) || crate::text::byte_len(description) > 300
        || crate::text::byte_len(background) > 100 {
        return None;
    }
    let admin = match required_member_list(rd.get("Admin")) {
        Some(a) => a,
        None => return None,
    };
    let ban = match required_member_list(rd.get("Ban")) {
        Some(b) => b,
        None => return None,
    };
    let vis_list = match rd.get("Visibility") {
        Some(Json::Array(a)) => Some(filter_texts(a)),
        _ => None,
    };
    let acc_list = match rd.get("Access") {
        Some(Json::Array(a)) => Some(filter_texts(a)),
        _ => None,
    };
    let (visibility, private) = match vis_list {
        Some(v) => {
            let p = !contains_str(&v, "All");
            proof {
                assert(has_text(v@, "All"@) == strings_view(v@).contains("All"@)) by {
                    if has_text(v@, "All"@) {
                        let i = choose|i: int| 0 <= i < v@.len() && #[trigger] v@[i]@ == "All"@;
                        assert(strings_view(v@)[i] == "All"@);
                    }
                    if strings_view(v@).contains("All"@) {
                        let i = choose|i: int| 0 <= i < strings_view(v@).len() && #[trigger] strings_view(v@)[i] == "All"@;
                        assert(v@[i]@ == "All"@);
                    }
                }
            }
            (Some(v), Some(p))
        },
        None => match rd.get_bool("Private") {
            Some(p) => {
                let v = if p {
                    role_list(&["Admin"])
                } else {
                    role_list(&["All"])
                };
                proof {
                    if p {
                        assert(strings_view(v@) =~= seq!["Admin"@]);
                    } else {
                        assert(strings_view(v@) =~= seq!["All"@]);
                    }
                }
                (Some(v), Some(p))
            },
            None => (None, None),
        },
    };
    let (access, locked) = match acc_list {
        Some(a) => {
            let l = !contains_str(&a, "All");
            proof {
                assert(has_text(a@, "All"@) == strings_view(a@).contains("All"@)) by {
                    if has_text(a@, "All"@) {
                        let i = choose|i: int| 0 <= i < a@.len() && #[trigger] a@[i]@ == "All"@;
                        assert(strings_view(a@)[i] == "All"@);
                    }
                    if strings_view(a@).contains("All"@) {
                        let i = choose|i: int| 0 <= i < strings_view(a@).len() && #[trigger] strings_view(a@)[i] == "All"@;
                        assert(a@[i]@ == "All"@);
                    }
                }
            }
            (Some(a), Some(l))
        },
        None => match rd.get_bool("Locked") {
            Some(l) => {
                let a = if l {
                    role_list(&["Admin", "Whitelist"])
                } else {
                    role_list(&["All"])
                };
                proof {
                    if l {
                        assert(strings_view(a@) =~= seq!["Admin"@, "Whitelist"@]);
                    } else {
                        assert(strings_view(a@) =~= seq!["All"@]);
                    }
                }
                (Some(a), Some(l))
            },
            None => (None, None),
        },
    };
    let block_category = match rd.get("BlockCategory") {
        Some(Json::Array(a)) => filter_texts(a),
        _ => {
            let v: Vec<String> = Vec::new();
            proof {
                assert(strings_view(v@) =~= Seq::<Seq<char>>::empty());
            }
            v
        },
    };
    let whitelist = match rd.get("Whitelist") {
        Some(Json::Array(a)) => Some(filter_ints(a)),
        _ => None,
    };
    let game = match rd.get_str("Game") {
        Some(g) => if crate::text::byte_len(g) <= 100 {
            crate::text::to_owned_string(g)
        } else {
            String::new()
        },
        None => String::new(),
    };
    let n: i64 = match rd.get("Limit") {
        Some(lim) => match lim.as_i64() {
            Some(n) => n,
            None => match lim.as_str() {
                Some(s) => match crate::text::parse_i64(s) {
                    Some(n) => n,
                    None => 10,
                },
                None => 10,
            },
        },
        None => 10,
    };
    let n32: i32 = #[verifier::truncate] (n as i32);
    let limit: i32 = if 2 <= n32 && n32 <= 20 {
        n32
    } else {
        10
    };
    let map_data = match rd.get("MapData") {
        Some(m) => Some(
            if m.is_null() {
                None
            } else {
                Some(m.deep_clone())
            },
        ),
        None => None,
    };
    Some(
        RoomUpdate {
            name,
            description: crate::text::to_owned_string(description),
            background: crate::text::to_owned_string(background),
            admin,
            ban,
            language: match rd.get_str("Language") {
                Some(l) => Some(crate::text::to_owned_string(l)),
                None => None,
            },
            custom: match rd.get("Custom") {
                Some(c) => Some(c.deep_clone()),
                None => None,
            },
            block_category,
            whitelist,
            game,
            limit,
            visibility,
            access,
            private,
            locked,
            map_data,
        },
    )
}

/// The room once an update is applied.
pub open spec fn updated_room(old: ChatRoom, new: ChatRoom, u: RoomUpdate) -> bool {
    new == ChatRoom {
        name: u.name,
        description: u.description,
        background: u.background,
        admin: u.admin,
        ban: u.ban,
        language: match u.language {
            Some(l) => l,
            None => old.language,
        },
        custom: match u.custom {
            Some(c) => Some(c),
            None => old.custom,
        },
        block_category: u.block_category,
        whitelist: match u.whitelist {
            Some(w) => w,
            None => old.whitelist,
        },
        game: u.game,
        limit: u.limit,
        visibility: match u.visibility {
            Some(v) => v,
            None => old.visibility,
        },
        access: match u.access {
            Some(a) => a,
            None => old.access,
        },
        private: match u.private {
            Some(p) => p,
            None => old.private,
        },
        locked: match u.locked {
            Some(l) => l,
            None => old.locked,
        },
        map_data: match u.map_data {
            Some(m) => m,
            None => old.map_data,
        },
        ..old
    }
}

/// Applies a valid update to room `room_id`: refused ("RoomAlreadyExist")
/// when the name changes, up to case, to one that a room of any environment
/// has (room names are unique over all environments, up to case); nothing
/// happens when the room is gone (`Ok(false)`). The room's name key follows
/// its name.
pub fn apply_room_update(world: &mut World, room_id: &str, u: RoomUpdate) -> (r: Result<bool, ()>)
    ensures
        ({
            let old_name = if old(world).chat_rooms.map().contains_key(room_id@) {
                old(world).chat_rooms.map()[room_id@].name@
            } else {
                Seq::empty()
            };
            let taken = spec_to_uppercase(old_name) != spec_to_uppercase(u.name@) && room_name_taken(*old(world), u.name@);
            if taken {
                r == Err::<bool, ()>(()) && *final(world) == *old(world)
            } else if !old(world).chat_rooms.map().contains_key(room_id@) {
                r == Ok::<bool, ()>(false) && *final(world) == *old(world)
            } else {
                let room = old(world).chat_rooms.map()[room_id@];
                let old_key = spec_room_key(room.environment@, room.name@);
                let new_key = spec_room_key(room.environment@, u.name@);
                &&& r == Ok::<bool, ()>(true)
                &&& final(world).chat_rooms.map().contains_key(room_id@)
                &&& updated_room(room, final(world).chat_rooms.map()[room_id@], u)
                &&& final(world).chat_rooms.map().remove(room_id@) == old(world).chat_rooms.map().remove(room_id@)
                &&& final(world).room_by_name_env.map() == if old_key != new_key {
                    old(world).room_by_name_env.map().remove(old_key).insert(new_key, final(world).room_by_name_env.map()[new_key])
                } else {
                    old(world).room_by_name_env.map()
                }
                &&& old_key != new_key ==> final(world).room_by_name_env.map()[new_key]@ == room_id@
                &&& final(world).accounts_by_socket == old(world).accounts_by_socket
                &&& final(world).socket_by_member == old(world).socket_by_member
                &&& final(world).socket_by_account_name == old(world).socket_by_account_name
                &&& final(world).prison_sector_sessions == old(world).prison_sector_sessions
            }
        }),
{
    let old_name = match world.chat_rooms.get(room_id) {
        Some(room) => room.name.clone(),
        None => String::new(),
    };
    let ou = crate::text::to_uppercase(old_name.as_str());
    let nu = crate::text::to_uppercase(u.name.as_str());
    if !crate::text::str_eq(ou.as_str(), nu.as_str()) && world.room_name_exists_any(u.name.as_str()) {
        return Err(());
    }
    let mut room = match world.chat_rooms.remove(room_id) {
        Some(room) => room,
        None => return Ok(false),
    };
    let ghost old_room = room;
    let old_key = World::room_key(room.environment.as_str(), room.name.as_str());
    room.name = u.name;
    room.description = u.description;
    room.background = u.background;
    room.admin = u.admin;
    room.ban = u.ban;
    if let Some(l) = u.language {
        room.language = l;
    }
    if let Some(c) = u.custom {
        room.custom = Some(c);
    }
    room.block_category = u.block_category;
    if let Some(w) = u.whitelist {
        room.whitelist = w;
    }
    room.game = u.game;
    room.limit = u.limit;
    if let Some(v) = u.visibility {
        room.visibility = v;
    }
    if let Some(a) = u.access {
        room.access = a;
    }
    if let Some(p) = u.private {
        room.private = p;
    }
    if let Some(l) = u.locked {
        room.locked = l;
    }
    if let Some(m) = u.map_data {
        room.map_data = m;
    }
    let new_key = World::room_key(room.environment.as_str(), room.name.as_str());
    world.chat_rooms.insert(crate::text::to_owned_string(room_id), room);
    if !crate::text::str_eq(old_key.as_str(), new_key.as_str()) {
        world.room_by_name_env.remove(old_key.as_str());
        world.room_by_name_env.insert(new_key, crate::text::to_owned_string(room_id));
    }
    proof {
        assert(world.chat_rooms.map().remove(room_id@) =~= old(world).chat_rooms.map().remove(room_id@));
    }
    Ok(true)
}

} // verus!
