//! Account queries, beeps and the difficulty setting.

use vstd::prelude::*;
use crate::json::{Json, JsonView, JsonNumber, view_entries, view_items, object_entries, lemma_view_entries, lemma_view_items_push, int_value, str_value};
use crate::state::account::OnlineAccount;
use crate::state::chatroom::ChatRoom;
use crate::state::world::{World, account_at, account_of_member};
use crate::protocol::{AccountBeepRequest, opt_string_view};
use crate::chat::{is_owner, is_lover, lover_of};
use crate::room::{spec_role_list_is_restrictive, role_list_is_restrictive};
use crate::lists::contains_i64;
use crate::text::{str_eq, to_owned_string};
use crate::validate::DIFFICULTY_DELAY_MS;

verus! {

/// A text, or null when absent.
pub open spec fn text_or_null(o: Option<Seq<char>>) -> JsonView {
    match o {
        Some(s) => JsonView::Str(s),
        None => JsonView::Null,
    }
}

fn text_or_null_json(o: &Option<String>) -> (r: Json)
    ensures
        r@ == text_or_null(opt_string_view(*o)),
{
    match o {
        Some(s) => Json::Str(to_owned_string(s.as_str())),
        None => Json::Null,
    }
}

/// The room a beep names: the sender's current room, unless the beep is
/// secret or the sender is in none.
pub open spec fn beep_room(w: World, src: OnlineAccount, secret: bool) -> Option<ChatRoom> {
    match src.chat_room_id {
        Some(rid) => if !secret && w.chat_rooms.map().contains_key(rid@) {
            Some(w.chat_rooms.map()[rid@])
        } else {
            None
        },
        None => None,
    }
}

/// The beep as its recipient receives it.
pub open spec fn beep_payload(src: OnlineAccount, room: Option<ChatRoom>, req: AccountBeepRequest) -> JsonView {
    JsonView::Object(
        seq![
            ("MemberNumber"@, JsonView::Number(JsonNumber::Int(src.member_number))),
            ("MemberName"@, JsonView::Str(src.name@)),
            ("ChatRoomSpace"@, match room {
                Some(r) => JsonView::Str(r.space@),
                None => JsonView::Null,
            }),
            ("ChatRoomName"@, match room {
                Some(r) => JsonView::Str(r.name@),
                None => JsonView::Null,
            }),
            ("Private"@, match room {
                Some(r) => JsonView::Bool(spec_role_list_is_restrictive(r.visibility@)),
                None => JsonView::Null,
            }),
            ("BeepType"@, text_or_null(opt_string_view(req.beep_type))),
            ("Message"@, text_or_null(opt_string_view(req.message))),
        ],
    )
}

/// A beep reaches its target when the target has the sender on its friend
/// list, the sender owns the target, or the beep is a leash.
pub open spec fn beep_allowed(src: OnlineAccount, target: OnlineAccount, req: AccountBeepRequest) -> bool {
    ||| target.friend_list@.contains(src.member_number)
    ||| is_owner(target, src.member_number)
    ||| opt_string_view(req.beep_type) == Some("Leash"@)
}

/// Where a beep from the account on socket `sid` goes, and what it says:
/// none without a target, when sender or target is offline, when they are
/// in different environments, or when the beep is not allowed.
pub open spec fn spec_beep(w: World, sid: Seq<char>, req: AccountBeepRequest) -> Option<(Seq<char>, JsonView)> {
    match req.member_number {
        None => None,
        Some(t) => match account_at(w, sid) {
            None => None,
            Some(src) => match account_of_member(w, t) {
                None => None,
                Some(target) => if target.environment@ != src.environment@ || !beep_allowed(src, target, req) {
                    None
                } else {
                    Some((target.socket_id@, beep_payload(src, beep_room(w, src, req.is_secret), req)))
                },
            },
        },
    }
}

/// The socket a beep is delivered to and the message delivered.
pub fn beep_delivery(world: &World, socket_id: &str, req: &AccountBeepRequest) -> (r: Option<(String, Json)>)
    ensures
        match spec_beep(*world, socket_id@, *req) {
            None => r is None,
            Some(d) => r matches Some(x) && x.0@ == d.0 && x.1@ == d.1,
        },
{
    let t = match req.member_number {
        Some(t) => t,
        None => return None,
    };
    let src = match world.get_by_socket(socket_id) {
        Some(a) => a,
        None => return None,
    };
    let target = match world.get_by_member(t) {
        Some(a) => a,
        None => return None,
    };
    if !str_eq(target.environment.as_str(), src.environment.as_str()) {
        return None;
    }
    let friends = contains_i64(&target.friend_list, src.member_number);
    let owns = match &target.ownership {
        Some(o) => o.get_i64("MemberNumber") == Some(src.member_number),
        None => false,
    };
    let leash = match &req.beep_type {
        Some(b) => str_eq(b.as_str(), "Leash"),
        None => false,
    };
    if !(friends || owns || leash) {
        return None;
    }
    let ghost room = beep_room(*world, *src, req.is_secret);
    let (space, name, private) = match &src.chat_room_id {
        Some(rid) => if req.is_secret {
            (Json::Null, Json::Null, Json::Null)
        } else {
            match world.chat_rooms.get(rid.as_str()) {
                Some(room) => (
                    Json::Str(to_owned_string(room.space.as_str())),
                    Json::Str(to_owned_string(room.name.as_str())),
                    Json::Bool(role_list_is_restrictive(&room.visibility)),
                ),
                None => (Json::Null, Json::Null, Json::Null),
            }
        },
        None => (Json::Null, Json::Null, Json::Null),
    };
    let mut e: Vec<(String, Json)> = Vec::new();
    e.push((to_owned_string("MemberNumber"), int_value(src.member_number)));
    e.push((to_owned_string("MemberName"), Json::Str(to_owned_string(src.name.as_str()))));
    e.push((to_owned_string("ChatRoomSpace"), space));
    e.push((to_owned_string("ChatRoomName"), name));
    e.push((to_owned_string("Private"), private));
    e.push((to_owned_string("BeepType"), text_or_null_json(&req.beep_type)));
    e.push((to_owned_string("Message"), text_or_null_json(&req.message)));
    proof {
        lemma_view_entries(e@);
        assert(view_entries(e@) =~= object_entries(beep_payload(*src, room, *req)));
    }
    Some((to_owned_string(target.socket_id.as_str()), Json::Object(e)))
}

/// The level of an `AccountDifficulty` request: an integer from 0 to 3.
pub open spec fn spec_difficulty_level(data: JsonView) -> Option<i64> {
    match data {
        JsonView::Number(JsonNumber::Int(n)) => if 0 <= n <= 3 {
            Some(n)
        } else {
            None
        },
        _ => None,
    }
}

pub fn difficulty_level(data: &Json) -> (r: Option<i64>)
    ensures
        r == spec_difficulty_level(data@),
{
    match data {
        Json::Number(JsonNumber::Int(n)) => if 0 <= *n && *n <= 3 {
            Some(*n)
        } else {
            None
        },
        _ => None,
    }
}

/// When the account's difficulty last changed: its `LastChange`, else the
/// account's creation.
pub open spec fn last_difficulty_change(acc: OnlineAccount) -> i64 {
    match acc.difficulty {
        Some(d) => match d@.get_i64("LastChange"@) {
            Some(t) => t,
            None => acc.creation,
        },
        None => acc.creation,
    }
}

/// Levels 0 and 1 may always be chosen; 2 and 3 only once a week has passed
/// since the last change.
pub open spec fn difficulty_change_allowed(acc: OnlineAccount, level: i64, now: i64) -> bool {
    level <= 1 || last_difficulty_change(acc) + DIFFICULTY_DELAY_MS < now
}

/// The difficulty record stored.
pub open spec fn difficulty_view(level: i64, now: i64) -> JsonView {
    JsonView::Object(
        seq![
            ("Level"@, JsonView::Number(JsonNumber::Int(level))),
            ("LastChange"@, JsonView::Number(JsonNumber::Int(now))),
        ],
    )
}

fn difficulty_doc(level: i64, now: i64) -> (r: Json)
    ensures
        r@ == difficulty_view(level, now),
{
    let mut e: Vec<(String, Json)> = Vec::new();
    e.push((to_owned_string("Level"), int_value(level)));
    e.push((to_owned_string("LastChange"), int_value(now)));
    proof {
        lemma_view_entries(e@);
        assert(view_entries(e@) =~= object_entries(difficulty_view(level, now)));
    }
    Json::Object(e)
}

/// Sets the difficulty of the account on `socket_id` to `level` at `now`,
/// where allowed. Returns the account name and the record to persist.
pub fn change_difficulty(world: &mut World, socket_id: &str, level: i64, now: i64) -> (r: Option<(String, Json)>)
    ensures
        match account_at(*old(world), socket_id@) {
            None => r is None && *final(world) == *old(world),
            Some(a) => if !difficulty_change_allowed(a, level, now) {
                r is None && *final(world) == *old(world)
            } else {
                &&& r matches Some(x) && (x.0@ == a.account_name@ && x.1@ == difficulty_view(level, now))
                &&& account_at(*final(world), socket_id@) matches Some(b) && (b == (OnlineAccount {
                    difficulty: b.difficulty,
                    ..a
                }) && (b.difficulty matches Some(d) && d@ == difficulty_view(level, now)))
                &&& final(world).accounts_by_socket.map() == old(world).accounts_by_socket.map().insert(
                    socket_id@,
                    final(world).accounts_by_socket.map()[socket_id@],
                )
                &&& *final(world) == (World { accounts_by_socket: final(world).accounts_by_socket, ..*old(world) })
            },
        },
{
    let allowed = match world.get_by_socket(socket_id) {
        None => return None,
        Some(a) => {
            if level <= 1 {
                true
            } else {
                let last = match &a.difficulty {
                    Some(d) => match d.get_i64("LastChange") {
                        Some(t) => t,
                        None => a.creation,
                    },
                    None => a.creation,
                };
                (last as i128) + (DIFFICULTY_DELAY_MS as i128) < (now as i128)
            }
        },
    };
    if !allowed {
        return None;
    }
    let ghost before = world.accounts_by_socket.map();
    let mut acc = match world.accounts_by_socket.remove(socket_id) {
        Some(a) => a,
        None => return None,
    };
    let name = to_owned_string(acc.account_name.as_str());
    acc.difficulty = Some(difficulty_doc(level, now));
    world.accounts_by_socket.insert(to_owned_string(socket_id), acc);
    proof {
        assert(world.accounts_by_socket.map() =~= before.insert(socket_id@, world.accounts_by_socket.map()[socket_id@]));
    }
    Some((name, difficulty_doc(level, now)))
}


/// A count as a JSON number.
pub open spec fn count_number(n: nat) -> JsonNumber {
    if n <= i64::MAX {
        JsonNumber::Int(n as i64)
    } else {
        JsonNumber::Big(n as u64)
    }
}

pub fn count_json(n: usize) -> (r: Json)
    ensures
        r@ == JsonView::Number(count_number(n as nat)),
{
    let m = n as u64;
    if m <= 9223372036854775807 {
        Json::Number(JsonNumber::Int(m as i64))
    } else {
        Json::Number(JsonNumber::Big(m))
    }
}

/// The room an account is in, if it exists.
pub open spec fn room_of(w: World, a: OnlineAccount) -> Option<ChatRoom> {
    match a.chat_room_id {
        Some(rid) => if w.chat_rooms.map().contains_key(rid@) {
            Some(w.chat_rooms.map()[rid@])
        } else {
            None
        },
        None => None,
    }
}

/// A row of the online friends list: the kind of relation, the member's
/// number, name and nickname and, when in a room, the room. A room that is
/// not visible to all is marked private and, to plain friends, not named.
pub open spec fn friend_info(ftype: Seq<char>, other: OnlineAccount, w: World) -> JsonView {
    let base = seq![
        ("Type"@, JsonView::Str(ftype)),
        ("MemberNumber"@, JsonView::Number(JsonNumber::Int(other.member_number))),
        ("MemberName"@, JsonView::Str(other.name@)),
        ("MemberNickname"@, text_or_null(opt_string_view(other.nickname))),
    ];
    match room_of(w, other) {
        None => JsonView::Object(base),
        Some(room) => {
            let private = spec_role_list_is_restrictive(room.visibility@);
            let marked = if private {
                base.push(("Private"@, JsonView::Bool(true)))
            } else {
                base
            };
            if private && ftype == "Friend"@ {
                JsonView::Object(marked)
            } else {
                JsonView::Object(
                    marked + seq![
                        ("ChatRoomSpace"@, JsonView::Str(room.space@)),
                        ("ChatRoomName"@, JsonView::Str(room.name@)),
                        ("ChatRoomMemberCount"@, JsonView::Number(count_number(room.members@.len()))),
                        ("ChatRoomLimit"@, JsonView::Number(JsonNumber::Int(room.limit as i64))),
                    ],
                )
            }
        },
    }
}

/// Builds a row of the online friends list.
pub fn query_friend_info(ftype: &str, other: &OnlineAccount, world: &World) -> (r: Json)
    ensures
        r@ == friend_info(ftype@, *other, *world),
{
    let mut e: Vec<(String, Json)> = Vec::new();
    e.push((to_owned_string("Type"), str_value(ftype)));
    e.push((to_owned_string("MemberNumber"), int_value(other.member_number)));
    e.push((to_owned_string("MemberName"), Json::Str(to_owned_string(other.name.as_str()))));
    e.push((to_owned_string("MemberNickname"), text_or_null_json(&other.nickname)));
    let ghost base = e@;
    let room = match &other.chat_room_id {
        Some(rid) => world.chat_rooms.get(rid.as_str()),
        None => None,
    };
    match room {
        None => {
            proof {
                lemma_view_entries(e@);
                assert(view_entries(e@) =~= object_entries(friend_info(ftype@, *other, *world)));
            }
            Json::Object(e)
        },
        Some(room) => {
            let private = role_list_is_restrictive(&room.visibility);
            if private {
                e.push((to_owned_string("Private"), Json::Bool(true)));
                if str_eq(ftype, "Friend") {
                    proof {
                        lemma_view_entries(e@);
                        assert(view_entries(e@) =~= object_entries(friend_info(ftype@, *other, *world)));
                    }
                    return Json::Object(e);
                }
            }
            e.push((to_owned_string("ChatRoomSpace"), Json::Str(to_owned_string(room.space.as_str()))));
            e.push((to_owned_string("ChatRoomName"), Json::Str(to_owned_string(room.name.as_str()))));
            e.push((to_owned_string("ChatRoomMemberCount"), count_json(room.members.len())));
            e.push((to_owned_string("ChatRoomLimit"), int_value(room.limit as i64)));
            proof {
                lemma_view_entries(e@);
                assert(view_entries(e@) =~= object_entries(friend_info(ftype@, *other, *world)));
            }
            Json::Object(e)
        },
    }
}

/// The first pass of the online friends list: how another online account
/// relates to `acc`, in the same environment: owned by it (a submissive) or
/// its lover.
pub open spec fn friend_kind_of(acc: OnlineAccount, other: OnlineAccount) -> Option<Seq<char>> {
    if other.environment@ != acc.environment@ {
        None
    } else if is_owner(other, acc.member_number) {
        Some("Submissive"@)
    } else if is_lover(other, acc.member_number) {
        Some("Lover"@)
    } else {
        None
    }
}

/// The rows of the first pass over the first `k` online accounts.
pub open spec fn pass_one_rows(w: World, acc: OnlineAccount, k: int) -> Seq<JsonView>
    decreases k,
{
    if k <= 0 {
        Seq::empty()
    } else {
        let prev = pass_one_rows(w, acc, k - 1);
        let o = w.accounts_by_socket.entries()[k - 1].1;
        match friend_kind_of(acc, o) {
            Some(t) => prev.push(friend_info(t, o, w)),
            None => prev,
        }
    }
}

/// The member numbers listed by the first pass over the first `k` accounts.
pub open spec fn pass_one_members(w: World, acc: OnlineAccount, k: int) -> Seq<i64>
    decreases k,
{
    if k <= 0 {
        Seq::empty()
    } else {
        let prev = pass_one_members(w, acc, k - 1);
        let o = w.accounts_by_socket.entries()[k - 1].1;
        match friend_kind_of(acc, o) {
            Some(t) => prev.push(o.member_number),
            None => prev,
        }
    }
}

/// A friend-list entry the second pass lists: not listed already, online,
/// in the same environment and with `acc` on its own friend list.
pub open spec fn mutual_friend(w: World, acc: OnlineAccount, listed: Seq<i64>, mn: i64) -> Option<OnlineAccount> {
    if listed.contains(mn) {
        None
    } else {
        match account_of_member(w, mn) {
            Some(o) => if o.environment@ == acc.environment@ && o.friend_list@.contains(acc.member_number) {
                Some(o)
            } else {
                None
            },
            None => None,
        }
    }
}

/// The rows of the second pass over the first `k` entries of the friend list.
pub open spec fn pass_two_rows(w: World, acc: OnlineAccount, listed: Seq<i64>, k: int) -> Seq<JsonView>
    decreases k,
{
    if k <= 0 {
        Seq::empty()
    } else {
        let prev = pass_two_rows(w, acc, listed, k - 1);
        match mutual_friend(w, acc, listed, acc.friend_list@[k - 1]) {
            Some(o) => prev.push(friend_info("Friend"@, o, w)),
            None => prev,
        }
    }
}

/// The online friends of the account on socket `sid`: its submissives and
/// lovers online, then its mutual friends online; none when it is offline.
pub open spec fn spec_online_friends(w: World, sid: Seq<char>) -> Option<Seq<JsonView>> {
    match account_at(w, sid) {
        None => None,
        Some(acc) => {
            let n = w.accounts_by_socket.entries().len() as int;
            Some(
                pass_one_rows(w, acc, n) + pass_two_rows(
                    w,
                    acc,
                    pass_one_members(w, acc, n),
                    acc.friend_list@.len() as int,
                ),
            )
        },
    }
}

/// The `OnlineFriends` query.
pub fn online_friends(world: &World, socket_id: &str) -> (r: Option<Vec<Json>>)
    ensures
        match spec_online_friends(*world, socket_id@) {
            None => r is None,
            Some(v) => r matches Some(x) && view_items(x@) == v,
        },
{
    let acc = match world.get_by_socket(socket_id) {
        Some(a) => a,
        None => return None,
    };
    let ghost a = *acc;
    let mut rows: Vec<Json> = Vec::new();
    let mut listed: Vec<i64> = Vec::new();
    let n = world.accounts_by_socket.len();
    let mut i: usize = 0;
    while i < n
        invariant
            i <= n,
            n == world.accounts_by_socket.entries().len(),
            a == *acc,
            view_items(rows@) == pass_one_rows(*world, a, i as int),
            listed@ == pass_one_members(*world, a, i as int),
        decreases n - i,
    {
        let other = world.accounts_by_socket.value_at(i);
        if str_eq(other.environment.as_str(), acc.environment.as_str()) {
            let owned = match &other.ownership {
                Some(o) => o.get_i64("MemberNumber") == Some(acc.member_number),
                None => false,
            };
            let lover = lover_of(other, acc.member_number);
            if owned || lover {
                let t = if owned {
                    "Submissive"
                } else {
                    "Lover"
                };
                let row = query_friend_info(t, other, world);
                proof {
                    lemma_view_items_push(rows@, row);
                }
                rows.push(row);
                listed.push(other.member_number);
            }
        }
        i += 1;
    }
    let ghost first = view_items(rows@);
    let m = acc.friend_list.len();
    let mut j: usize = 0;
    while j < m
        invariant
            j <= m,
            m == acc.friend_list@.len(),
            a == *acc,
            listed@ == pass_one_members(*world, a, n as int),
            first == pass_one_rows(*world, a, n as int),
            view_items(rows@) == first + pass_two_rows(*world, a, listed@, j as int),
        decreases m - j,
    {
        let mn = acc.friend_list[j];
        if !contains_i64(&listed, mn) {
            match world.get_by_member(mn) {
                Some(other) => {
                    if str_eq(other.environment.as_str(), acc.environment.as_str()) && contains_i64(
                        &other.friend_list,
                        acc.member_number,
                    ) {
                        let row = query_friend_info("Friend", other, world);
                        proof {
                            lemma_view_items_push(rows@, row);
                            reveal_strlit("Friend");
                        }
                        rows.push(row);
                    }
                },
                None => {},
            }
        }
        j += 1;
    }
    Some(rows)
}

} // verus!
