//! Updates a member makes to characters in a room: expression, pose,
//! arousal, map data and a character's appearance, and the relay of such
//! updates to the room.

use vstd::prelude::*;
use crate::json::{Json, JsonView, JsonNumber, EntriesView, entries_set, object_entries, view_entries,
    lemma_view_entries, int_value, with_entry};
use crate::state::account::OnlineAccount;
use crate::state::world::{World, account_at, account_of_member};
use crate::state::chatroom::ChatRoom;
use crate::routing::current_room;
use crate::chat::{spec_allow_item, chat_room_get_allow_item, spec_normalize_pose, opt_json, normalize_pose};
use crate::session::synced_character;
use crate::lists::contains_i64;
use crate::text::{str_eq, to_owned_string, char_count};

verus! {

/// The world after the account on `sid` became `b`, nothing else changed.
pub open spec fn account_replaced(old: World, new: World, sid: Seq<char>, b: OnlineAccount) -> bool {
    &&& new.accounts_by_socket.map() == old.accounts_by_socket.map().insert(sid, b)
    &&& new == (World { accounts_by_socket: new.accounts_by_socket, ..old })
}

/// Takes the account on `sid` out, to be put back changed.
fn take_account(world: &mut World, sid: &str) -> (r: Option<OnlineAccount>)
    ensures
        match account_at(*old(world), sid@) {
            None => r is None && *final(world) == *old(world),
            Some(a) => r == Some(a) && final(world).accounts_by_socket.map() == old(world).accounts_by_socket.map().remove(
                sid@,
            ) && *final(world) == (World { accounts_by_socket: final(world).accounts_by_socket, ..*old(world) }),
        },
{
    world.accounts_by_socket.remove(sid)
}

/// Puts an account back under `sid`.
fn put_account(world: &mut World, sid: &str, acc: OnlineAccount)
    ensures
        final(world).accounts_by_socket.map() == old(world).accounts_by_socket.map().insert(sid@, acc),
        *final(world) == (World { accounts_by_socket: final(world).accounts_by_socket, ..*old(world) }),
{
    world.accounts_by_socket.insert(to_owned_string(sid), acc);
}

proof fn lemma_put_back(m: Map<Seq<char>, OnlineAccount>, k: Seq<char>, b: OnlineAccount)
    ensures
        m.remove(k).insert(k, b) == m.insert(k, b),
{
    assert(m.remove(k).insert(k, b) =~= m.insert(k, b));
}

/// An expression update carries a new appearance when its `Appearance` is
/// an array of at least 5 items.
pub open spec fn expression_appearance(data: JsonView) -> Option<JsonView> {
    match data.get("Appearance"@) {
        Some(JsonView::Array(a)) => if a.len() >= 5 {
            Some(JsonView::Array(a))
        } else {
            None
        },
        _ => None,
    }
}

/// Takes the appearance of an expression update into the account on
/// `socket_id`.
pub fn apply_expression(world: &mut World, socket_id: &str, data: &Json)
    ensures
        match (account_at(*old(world), socket_id@), expression_appearance(data@)) {
            (Some(a), Some(app)) => exists|b: OnlineAccount|
                #[trigger] account_replaced(*old(world), *final(world), socket_id@, b) && b == (OnlineAccount {
                    appearance: b.appearance,
                    ..a
                }) && opt_json(b.appearance) == Some(app),
            _ => *final(world) == *old(world),
        },
{
    let app = match data.get("Appearance") {
        Some(v) => match v.as_array() {
            Some(items) => {
                proof {
                    crate::json::lemma_view_items(items@);
                }
                if items.len() >= 5 {
                    v
                } else {
                    return;
                }
            },
            None => return,
        },
        None => return,
    };
    let ghost before = *world;
    let mut acc = match take_account(world, socket_id) {
        Some(a) => a,
        None => return,
    };
    acc.appearance = Some(app.deep_clone());
    put_account(world, socket_id, acc);
    proof {
        lemma_put_back(before.accounts_by_socket.map(), socket_id@, acc);
        assert(account_replaced(before, *world, socket_id@, acc));
    }
}

/// Takes the pose of a pose update into the account on `socket_id`: the
/// normalized pose becomes both its pose and its active pose.
pub fn apply_pose(world: &mut World, socket_id: &str, data: &Json)
    ensures
        match (account_at(*old(world), socket_id@), spec_normalize_pose(data@)) {
            (Some(a), Some(p)) => exists|b: OnlineAccount|
                #[trigger] account_replaced(*old(world), *final(world), socket_id@, b) && b == (OnlineAccount {
                    pose: b.pose,
                    active_pose: b.active_pose,
                    ..a
                }) && opt_json(b.pose) == Some(p) && opt_json(b.active_pose) == Some(p),
            _ => *final(world) == *old(world),
        },
{
    let p = match normalize_pose(data) {
        Some(p) => p,
        None => return,
    };
    let ghost before = *world;
    let mut acc = match take_account(world, socket_id) {
        Some(a) => a,
        None => return,
    };
    acc.active_pose = Some(p.deep_clone());
    acc.pose = Some(p);
    put_account(world, socket_id, acc);
    proof {
        lemma_put_back(before.accounts_by_socket.map(), socket_id@, acc);
        assert(account_replaced(before, *world, socket_id@, acc));
    }
}

/// The arousal settings after an update: each of `OrgasmTimer`,
/// `OrgasmCount`, `Progress` and `ProgressTimer` the update holds is set.
pub open spec fn arousal_after(e: EntriesView, data: JsonView) -> EntriesView {
    let set = |e: EntriesView, k: Seq<char>| match data.get(k) {
        Some(v) => entries_set(e, k, v),
        None => e,
    };
    set(set(set(set(e, "OrgasmTimer"@), "OrgasmCount"@), "Progress"@), "ProgressTimer"@)
}

fn set_from(e: &mut Vec<(String, Json)>, data: &Json, k: &str)
    ensures
        view_entries(final(e)@) == match data@.get(k@) {
            Some(v) => entries_set(view_entries(old(e)@), k@, v),
            None => view_entries(old(e)@),
        },
{
    match data.get(k) {
        Some(v) => crate::json::entries_insert(e, to_owned_string(k), v.deep_clone()),
        None => {},
    }
}

/// Takes the arousal fields of an update into the account's arousal
/// settings, when these are an object.
pub fn apply_arousal(world: &mut World, socket_id: &str, data: &Json)
    ensures
        match account_at(*old(world), socket_id@) {
            Some(a) => match opt_json(a.arousal_settings) {
                Some(JsonView::Object(e)) => exists|b: OnlineAccount|
                    #[trigger] account_replaced(*old(world), *final(world), socket_id@, b) && b == (OnlineAccount {
                        arousal_settings: b.arousal_settings,
                        ..a
                    }) && opt_json(b.arousal_settings) == Some(JsonView::Object(arousal_after(e, data@))),
                _ => *final(world) == *old(world),
            },
            None => *final(world) == *old(world),
        },
{
    let ghost before = *world;
    let mut e = match world.get_by_socket(socket_id) {
        Some(a) => match &a.arousal_settings {
            Some(Json::Object(_)) => crate::json::entries_copy(a.arousal_settings.as_ref().unwrap()),
            _ => return,
        },
        None => return,
    };
    let mut acc = match take_account(world, socket_id) {
        Some(a) => a,
        None => return,
    };
    set_from(&mut e, data, "OrgasmTimer");
    set_from(&mut e, data, "OrgasmCount");
    set_from(&mut e, data, "Progress");
    set_from(&mut e, data, "ProgressTimer");
    acc.arousal_settings = Some(Json::Object(e));
    put_account(world, socket_id, acc);
    proof {
        lemma_put_back(before.accounts_by_socket.map(), socket_id@, acc);
        assert(account_replaced(before, *world, socket_id@, acc));
    }
}

/// Stores the map data of the account on `socket_id`; returns the room to
/// tell and the message, when the account is in a room.
pub fn apply_map_data(world: &mut World, socket_id: &str, data: &Json) -> (r: Option<(String, Json)>)
    ensures
        match account_at(*old(world), socket_id@) {
            None => r is None && *final(world) == *old(world),
            Some(a) => (exists|b: OnlineAccount|
                #[trigger] account_replaced(*old(world), *final(world), socket_id@, b) && b == (OnlineAccount {
                    map_data: b.map_data,
                    ..a
                }) && opt_json(b.map_data) == Some(data@)) && match current_room(*old(world), socket_id@) {
                None => r is None,
                Some(room) => r matches Some(x) && x.0@ == room.spec_socket_room_name() && x.1@ == JsonView::Object(
                    seq![("MemberNumber"@, JsonView::Number(JsonNumber::Int(a.member_number))), ("MapData"@, data@)],
                ),
            },
        },
{
    let ghost before = *world;
    let room = match world.get_by_socket(socket_id) {
        None => return None,
        Some(a) => match &a.chat_room_id {
            Some(rid) => match world.chat_rooms.get(rid.as_str()) {
                Some(room) => Some(room.socket_room_name()),
                None => None,
            },
            None => None,
        },
    };
    let mut acc = match take_account(world, socket_id) {
        Some(a) => a,
        None => return None,
    };
    acc.map_data = Some(data.deep_clone());
    let member = acc.member_number;
    put_account(world, socket_id, acc);
    proof {
        lemma_put_back(before.accounts_by_socket.map(), socket_id@, acc);
        assert(account_replaced(before, *world, socket_id@, acc));
    }
    match room {
        Some(name) => {
            let mut e: Vec<(String, Json)> = Vec::new();
            e.push((to_owned_string("MemberNumber"), int_value(member)));
            e.push((to_owned_string("MapData"), data.deep_clone()));
            proof {
                lemma_view_entries(e@);
                assert(view_entries(e@) =~= seq![
                    ("MemberNumber"@, JsonView::Number(JsonNumber::Int(member))),
                    ("MapData"@, data@),
                ]);
            }
            Some((name, Json::Object(e)))
        },
        None => None,
    }
}

/// A character field update as relayed to the room: the update with the
/// sender's member number set (an update that is no object is wrapped).
pub open spec fn relayed(data: JsonView, member: i64) -> JsonView {
    match data {
        JsonView::Object(e) => JsonView::Object(entries_set(e, "MemberNumber"@, JsonView::Number(JsonNumber::Int(member)))),
        _ => JsonView::Object(
            seq![("MemberNumber"@, JsonView::Number(JsonNumber::Int(member))), ("Data"@, data)],
        ),
    }
}

/// The room to relay a character field update of socket `socket_id` to,
/// and the message; none when the sender is in no room.
pub fn relay_character_field(world: &World, socket_id: &str, data: &Json) -> (r: Option<(String, Json)>)
    ensures
        match current_room(*world, socket_id@) {
            None => r is None,
            Some(room) => r matches Some(x) && x.0@ == room.spec_socket_room_name() && x.1@ == relayed(
                data@,
                account_at(*world, socket_id@).unwrap().member_number,
            ),
        },
{
    let acc = match world.get_by_socket(socket_id) {
        Some(a) => a,
        None => return None,
    };
    let room = match &acc.chat_room_id {
        Some(rid) => match world.chat_rooms.get(rid.as_str()) {
            Some(room) => room,
            None => return None,
        },
        None => return None,
    };
    let msg = match data {
        Json::Object(_) => with_entry(data, "MemberNumber", int_value(acc.member_number)),
        _ => {
            let mut e: Vec<(String, Json)> = Vec::new();
            e.push((to_owned_string("MemberNumber"), int_value(acc.member_number)));
            e.push((to_owned_string("Data"), data.deep_clone()));
            proof {
                lemma_view_entries(e@);
                assert(view_entries(e@) =~= object_entries(relayed(data@, acc.member_number)));
            }
            Json::Object(e)
        },
    };
    Some((room.socket_room_name(), msg))
}


/// Some member of the room is online on socket `target_id`.
pub open spec fn target_in_room(w: World, room: ChatRoom, target_id: Seq<char>) -> bool {
    exists|i: int|
        0 <= i < room.members@.len() && (account_of_member(w, #[trigger] room.members@[i]) matches Some(a)
            && a.socket_id@ == target_id)
}

/// The character a character update changes, and its new appearance: the
/// update names a socket `ID` and carries an `Appearance` array; its sender
/// is in a room and not banned from it; the target is a member of that room
/// online on that socket; and the sender may use items on the target.
pub open spec fn character_update_target(w: World, sid: Seq<char>, data: JsonView) -> Option<(Seq<char>, JsonView)> {
    match (data.get_str("ID"@), data.get("Appearance"@), account_at(w, sid), current_room(w, sid)) {
        (Some(id), Some(JsonView::Array(a)), Some(src), Some(room)) => if id.len() == 0 || room.ban@.contains(
            src.member_number,
        ) || !target_in_room(w, room, id) {
            None
        } else {
            match account_at(w, id) {
                Some(t) => if spec_allow_item(src, t) {
                    Some((id, JsonView::Array(a)))
                } else {
                    None
                },
                None => None,
            }
        },
        _ => None,
    }
}

fn member_on_socket(world: &World, members: &Vec<i64>, target_id: &str) -> (r: bool)
    ensures
        r == exists|i: int|
            0 <= i < members@.len() && (account_of_member(*world, #[trigger] members@[i]) matches Some(a)
                && a.socket_id@ == target_id@),
{
    let mut i: usize = 0;
    while i < members.len()
        invariant
            i <= members@.len(),
            forall|j: int|
                0 <= j < i ==> !(account_of_member(*world, #[trigger] members@[j]) matches Some(a) && a.socket_id@
                    == target_id@),
        decreases members@.len() - i,
    {
        match world.get_by_member(members[i]) {
            Some(a) => if str_eq(a.socket_id.as_str(), target_id) {
                return true;
            },
            None => {},
        }
        i += 1;
    }
    false
}

/// The target after a character update: its appearance and delayed
/// appearance are the new appearance; its active pose is the update's, when
/// it has one; nothing else changed.
pub open spec fn character_updated(t: OnlineAccount, b: OnlineAccount, app: JsonView, data: JsonView) -> bool {
    &&& b == (OnlineAccount {
        appearance: b.appearance,
        delayed_appearance: b.delayed_appearance,
        active_pose: b.active_pose,
        ..t
    })
    &&& opt_json(b.appearance) == Some(app)
    &&& opt_json(b.delayed_appearance) == Some(app)
    &&& opt_json(b.active_pose) == match data.get("ActivePose"@) {
        Some(p) => Some(p),
        None => opt_json(t.active_pose),
    }
}

/// Applies a character update: the target takes the appearance (also kept
/// for the delayed save) and, when given, the active pose. Returns the room
/// to tell and the message: the target's synced character and the sender.
pub fn character_update(world: &mut World, socket_id: &str, data: &Json) -> (r: Option<(String, Json)>)
    ensures
        match character_update_target(*old(world), socket_id@, data@) {
            None => r is None && *final(world) == *old(world),
            Some(u) => {
                let t = account_at(*old(world), u.0).unwrap();
                let room = current_room(*old(world), socket_id@).unwrap();
                let src = account_at(*old(world), socket_id@).unwrap();
                let b = final(world).accounts_by_socket.map()[u.0];
                &&& account_replaced(*old(world), *final(world), u.0, b)
                &&& character_updated(t, b, u.1, data@)
                &&& r matches Some(x) && (x.0@ == room.spec_socket_room_name() && x.1@ == JsonView::Object(
                    seq![
                        ("Character"@, synced_character(b, room.members@)),
                        ("SourceMemberNumber"@, JsonView::Number(JsonNumber::Int(src.member_number))),
                    ],
                ))
            },
        },
{
    let target_id = match data.get_str("ID") {
        Some(id) => id,
        None => return None,
    };
    if char_count(target_id) == 0 {
        return None;
    }
    let app = match data.get("Appearance") {
        Some(v) => if v.is_array() {
            v
        } else {
            return None;
        },
        None => return None,
    };
    let src = match world.get_by_socket(socket_id) {
        Some(a) => a,
        None => return None,
    };
    let room = match &src.chat_room_id {
        Some(rid) => match world.chat_rooms.get(rid.as_str()) {
            Some(room) => room,
            None => return None,
        },
        None => return None,
    };
    if contains_i64(&room.ban, src.member_number) {
        return None;
    }
    if !member_on_socket(world, &room.members, target_id) {
        return None;
    }
    let target = match world.get_by_socket(target_id) {
        Some(t) => t,
        None => return None,
    };
    if !chat_room_get_allow_item(src, target) {
        return None;
    }
    proof {
        assert(character_update_target(*world, socket_id@, data@) == Some((target_id@, app@)));
    }
    let room_name = room.socket_room_name();
    let members = crate::lists::clone_i64s(&room.members);
    let source = src.member_number;
    let ghost before = *world;
    let mut acc = match take_account(world, target_id) {
        Some(a) => a,
        None => return None,
    };
    acc.appearance = Some(app.deep_clone());
    acc.delayed_appearance = Some(app.deep_clone());
    match data.get("ActivePose") {
        Some(p) => {
            acc.active_pose = Some(p.deep_clone());
        },
        None => {},
    }
    let character = acc.to_synced_character_for_room(&members);
    put_account(world, target_id, acc);
    proof {
        lemma_put_back(before.accounts_by_socket.map(), target_id@, acc);
        assert(account_replaced(before, *world, target_id@, acc));
    }
    let mut e: Vec<(String, Json)> = Vec::new();
    e.push((to_owned_string("Character"), character));
    e.push((to_owned_string("SourceMemberNumber"), int_value(source)));
    proof {
        lemma_view_entries(e@);
        assert(view_entries(e@) =~= seq![
            ("Character"@, synced_character(acc, members@)),
            ("SourceMemberNumber"@, JsonView::Number(JsonNumber::Int(source))),
        ]);
    }
    let out = Json::Object(e);
    Some((room_name, out))
}


/// The account has saves held back.
pub open spec fn has_delayed(a: OnlineAccount) -> bool {
    a.delayed_appearance is Some || a.delayed_skill is Some || a.delayed_game is Some
}

/// The account with its held-back saves taken.
pub open spec fn cleared(a: OnlineAccount) -> OnlineAccount {
    OnlineAccount { delayed_appearance: None, delayed_skill: None, delayed_game: None, ..a }
}

pub open spec fn push_opt(e: Seq<(Seq<char>, JsonView)>, k: Seq<char>, v: Option<Json>) -> Seq<(Seq<char>, JsonView)> {
    match v {
        Some(j) => e.push((k, j@)),
        None => e,
    }
}

/// The fields a held-back save writes: `Appearance`, `Skill`, `Game`, those
/// held.
pub open spec fn delayed_fields(a: OnlineAccount) -> Seq<(Seq<char>, JsonView)> {
    push_opt(push_opt(push_opt(Seq::empty(), "Appearance"@, a.delayed_appearance), "Skill"@, a.delayed_skill), "Game"@, a.delayed_game)
}

/// The saves held back by the given accounts, in order: each account name
/// with the fields to write.
pub open spec fn pending_saves(e: Seq<(Seq<char>, OnlineAccount)>) -> Seq<(Seq<char>, Seq<(Seq<char>, JsonView)>)>
    decreases e.len(),
{
    if e.len() == 0 {
        Seq::empty()
    } else {
        let a = e.last().1;
        let prev = pending_saves(e.drop_last());
        if has_delayed(a) {
            prev.push((a.account_name@, delayed_fields(a)))
        } else {
            prev
        }
    }
}

pub open spec fn save_view(p: (String, Vec<(String, Json)>)) -> (Seq<char>, Seq<(Seq<char>, JsonView)>) {
    (p.0@, view_entries(p.1@))
}

fn push_taken(e: &mut Vec<(String, Json)>, k: &str, v: Option<Json>)
    ensures
        view_entries(final(e)@) == push_opt(view_entries(old(e)@), k@, v),
{
    match v {
        Some(j) => {
            let x = (to_owned_string(k), j);
            proof {
                crate::json::lemma_view_entries_push(e@, x);
            }
            e.push(x);
        },
        None => {},
    }
}

/// Takes the saves every online account held back, to be written to the
/// store: the accounts keep no held-back save afterwards.
pub fn take_delayed_saves(world: &mut World) -> (r: Vec<(String, Vec<(String, Json)>)>)
    ensures
        r@.map_values(|p: (String, Vec<(String, Json)>)| save_view(p)) == pending_saves(
            old(world).accounts_by_socket.entries(),
        ),
        final(world).accounts_by_socket.map() == old(world).accounts_by_socket.map().map_values(
            |a: OnlineAccount| cleared(a),
        ),
        *final(world) == (World { accounts_by_socket: final(world).accounts_by_socket, ..*old(world) }),
{
    let ghost e0 = world.accounts_by_socket.entries();
    let ghost m0 = world.accounts_by_socket.map();
    world.accounts_by_socket.keys_distinct();
    let n = world.accounts_by_socket.len();
    let mut keys: Vec<String> = Vec::new();
    let mut i: usize = 0;
    while i < n
        invariant
            i <= n,
            n == e0.len(),
            e0 == world.accounts_by_socket.entries(),
            keys@.len() == i,
            forall|j: int| 0 <= j < i ==> #[trigger] keys@[j]@ == e0[j].0,
        decreases n - i,
    {
        keys.push(to_owned_string(world.accounts_by_socket.key_at(i).as_str()));
        i += 1;
    }
    let ghost w0 = *world;
    let mut out: Vec<(String, Vec<(String, Json)>)> = Vec::new();
    let mut i: usize = 0;
    while i < n
        invariant
            i <= n,
            n == e0.len(),
            keys@.len() == n,
            crate::table::distinct_keys(e0),
            m0 == crate::table::map_of(e0),
            forall|j: int| 0 <= j < n ==> #[trigger] keys@[j]@ == e0[j].0,
            world.accounts_by_socket.map().dom() == m0.dom(),
            forall|j: int| 0 <= j < i ==> world.accounts_by_socket.map()[#[trigger] e0[j].0] == cleared(m0[e0[j].0]),
            forall|j: int| i <= j < n ==> world.accounts_by_socket.map()[#[trigger] e0[j].0] == m0[e0[j].0],
            out@.map_values(|p: (String, Vec<(String, Json)>)| save_view(p)) == pending_saves(e0.take(i as int)),
            *world == (World { accounts_by_socket: world.accounts_by_socket, ..w0 }),
        decreases n - i,
    {
        proof {
            crate::table::lemma_map_of_at(e0, i as int);
            assert(e0.take(i + 1).drop_last() =~= e0.take(i as int));
        }
        let k = keys[i].as_str();
        let ghost before = *world;
        let ghost before_out = out@;
        let mut acc = match take_account(world, k) {
            Some(a) => a,
            None => {
                assert(false);
                return out;
            },
        };
        let ghost a = acc;
        let name = to_owned_string(acc.account_name.as_str());
        let held = acc.delayed_appearance.is_some() || acc.delayed_skill.is_some() || acc.delayed_game.is_some();
        let appearance = acc.delayed_appearance.take();
        let skill = acc.delayed_skill.take();
        let game = acc.delayed_game.take();
        put_account(world, k, acc);
        proof {
            lemma_put_back(before.accounts_by_socket.map(), k@, acc);
            assert(acc == cleared(a));
            assert forall|j: int| 0 <= j < n && j != i implies #[trigger] e0[j].0 != e0[i as int].0 by {}
        }
        if held {
            let mut fields: Vec<(String, Json)> = Vec::new();
            proof {
                assert(view_entries(fields@) =~= Seq::<(Seq<char>, JsonView)>::empty());
            }
            push_taken(&mut fields, "Appearance", appearance);
            push_taken(&mut fields, "Skill", skill);
            push_taken(&mut fields, "Game", game);
            let item = (name, fields);
            out.push(item);
            proof {
                assert(out@.map_values(|p: (String, Vec<(String, Json)>)| save_view(p)) =~= before_out.map_values(
                    |p: (String, Vec<(String, Json)>)| save_view(p),
                ).push(save_view(item)));
            }
        }
        i += 1;
    }
    proof {
        assert(e0.take(n as int) =~= e0);
        assert forall|k: Seq<char>| #[trigger] m0.contains_key(k) implies world.accounts_by_socket.map()[k] == cleared(m0[k]) by {
            let j = choose|j: int| 0 <= j < e0.len() && #[trigger] e0[j].0 == k;
        }
        assert(world.accounts_by_socket.map() =~= m0.map_values(|a: OnlineAccount| cleared(a)));
    }
    out
}


/// Takes the saves the account on `socket_id` held back, when it is online:
/// its account name and the fields to write (none may be held).
pub fn take_delayed_save(world: &mut World, socket_id: &str) -> (r: Option<(String, Vec<(String, Json)>)>)
    ensures
        match account_at(*old(world), socket_id@) {
            None => r is None && *final(world) == *old(world),
            Some(a) => r matches Some(x) && x.0@ == a.account_name@ && view_entries(x.1@) == delayed_fields(a)
                && account_replaced(*old(world), *final(world), socket_id@, cleared(a)),
        },
{
    let ghost before = *world;
    let mut acc = match take_account(world, socket_id) {
        Some(a) => a,
        None => return None,
    };
    let ghost a = acc;
    let name = to_owned_string(acc.account_name.as_str());
    let appearance = acc.delayed_appearance.take();
    let skill = acc.delayed_skill.take();
    let game = acc.delayed_game.take();
    put_account(world, socket_id, acc);
    proof {
        lemma_put_back(before.accounts_by_socket.map(), socket_id@, acc);
        assert(acc == cleared(a));
    }
    let mut fields: Vec<(String, Json)> = Vec::new();
    proof {
        assert(view_entries(fields@) =~= Seq::<(Seq<char>, JsonView)>::empty());
    }
    push_taken(&mut fields, "Appearance", appearance);
    push_taken(&mut fields, "Skill", skill);
    push_taken(&mut fields, "Game", game);
    Some((name, fields))
}

} // verus!
