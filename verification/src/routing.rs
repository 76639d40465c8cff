//! Routing of chat messages and item updates within a room.

use vstd::prelude::*;
use crate::json::{Json, JsonView, JsonNumber, view_entries, object_entries, lemma_view_entries, int_value};
use crate::state::chatroom::ChatRoom;
use crate::state::world::{World, account_at, account_of_member};
use crate::protocol::{ChatRoomMessage, opt_string_view, opt_json_view};
use crate::chat::{spec_allow_item, chat_room_get_allow_item};
use crate::lists::contains_i64;
use crate::text::{str_eq, to_owned_string, byte_count, byte_len};
use crate::validate::CHAT_MESSAGE_MAX_LENGTH;

verus! {

/// The message types a room relays.
pub open spec fn is_chat_type(t: Seq<char>) -> bool {
    ||| t == "Chat"@
    ||| t == "Action"@
    ||| t == "Activity"@
    ||| t == "Emote"@
    ||| t == "Whisper"@
    ||| t == "Hidden"@
    ||| t == "Status"@
}

fn chat_type_ok(t: &str) -> (r: bool)
    ensures
        r == is_chat_type(t@),
{
    str_eq(t, "Chat") || str_eq(t, "Action") || str_eq(t, "Activity") || str_eq(t, "Emote") || str_eq(t, "Whisper")
        || str_eq(t, "Hidden") || str_eq(t, "Status")
}

/// Where a chat message goes: to the whole room, or as a whisper to one
/// member (and back to its sender).
pub enum ChatDelivery {
    Room { room_socket: String, payload: Json },
    Whisper { target_socket: String, payload: Json },
}

pub open spec fn text_or_empty(o: Option<String>) -> Seq<char> {
    match o {
        Some(s) => s@,
        None => ""@,
    }
}

/// The message as relayed.
pub open spec fn chat_payload(msg: ChatRoomMessage, sender: i64) -> JsonView {
    JsonView::Object(
        seq![
            ("Content"@, JsonView::Str(text_or_empty(msg.content))),
            ("Type"@, JsonView::Str(text_or_empty(msg.msg_type))),
            ("Sender"@, JsonView::Number(JsonNumber::Int(sender))),
            ("Dictionary"@, match opt_json_view(msg.dictionary) {
                Some(d) => d,
                None => JsonView::Null,
            }),
        ],
    )
}

/// The room the account on socket `sid` is in, if any.
pub open spec fn current_room(w: World, sid: Seq<char>) -> Option<ChatRoom> {
    match account_at(w, sid) {
        Some(acc) => match acc.chat_room_id {
            Some(rid) => if w.chat_rooms.map().contains_key(rid@) {
                Some(w.chat_rooms.map()[rid@])
            } else {
                None
            },
            None => None,
        },
        None => None,
    }
}

/// A chat message from socket `sid` is relayed when its type is one of the
/// chat types, its content at most 2000 bytes and its sender in a room; a
/// whisper only to an online target. The result names the sockets and the
/// message.
pub open spec fn spec_chat_delivery(w: World, sid: Seq<char>, msg: ChatRoomMessage) -> Option<(bool, Seq<char>, JsonView)> {
    let t = text_or_empty(msg.msg_type);
    if !is_chat_type(t) || byte_count(text_or_empty(msg.content)) > CHAT_MESSAGE_MAX_LENGTH {
        None
    } else {
        match current_room(w, sid) {
            None => None,
            Some(room) => {
                let payload = chat_payload(msg, account_at(w, sid).unwrap().member_number);
                if t == "Whisper"@ {
                    match msg.target {
                        Some(m) => match account_of_member(w, m) {
                            Some(target) => Some((true, target.socket_id@, payload)),
                            None => None,
                        },
                        None => None,
                    }
                } else {
                    Some((false, room.spec_socket_room_name(), payload))
                }
            },
        }
    }
}

fn text_json(o: &Option<String>) -> (r: Json)
    ensures
        r@ == JsonView::Str(text_or_empty(*o)),
{
    match o {
        Some(s) => Json::Str(to_owned_string(s.as_str())),
        None => Json::Str(to_owned_string("")),
    }
}

/// Routes a chat message, see [`spec_chat_delivery`].
pub fn chat_delivery(world: &World, socket_id: &str, msg: &ChatRoomMessage) -> (r: Option<ChatDelivery>)
    ensures
        match spec_chat_delivery(*world, socket_id@, *msg) {
            None => r is None,
            Some(d) => match r {
                Some(ChatDelivery::Whisper { target_socket, payload }) => d.0 && target_socket@ == d.1 && payload@ == d.2,
                Some(ChatDelivery::Room { room_socket, payload }) => !d.0 && room_socket@ == d.1 && payload@ == d.2,
                None => false,
            },
        },
{
    let t: &str = match &msg.msg_type {
        Some(t) => t.as_str(),
        None => "",
    };
    let content: &str = match &msg.content {
        Some(c) => c.as_str(),
        None => "",
    };
    if !chat_type_ok(t) || byte_len(content) > CHAT_MESSAGE_MAX_LENGTH {
        return None;
    }
    let acc = match world.get_by_socket(socket_id) {
        Some(a) => a,
        None => return None,
    };
    let room = match &acc.chat_room_id {
        Some(rid) => match world.chat_rooms.get(rid.as_str()) {
            Some(room) => room,
            None => return None,
        },
        None => return None,
    };
    let mut e: Vec<(String, Json)> = Vec::new();
    e.push((to_owned_string("Content"), text_json(&msg.content)));
    e.push((to_owned_string("Type"), text_json(&msg.msg_type)));
    e.push((to_owned_string("Sender"), int_value(acc.member_number)));
    e.push((
        to_owned_string("Dictionary"),
        match &msg.dictionary {
            Some(d) => d.deep_clone(),
            None => Json::Null,
        },
    ));
    proof {
        lemma_view_entries(e@);
        assert(view_entries(e@) =~= object_entries(chat_payload(*msg, acc.member_number)));
    }
    let payload = Json::Object(e);
    if str_eq(t, "Whisper") {
        match msg.target {
            Some(m) => match world.get_by_member(m) {
                Some(target) => Some(
                    ChatDelivery::Whisper { target_socket: to_owned_string(target.socket_id.as_str()), payload },
                ),
                None => None,
            },
            None => None,
        }
    } else {
        Some(ChatDelivery::Room { room_socket: room.socket_room_name(), payload })
    }
}

/// An item update from socket `sid` is relayed to the rest of the room when
/// it names an integer `Target` and a text `Group`, its sender is in a room
/// and not banned from it, and (for a target in the room who is online)
/// the sender may use items on the target.
pub open spec fn spec_item_update(w: World, sid: Seq<char>, data: JsonView) -> Option<(Seq<char>, JsonView)> {
    match data.get_i64("Target"@) {
        None => None,
        Some(t) => if data.get_str("Group"@) is None {
            None
        } else {
            match current_room(w, sid) {
                None => None,
                Some(room) => {
                    let acc = account_at(w, sid).unwrap();
                    if room.ban@.contains(acc.member_number) {
                        None
                    } else if room.members@.contains(t) && (account_of_member(w, t) matches Some(target)
                        && !spec_allow_item(acc, target)) {
                        None
                    } else {
                        Some(
                            (
                                room.spec_socket_room_name(),
                                JsonView::Object(
                                    seq![
                                        ("Source"@, JsonView::Number(JsonNumber::Int(acc.member_number))),
                                        ("Item"@, data),
                                    ],
                                ),
                            ),
                        )
                    }
                },
            }
        },
    }
}

/// Routes an item update, see [`spec_item_update`].
pub fn item_update(world: &World, socket_id: &str, data: &Json) -> (r: Option<(String, Json)>)
    ensures
        match spec_item_update(*world, socket_id@, data@) {
            None => r is None,
            Some(d) => r matches Some(x) && x.0@ == d.0 && x.1@ == d.1,
        },
{
    let t = match data.get_i64("Target") {
        Some(t) => t,
        None => return None,
    };
    if data.get_str("Group").is_none() {
        return None;
    }
    let acc = match world.get_by_socket(socket_id) {
        Some(a) => a,
        None => return None,
    };
    let room = match &acc.chat_room_id {
        Some(rid) => match world.chat_rooms.get(rid.as_str()) {
            Some(room) => room,
            None => return None,
        },
        None => return None,
    };
    if contains_i64(&room.ban, acc.member_number) {
        return None;
    }
    if contains_i64(&room.members, t) {
        match world.get_by_member(t) {
            Some(target) => if !chat_room_get_allow_item(acc, target) {
                return None;
            },
            None => {},
        }
    }
    let mut e: Vec<(String, Json)> = Vec::new();
    e.push((to_owned_string("Source"), int_value(acc.member_number)));
    e.push((to_owned_string("Item"), data.deep_clone()));
    proof {
        lemma_view_entries(e@);
        assert(view_entries(e@) =~= object_entries(spec_item_update(*world, socket_id@, data@).unwrap().1));
    }
    Some((room.socket_room_name(), Json::Object(e)))
}

} // verus!
