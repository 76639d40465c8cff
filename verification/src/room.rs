//! Chat rooms: roles, joining, creating and the room properties sent to
//! clients.

use vstd::prelude::*;
use base64::Engine;
use rand::RngCore;
use crate::json::{Json, JsonView, JsonNumber, view_entries, lemma_view_entries, view_items, lemma_view_items, opt_view};
use crate::lists::{has_text, texts, contains_str};
use crate::state::account::OnlineAccount;
use crate::state::chatroom::{ChatRoom, strings_view};
use crate::state::world::{World, account_at, account_of_member, room_named};

verus! {

/// A role list is restrictive unless it holds "All".
pub open spec fn spec_role_list_is_restrictive(roles: Seq<String>) -> bool {
    !has_text(roles, "All"@)
}

pub fn role_list_is_restrictive(roles: &Vec<String>) -> (r: bool)
    ensures
        r == spec_role_list_is_restrictive(roles@),
{
    !contains_str(roles, "All")
}

/// An account has one of the roles: "All" takes everyone, "Admin" the room's
/// admins, "Whitelist" its white list.
pub open spec fn spec_has_any_role(m: i64, room: ChatRoom, roles: Seq<String>) -> bool {
    has_text(roles, "All"@) || (has_text(roles, "Admin"@) && room.admin@.contains(m)) || (has_text(
        roles,
        "Whitelist"@,
    ) && room.whitelist@.contains(m))
}

pub fn has_any_role(acc: &OnlineAccount, room: &ChatRoom, roles: &Vec<String>) -> (r: bool)
    ensures
        r == spec_has_any_role(acc.member_number, *room, roles@),
{
    if contains_str(roles, "All") {
        return true;
    }
    if contains_str(roles, "Admin") && crate::lists::contains_i64(&room.admin, acc.member_number) {
        return true;
    }
    if contains_str(roles, "Whitelist") && crate::lists::contains_i64(&room.whitelist, acc.member_number) {
        return true;
    }
    false
}

/// Why a join is refused; each is answered by its name.
#[derive(Clone, Copy, PartialEq, Eq, Structural, Debug)]
pub enum JoinError {
    InvalidRoomData,
    AccountError,
    CannotFindRoom,
    RoomFull,
    RoomBanned,
    RoomLocked,
    AlreadyInRoom,
}

impl JoinError {
    pub open spec fn spec_code(self) -> Seq<char> {
        match self {
            JoinError::InvalidRoomData => "InvalidRoomData"@,
            JoinError::AccountError => "AccountError"@,
            JoinError::CannotFindRoom => "CannotFindRoom"@,
            JoinError::RoomFull => "RoomFull"@,
            JoinError::RoomBanned => "RoomBanned"@,
            JoinError::RoomLocked => "RoomLocked"@,
            JoinError::AlreadyInRoom => "AlreadyInRoom"@,
        }
    }

    pub fn code(&self) -> (r: &'static str)
        ensures
            r@ == self.spec_code(),
    {
        match self {
            JoinError::InvalidRoomData => "InvalidRoomData",
            JoinError::AccountError => "AccountError",
            JoinError::CannotFindRoom => "CannotFindRoom",
            JoinError::RoomFull => "RoomFull",
            JoinError::RoomBanned => "RoomBanned",
            JoinError::RoomLocked => "RoomLocked",
            JoinError::AlreadyInRoom => "AlreadyInRoom",
        }
    }
}

/// Whether the account on socket `sid` may join the room named `name` of its
/// environment, and that room's id: a name is needed, then an online
/// account, a room of that name, a room not full, no ban, one of the access
/// roles, and a room other than the one the account is in.
pub open spec fn spec_join_check(w: World, sid: Seq<char>, name: Seq<char>) -> Result<Seq<char>, JoinError> {
    if name.len() == 0 {
        Err(JoinError::InvalidRoomData)
    } else {
        match account_at(w, sid) {
            None => Err(JoinError::AccountError),
            Some(acc) => match room_named(w, acc.environment@, name) {
                None => Err(JoinError::CannotFindRoom),
                Some(room) => if room.spec_is_full() {
                    Err(JoinError::RoomFull)
                } else if room.ban@.contains(acc.member_number) {
                    Err(JoinError::RoomBanned)
                } else if !spec_has_any_role(acc.member_number, room, room.access@) {
                    Err(JoinError::RoomLocked)
                } else if acc.chat_room_id matches Some(cur) && cur@ == room.id@ {
                    Err(JoinError::AlreadyInRoom)
                } else {
                    Ok(room.id@)
                },
            },
        }
    }
}

/// A join is allowed only into an existing room of the account's
/// environment with that name that has room for one more member, has not
/// banned the account, and is not the room it is already in.
pub proof fn law_join_only_into_open_room(w: World, sid: Seq<char>, name: Seq<char>)
    ensures
        spec_join_check(w, sid, name) matches Ok(id) ==> (account_at(w, sid) matches Some(acc) && room_named(
            w,
            acc.environment@,
            name,
        ) matches Some(room) && id == room.id@ && room.members@.len() < room.limit && !room.ban@.contains(
            acc.member_number,
        ) && !(acc.chat_room_id matches Some(cur) && cur@ == room.id@)),
{
}

pub fn join_check(world: &World, socket_id: &str, name: &str) -> (r: Result<String, JoinError>)
    ensures
        r matches Ok(id) ==> (account_at(*world, socket_id@) matches Some(acc) && room_named(
            *world,
            acc.environment@,
            name@,
        ) matches Some(room) && id@ == room.id@ && room.members@.len() < room.limit && !room.ban@.contains(
            acc.member_number,
        )),
        match r {
            Ok(id) => spec_join_check(*world, socket_id@, name@) == Ok::<Seq<char>, JoinError>(id@),
            Err(e) => spec_join_check(*world, socket_id@, name@) == Err::<Seq<char>, JoinError>(e),
        },
{
    if crate::text::char_count(name) == 0 {
        return Err(JoinError::InvalidRoomData);
    }
    let acc = match world.get_by_socket(socket_id) {
        Some(a) => a,
        None => return Err(JoinError::AccountError),
    };
    let room = match world.get_room_by_name(acc.environment.as_str(), name) {
        Some(r) => r,
        None => return Err(JoinError::CannotFindRoom),
    };
    if room.is_full() {
        return Err(JoinError::RoomFull);
    }
    if crate::lists::contains_i64(&room.ban, acc.member_number) {
        return Err(JoinError::RoomBanned);
    }
    if !has_any_role(acc, room, &room.access) {
        return Err(JoinError::RoomLocked);
    }
    if let Some(cur) = &acc.chat_room_id {
        if crate::text::str_eq(cur.as_str(), room.id.as_str()) {
            return Err(JoinError::AlreadyInRoom);
        }
    }
    Ok(room.id.clone())
}

/// Member `x` is online and white-lists `m`.
pub open spec fn white_lists(w: World, x: i64, m: i64) -> bool {
    match account_of_member(w, x) {
        Some(o) => o.white_list@.contains(m),
        None => false,
    }
}

/// Member `x` is online, shows a black list (item permission 1 or 2) and
/// black-lists `m`.
pub open spec fn black_lists(w: World, x: i64, m: i64) -> bool {
    match account_of_member(w, x) {
        Some(o) => (o.item_permission == 1 || o.item_permission == 2) && o.black_list@.contains(m),
        None => false,
    }
}

pub open spec fn white_listing(w: World, m: i64) -> spec_fn(i64) -> bool {
    |x: i64| x != m && white_lists(w, x, m)
}

pub open spec fn black_listing(w: World, m: i64) -> spec_fn(i64) -> bool {
    |x: i64| x != m && black_lists(w, x, m)
}

/// The member number of an online member's account.
pub open spec fn online_member_number(w: World) -> spec_fn(i64) -> i64 {
    |x: i64| account_of_member(w, x).unwrap().member_number
}

/// Who among the room's other members white-lists and black-lists `m`, in
/// the room's order.
pub fn listed_by(world: &World, members: &Vec<i64>, m: i64) -> (r: (Vec<i64>, Vec<i64>))
    ensures
        r.0@ == members@.filter(white_listing(*world, m)).map_values(online_member_number(*world)),
        r.1@ == members@.filter(black_listing(*world, m)).map_values(online_member_number(*world)),
{
    let ghost pw = white_listing(*world, m);
    let ghost pb = black_listing(*world, m);
    let ghost f = online_member_number(*world);
    let mut white: Vec<i64> = Vec::new();
    let mut black: Vec<i64> = Vec::new();
    let mut i: usize = 0;
    while i < members.len()
        invariant
            i <= members.len(),
            pw == white_listing(*world, m),
            pb == black_listing(*world, m),
            f == online_member_number(*world),
            white@ == members@.take(i as int).filter(pw).map_values(f),
            black@ == members@.take(i as int).filter(pb).map_values(f),
        decreases members.len() - i,
    {
        proof {
            crate::lists::lemma_filter_take_step(members@, pw, i as int);
            crate::lists::lemma_filter_take_step(members@, pb, i as int);
        }
        let x = members[i];
        let ghost tw = members@.take(i as int).filter(pw);
        let ghost tb = members@.take(i as int).filter(pb);
        if x != m {
            if let Some(other) = world.get_by_member(x) {
                if crate::lists::contains_i64(&other.white_list, m) {
                    white.push(other.member_number);
                    proof {
                        assert(tw.push(x).map_values(f) =~= tw.map_values(f).push(f(x)));
                    }
                }
                if OnlineAccount::should_send_blacklist(other.item_permission) && crate::lists::contains_i64(
                    &other.black_list,
                    m,
                ) {
                    black.push(other.member_number);
                    proof {
                        assert(tb.push(x).map_values(f) =~= tb.map_values(f).push(f(x)));
                    }
                }
            }
        }
        i += 1;
    }
    proof {
        assert(members@.take(members.len() as int) =~= members@);
    }
    (white, black)
}

/// A list of member numbers as a document.
pub open spec fn ints_view(v: Seq<i64>) -> JsonView {
    JsonView::Array(v.map_values(|n: i64| JsonView::Number(JsonNumber::Int(n))))
}

/// A list of texts as a document.
pub open spec fn texts_view(v: Seq<String>) -> JsonView {
    JsonView::Array(v.map_values(|s: String| JsonView::Str(s@)))
}

/// An optional document, null for none.
pub open spec fn or_null(o: Option<JsonView>) -> JsonView {
    match o {
        Some(v) => v,
        None => JsonView::Null,
    }
}

pub fn ints_json(v: &Vec<i64>) -> (r: Json)
    ensures
        r@ == ints_view(v@),
{
    let mut out: Vec<Json> = Vec::new();
    let mut i: usize = 0;
    while i < v.len()
        invariant
            i <= v.len(),
            out.len() == i,
            forall|j: int| 0 <= j < i ==> crate::json::json_view(#[trigger] out@[j]) == JsonView::Number(JsonNumber::Int(v@[j])),
        decreases v.len() - i,
    {
        out.push(Json::Number(JsonNumber::Int(v[i])));
        i += 1;
    }
    proof {
        lemma_view_items(out@);
        assert(view_items(out@) =~= v@.map_values(|n: i64| JsonView::Number(JsonNumber::Int(n))));
    }
    Json::Array(out)
}

pub fn texts_json(v: &Vec<String>) -> (r: Json)
    ensures
        r@ == texts_view(v@),
{
    let mut out: Vec<Json> = Vec::new();
    let mut i: usize = 0;
    while i < v.len()
        invariant
            i <= v.len(),
            out.len() == i,
            forall|j: int| 0 <= j < i ==> crate::json::json_view(#[trigger] out@[j]) == JsonView::Str(v@[j]@),
        decreases v.len() - i,
    {
        out.push(Json::Str(v[i].clone()));
        i += 1;
    }
    proof {
        lemma_view_items(out@);
        assert(view_items(out@) =~= v@.map_values(|s: String| JsonView::Str(s@)));
    }
    Json::Array(out)
}

fn opt_json_or_null(o: &Option<Json>) -> (r: Json)
    ensures
        r@ == or_null(
            match o {
                Some(v) => Some(v@),
                None => None,
            },
        ),
{
    match o {
        Some(v) => v.deep_clone(),
        None => Json::Null,
    }
}

/// The properties of a room as sent to its members.
pub open spec fn room_properties(room: ChatRoom) -> JsonView {
    JsonView::Object(
        seq![
            ("Name"@, JsonView::Str(room.name@)),
            ("Description"@, JsonView::Str(room.description@)),
            ("Admin"@, ints_view(room.admin@)),
            ("Whitelist"@, ints_view(room.whitelist@)),
            ("Ban"@, ints_view(room.ban@)),
            ("Background"@, JsonView::Str(room.background@)),
            ("Limit"@, JsonView::Number(JsonNumber::Int(room.limit as i64))),
            ("Game"@, JsonView::Str(room.game@)),
            ("Visibility"@, texts_view(room.visibility@)),
            ("Access"@, texts_view(room.access@)),
            ("Private"@, JsonView::Bool(room.private)),
            ("Locked"@, JsonView::Bool(room.locked)),
            ("BlockCategory"@, texts_view(room.block_category@)),
            ("Language"@, JsonView::Str(room.language@)),
            ("Space"@, JsonView::Str(room.space@)),
            ("MapData"@, or_null(
                match room.map_data {
                    Some(v) => Some(v@),
                    None => None,
                },
            )),
            ("Custom"@, or_null(
                match room.custom {
                    Some(v) => Some(v@),
                    None => None,
                },
            )),
        ],
    )
}

impl ChatRoom {
    /// The properties of the room as sent to its members.
    pub fn to_properties_json(&self) -> (r: Json)
        ensures
            r@ == room_properties(*self),
    {
        room_properties_json(self)
    }
}

fn room_properties_json(room: &ChatRoom) -> (r: Json)
    ensures
        r@ == room_properties(*room),
{
    let mut e: Vec<(String, Json)> = Vec::new();
    e.push((crate::text::to_owned_string("Name"), Json::Str(room.name.clone())));
    e.push((crate::text::to_owned_string("Description"), Json::Str(room.description.clone())));
    e.push((crate::text::to_owned_string("Admin"), ints_json(&room.admin)));
    e.push((crate::text::to_owned_string("Whitelist"), ints_json(&room.whitelist)));
    e.push((crate::text::to_owned_string("Ban"), ints_json(&room.ban)));
    e.push((crate::text::to_owned_string("Background"), Json::Str(room.background.clone())));
    e.push((crate::text::to_owned_string("Limit"), Json::Number(JsonNumber::Int(room.limit as i64))));
    e.push((crate::text::to_owned_string("Game"), Json::Str(room.game.clone())));
    e.push((crate::text::to_owned_string("Visibility"), texts_json(&room.visibility)));
    e.push((crate::text::to_owned_string("Access"), texts_json(&room.access)));
    e.push((crate::text::to_owned_string("Private"), Json::Bool(room.private)));
    e.push((crate::text::to_owned_string("Locked"), Json::Bool(room.locked)));
    e.push((crate::text::to_owned_string("BlockCategory"), texts_json(&room.block_category)));
    e.push((crate::text::to_owned_string("Language"), Json::Str(room.language.clone())));
    e.push((crate::text::to_owned_string("Space"), Json::Str(room.space.clone())));
    e.push((crate::text::to_owned_string("MapData"), opt_json_or_null(&room.map_data)));
    e.push((crate::text::to_owned_string("Custom"), opt_json_or_null(&room.custom)));
    proof {
        lemma_view_entries(e@);
        assert(view_entries(e@) =~= crate::json::object_entries(room_properties(*room)));
    }
    Json::Object(e)
}

// ---------------------------------------------------------------------------
// Creating a room
// ---------------------------------------------------------------------------

/// Every item is a text.
pub open spec fn all_texts(a: Seq<JsonView>) -> bool {
    forall|i: int| 0 <= i < a.len() ==> #[trigger] a[i] is Str
}

/// Every item is an integer in the `i64` range.
pub open spec fn all_ints(a: Seq<JsonView>) -> bool {
    forall|i: int| 0 <= i < a.len() ==> (#[trigger] a[i]).as_i64() is Some
}

/// The texts of a list of text documents.
pub open spec fn text_items(a: Seq<JsonView>) -> Seq<Seq<char>> {
    a.map_values(|x: JsonView| x.as_str().unwrap())
}

/// The integers of a list of integer documents.
pub open spec fn int_items(a: Seq<JsonView>) -> Seq<i64> {
    a.map_values(|x: JsonView| x.as_i64().unwrap())
}

/// A field that reads as an optional flag: absent, null or a boolean.
pub open spec fn flag_field_ok(v: Option<JsonView>) -> bool {
    match v {
        None => true,
        Some(JsonView::Null) => true,
        Some(JsonView::Bool(_)) => true,
        _ => false,
    }
}

/// A field that reads as an optional role list: absent, null or texts.
pub open spec fn roles_field_ok(v: Option<JsonView>) -> bool {
    match v {
        None => true,
        Some(JsonView::Null) => true,
        Some(JsonView::Array(a)) => all_texts(a),
        _ => false,
    }
}

pub open spec fn is_array(v: Option<JsonView>) -> bool {
    v matches Some(JsonView::Array(_))
}

pub open spec fn is_bool(v: Option<JsonView>) -> bool {
    v matches Some(JsonView::Bool(_))
}

/// A room-creation request is accepted when it has a text name (trimmed,
/// a valid room name), description (at most 300 characters) and background
/// (at most 100 bytes); exactly one of a `Visibility` list and a `Private`
/// flag; not both an `Access` list and a `Locked` flag; and flags and role
/// lists of the right shapes.
pub open spec fn spec_create_valid(data: JsonView) -> bool {
    &&& data.get_str("Name"@) is Some
    &&& data.get_str("Description"@) is Some
    &&& data.get_str("Background"@) is Some
    &&& is_array(data.get("Visibility"@)) != is_bool(data.get("Private"@))
    &&& !(is_array(data.get("Access"@)) && is_bool(data.get("Locked"@)))
    &&& crate::validate::spec_is_chat_room_name(crate::text::spec_trim(data.get_str("Name"@).unwrap()))
    &&& data.get_str("Description"@).unwrap().len() <= 300
    &&& crate::text::byte_count(data.get_str("Background"@).unwrap()) <= 100
    &&& flag_field_ok(data.get("Private"@))
    &&& flag_field_ok(data.get("Locked"@))
    &&& roles_field_ok(data.get("Visibility"@))
    &&& roles_field_ok(data.get("Access"@))
}

/// The visibility of a new room: the list given, else "Admin" for a private
/// room and "All" for a public one.
pub open spec fn created_visibility(data: JsonView) -> Seq<Seq<char>> {
    match data.get("Visibility"@) {
        Some(JsonView::Array(a)) => text_items(a),
        _ => if data.get_bool("Private"@) == Some(true) {
            seq!["Admin"@]
        } else {
            seq!["All"@]
        },
    }
}

/// The access list of a new room: the list given, else "Admin" and
/// "Whitelist" for a locked room and "All" otherwise.
pub open spec fn created_access(data: JsonView) -> Seq<Seq<char>> {
    match data.get("Access"@) {
        Some(JsonView::Array(a)) => text_items(a),
        _ => if data.get_bool("Locked"@) == Some(true) {
            seq!["Admin"@, "Whitelist"@]
        } else {
            seq!["All"@]
        },
    }
}

/// A text field of at most 100 bytes, else the default (empty).
pub open spec fn short_text_field(v: Option<Seq<char>>) -> Seq<char> {
    match v {
        Some(s) => if crate::text::byte_count(s) <= 100 {
            s
        } else {
            Seq::empty()
        },
        None => Seq::empty(),
    }
}

/// A member list field: the integers of a list of integers, else none.
pub open spec fn member_list_field(v: Option<JsonView>) -> Option<Seq<i64>> {
    match v {
        Some(JsonView::Array(a)) => if all_ints(a) {
            Some(int_items(a))
        } else {
            None
        },
        _ => None,
    }
}

/// The limit of a new room: an integer, or a text that parses as one,
/// taken as an `i32`; 10 when there is none or it lies outside 2..=20.
pub open spec fn created_limit(data: JsonView) -> i32 {
    match data.get("Limit"@) {
        None => 10,
        Some(JsonView::Null) => 10,
        Some(lim) => {
            let n = match lim.as_i64() {
                Some(n) => n,
                None => match lim.as_str() {
                    Some(s) => match crate::text::spec_parse_i64(s) {
                        Some(n) => n,
                        None => 10,
                    },
                    None => 10,
                },
            };
            let n32 = n as i32;
            if 2 <= n32 && n32 <= 20 {
                n32
            } else {
                10
            }
        },
    }
}

/// The blocked categories of a new room: the texts of a list of texts; an
/// empty list for anything else given.
pub open spec fn created_block_category(data: JsonView) -> Seq<Seq<char>> {
    match data.get("BlockCategory"@) {
        Some(JsonView::Array(a)) => if all_texts(a) {
            text_items(a)
        } else {
            Seq::empty()
        },
        _ => Seq::empty(),
    }
}

/// An optional document field, null read as none.
pub open spec fn non_null(v: Option<JsonView>) -> Option<JsonView> {
    match v {
        Some(JsonView::Null) => None,
        _ => v,
    }
}

/// The settings of a room to be created, read from a valid request.
pub struct RoomSettings {
    pub name: String,
    pub description: String,
    pub background: String,
    pub visibility: Vec<String>,
    pub access: Vec<String>,
    pub space: String,
    pub game: String,
    /// The admins given, if any (else the creator).
    pub admin: Option<Vec<i64>>,
    pub ban: Vec<i64>,
    pub whitelist: Vec<i64>,
    pub limit: i32,
    pub block_category: Vec<String>,
    pub language: String,
    pub map_data: Option<Json>,
    pub custom: Option<Json>,
}

/// The settings read from a request, see [`spec_create_valid`].
pub open spec fn settings_match(s: RoomSettings, data: JsonView) -> bool {
    &&& s.name@ == crate::text::spec_trim(data.get_str("Name"@).unwrap())
    &&& s.description@ == data.get_str("Description"@).unwrap()
    &&& s.background@ == data.get_str("Background"@).unwrap()
    &&& strings_view(s.visibility@) == created_visibility(data)
    &&& strings_view(s.access@) == created_access(data)
    &&& s.space@ == short_text_field(data.get_str("Space"@))
    &&& s.game@ == short_text_field(data.get_str("Game"@))
    &&& match member_list_field(data.get("Admin"@)) {
        Some(a) => s.admin matches Some(x) && x@ == a,
        None => s.admin is None,
    }
    &&& s.ban@ == match member_list_field(data.get("Ban"@)) {
        Some(a) => a,
        None => Seq::empty(),
    }
    &&& s.whitelist@ == match member_list_field(data.get("Whitelist"@)) {
        Some(a) => a,
        None => Seq::empty(),
    }
    &&& s.limit == created_limit(data)
    &&& strings_view(s.block_category@) == created_block_category(data)
    &&& s.language@ == match data.get_str("Language"@) {
        Some(l) => l,
        None => "EN"@,
    }
    &&& crate::chat::opt_json(s.map_data) == non_null(data.get("MapData"@))
    &&& crate::chat::opt_json(s.custom) == non_null(data.get("Custom"@))
}

/// The texts of a list of text documents, if all items are texts.
fn texts_of(a: &Vec<Json>) -> (r: Option<Vec<String>>)
    ensures
        match r {
            Some(v) => all_texts(view_items(a@)) && strings_view(v@) == text_items(view_items(a@)),
            None => !all_texts(view_items(a@)),
        },
{
    proof {
        lemma_view_items(a@);
    }
    let ghost av = view_items(a@);
    let mut out: Vec<String> = Vec::new();
    let mut i: usize = 0;
    while i < a.len()
        invariant
            i <= a.len(),
            av == view_items(a@),
            av.len() == a.len(),
            forall|k: int| 0 <= k < a.len() ==> #[trigger] av[k] == crate::json::json_view(a@[k]),
            out.len() == i,
            forall|k: int| 0 <= k < i ==> #[trigger] av[k] is Str && av[k].as_str().unwrap() == out@[k]@,
        decreases a.len() - i,
    {
        match a[i].as_str() {
            Some(s) => {
                out.push(crate::text::to_owned_string(s));
            },
            None => {
                assert(!(av[i as int] is Str));
                return None;
            },
        }
        i += 1;
    }
    proof {
        assert(strings_view(out@) =~= text_items(av));
    }
    Some(out)
}

/// The integers of a list of documents, if all items are integers.
fn ints_of(a: &Vec<Json>) -> (r: Option<Vec<i64>>)
    ensures
        match r {
            Some(v) => all_ints(view_items(a@)) && v@ == int_items(view_items(a@)),
            None => !all_ints(view_items(a@)),
        },
{
    proof {
        lemma_view_items(a@);
    }
    let ghost av = view_items(a@);
    let mut out: Vec<i64> = Vec::new();
    let mut i: usize = 0;
    while i < a.len()
        invariant
            i <= a.len(),
            av == view_items(a@),
            av.len() == a.len(),
            forall|k: int| 0 <= k < a.len() ==> #[trigger] av[k] == crate::json::json_view(a@[k]),
            out.len() == i,
            forall|k: int| 0 <= k < i ==> (#[trigger] av[k]).as_i64() == Some(out@[k]),
        decreases a.len() - i,
    {
        match a[i].as_i64() {
            Some(n) => {
                out.push(n);
            },
            None => {
                assert(av[i as int].as_i64() is None);
                return None;
            },
        }
        i += 1;
    }
    proof {
        assert(out@ =~= int_items(av));
    }
    Some(out)
}

fn member_list(v: Option<&Json>) -> (r: Option<Vec<i64>>)
    ensures
        match member_list_field(opt_view(v)) {
            Some(a) => r matches Some(x) && x@ == a,
            None => r is None,
        },
{
    match v {
        Some(j) => match j.as_array() {
            Some(a) => ints_of(a),
            None => None,
        },
        None => None,
    }
}

fn short_text(v: Option<&str>) -> (r: String)
    ensures
        r@ == short_text_field(
            match v {
                Some(s) => Some(s@),
                None => None,
            },
        ),
{
    match v {
        Some(s) => if crate::text::byte_len(s) <= 100 {
            crate::text::to_owned_string(s)
        } else {
            String::new()
        },
        None => String::new(),
    }
}

fn flag_ok(v: Option<&Json>) -> (r: bool)
    ensures
        r == flag_field_ok(opt_view(v)),
{
    match v {
        None => true,
        Some(j) => j.is_null() || j.is_boolean(),
    }
}

fn roles_ok(v: Option<&Json>) -> (r: bool)
    ensures
        r == roles_field_ok(opt_view(v)),
{
    match v {
        None => true,
        Some(j) => if j.is_null() {
            true
        } else {
            match j.as_array() {
                Some(a) => texts_of(a).is_some(),
                None => false,
            }
        },
    }
}

fn non_null_json(v: Option<&Json>) -> (r: Option<Json>)
    ensures
        crate::chat::opt_json(r) == non_null(opt_view(v)),
{
    match v {
        Some(j) => if j.is_null() {
            None
        } else {
            Some(j.deep_clone())
        },
        None => None,
    }
}

fn str_list(items: &[&str]) -> (r: Vec<String>)
    ensures
        r@.len() == items@.len(),
        forall|i: int| 0 <= i < items@.len() ==> #[trigger] r@[i]@ == items@[i]@,
{
    let mut out: Vec<String> = Vec::new();
    let mut i: usize = 0;
    while i < items.len()
        invariant
            i <= items@.len(),
            out@.len() == i,
            forall|k: int| 0 <= k < i ==> #[trigger] out@[k]@ == items@[k]@,
        decreases items@.len() - i,
    {
        out.push(crate::text::to_owned_string(items[i]));
        i += 1;
    }
    out
}

fn limit_of(data: &Json) -> (r: i32)
    ensures
        r == created_limit(data@),
{
    let lim = match data.get("Limit") {
        None => return 10,
        Some(l) => l,
    };
    if lim.is_null() {
        return 10;
    }
    let n: i64 = match lim.as_i64() {
        Some(n) => n,
        None => match lim.as_str() {
            Some(s) => match crate::text::parse_i64(s) {
                Some(n) => n,
                None => 10,
            },
            None => 10,
        },
    };
    let n32: i32 = #[verifier::truncate] (n as i32);
    if 2 <= n32 && n32 <= 20 {
        n32
    } else {
        10
    }
}

/// Reads the settings of a room to create from a request; none for an
/// invalid request (answered "InvalidRoomData").
pub fn room_create_settings(data: &Json) -> (r: Option<RoomSettings>)
    ensures
        match r {
            Some(s) => spec_create_valid(data@) && settings_match(s, data@),
            None => !spec_create_valid(data@),
        },
{
    let name_raw = match data.get_str("Name") {
        Some(n) => crate::text::trim(n),
        None => return None,
    };
    let description = match data.get_str("Description") {
        Some(d) => d,
        None => return None,
    };
    let background = match data.get_str("Background") {
        Some(b) => b,
        None => return None,
    };
    let vis = data.get("Visibility");
    let has_visibility = match vis {
        Some(v) => v.is_array(),
        None => false,
    };
    let has_private = match data.get("Private") {
        Some(v) => v.is_boolean(),
        None => false,
    };
    if has_visibility == has_private {
        return None;
    }
    let acc = data.get("Access");
    let has_access = match acc {
        Some(v) => v.is_array(),
        None => false,
    };
    let has_locked = match data.get("Locked") {
        Some(v) => v.is_boolean(),
        None => false,
    };
    if has_access && has_locked {
        return None;
    }
    if !crate::validate::is_chat_room_name(name_raw.as_str()) || crate::text::char_count(description) > 300
        || crate::text::byte_len(background) > 100 {
        return None;
    }
    if !flag_ok(data.get("Private")) || !flag_ok(data.get("Locked")) || !roles_ok(vis) || !roles_ok(acc) {
        return None;
    }
    let visibility = match vis {
        Some(Json::Array(a)) => texts_of(a).unwrap(),
        _ => if data.get_bool("Private") == Some(true) {
            str_list(&["Admin"])
        } else {
            str_list(&["All"])
        },
    };
    let access = match acc {
        Some(Json::Array(a)) => texts_of(a).unwrap(),
        _ => if data.get_bool("Locked") == Some(true) {
            str_list(&["Admin", "Whitelist"])
        } else {
            str_list(&["All"])
        },
    };
    let block_category = match data.get("BlockCategory") {
        Some(Json::Array(a)) => match texts_of(a) {
            Some(v) => v,
            None => Vec::new(),
        },
        _ => Vec::new(),
    };
    let language = match data.get_str("Language") {
        Some(l) => crate::text::to_owned_string(l),
        None => crate::text::to_owned_string("EN"),
    };
    let ban = match member_list(data.get("Ban")) {
        Some(v) => v,
        None => Vec::new(),
    };
    let whitelist = match member_list(data.get("Whitelist")) {
        Some(v) => v,
        None => Vec::new(),
    };
    let s = RoomSettings {
        name: name_raw,
        description: crate::text::to_owned_string(description),
        background: crate::text::to_owned_string(background),
        visibility,
        access,
        space: short_text(data.get_str("Space")),
        game: short_text(data.get_str("Game")),
        admin: member_list(data.get("Admin")),
        ban,
        whitelist,
        limit: limit_of(data),
        block_category,
        language,
        map_data: non_null_json(data.get("MapData")),
        custom: non_null_json(data.get("Custom")),
    };
    assert(s.name@ == crate::text::spec_trim(data@.get_str("Name"@).unwrap()));
    assert(s.space@ == short_text_field(data@.get_str("Space"@)));
    assert(s.limit == created_limit(data@));
    assert(spec_create_valid(data@));
    proof {
        assert(strings_view(s.visibility@) =~= created_visibility(data@));
        assert(strings_view(s.access@) =~= created_access(data@));
        assert(strings_view(s.block_category@) =~= created_block_category(data@));
    }
    Some(s)
}

/// The room built for its creator `acc` from the settings of a valid
/// request: its member list is the creator; admins default to the creator;
/// the room is private unless its visibility holds "All", locked unless its
/// access list does.
pub fn build_room(s: RoomSettings, id: String, acc: &OnlineAccount) -> (r: ChatRoom)
    ensures
        r.id == id,
        r.name == s.name,
        r.description == s.description,
        r.background == s.background,
        r.environment == acc.environment,
        r.creator == acc.name,
        r.creator_member_number == acc.member_number,
        r.visibility == s.visibility,
        r.access == s.access,
        r.private == !has_text(s.visibility@, "All"@),
        r.locked == !has_text(s.access@, "All"@),
        r.space == s.space,
        r.game == s.game,
        r.admin@ == match s.admin {
            Some(a) => a@,
            None => seq![acc.member_number],
        },
        r.ban == s.ban,
        r.whitelist == s.whitelist,
        r.limit == s.limit,
        r.block_category == s.block_category,
        r.language == s.language,
        r.map_data == s.map_data,
        r.custom == s.custom,
        r.members@ == seq![acc.member_number],
{
    let mut room = ChatRoom::new(id, s.name, acc.environment.clone(), acc.name.clone(), acc.member_number);
    room.description = s.description;
    room.background = s.background;
    room.private = !contains_str(&s.visibility, "All");
    room.locked = !contains_str(&s.access, "All");
    room.visibility = s.visibility;
    room.access = s.access;
    room.space = s.space;
    room.game = s.game;
    match s.admin {
        Some(a) => {
            room.admin = a;
        },
        None => {},
    }
    room.ban = s.ban;
    room.whitelist = s.whitelist;
    room.limit = s.limit;
    room.block_category = s.block_category;
    room.language = s.language;
    room.map_data = s.map_data;
    room.custom = s.custom;
    room.members.push(acc.member_number);
    proof {
        assert(room.members@ =~= seq![acc.member_number]);
    }
    room
}

/// Why a room is not created; each is answered by its name.
#[derive(Clone, Copy, PartialEq, Eq, Structural, Debug)]
pub enum CreateError {
    AccountError,
    RoomAlreadyExist,
}

impl CreateError {
    pub open spec fn spec_code(self) -> Seq<char> {
        match self {
            CreateError::AccountError => "AccountError"@,
            CreateError::RoomAlreadyExist => "RoomAlreadyExist"@,
        }
    }

    pub fn code(&self) -> (r: &'static str)
        ensures
            r@ == self.spec_code(),
    {
        match self {
            CreateError::AccountError => "AccountError",
            CreateError::RoomAlreadyExist => "RoomAlreadyExist",
        }
    }
}

/// A room may be created by an online account under a name that no room
/// has in any environment, up to case.
pub fn create_check(world: &World, socket_id: &str, name: &str) -> (r: Result<(), CreateError>)
    ensures
        r == if account_at(*world, socket_id@) is None {
            Err::<(), CreateError>(CreateError::AccountError)
        } else if crate::state::world::room_name_taken(*world, name@) {
            Err(CreateError::RoomAlreadyExist)
        } else {
            Ok(())
        },
{
    if world.get_by_socket(socket_id).is_none() {
        return Err(CreateError::AccountError);
    }
    if world.room_name_exists_any(name) {
        return Err(CreateError::RoomAlreadyExist);
    }
    Ok(())
}

/// The URL-safe base64 text (without padding) of some bytes, as the base64
/// crate's `URL_SAFE_NO_PAD` engine encodes them.
pub uninterp spec fn spec_base64_url(bytes: Seq<u8>) -> Seq<char>;

/// Length of the unpadded base64 text of `n` bytes.
pub open spec fn base64_len(n: nat) -> nat {
    4 * (n / 3) + if n % 3 == 1 {
        2nat
    } else if n % 3 == 2 {
        3nat
    } else {
        0nat
    }
}

/// A character of the URL-safe base64 alphabet.
pub open spec fn is_url_safe_char(c: char) -> bool {
    ('A' <= c && c <= 'Z') || ('a' <= c && c <= 'z') || ('0' <= c && c <= '9') || c == '-' || c == '_'
}

/// `Engine::encode` with the `URL_SAFE_NO_PAD` engine. Its result is named;
/// its length (per `encoded_len`) and its alphabet are stated.
#[verifier::external_body]
fn base64_url_no_pad(bytes: &[u8]) -> (r: String)
    requires
        bytes@.len() <= 1024,
    ensures
        r@ == spec_base64_url(bytes@),
        r@.len() == base64_len(bytes@.len()),
        forall|i: int| 0 <= i < r@.len() ==> is_url_safe_char(#[trigger] r@[i]),
{
    base64::engine::general_purpose::URL_SAFE_NO_PAD.encode(bytes)
}

/// `RngCore::fill_bytes` of the thread's random generator on 16 bytes.
#[verifier::external_body]
fn random_16_bytes() -> (r: Vec<u8>)
    ensures
        r@.len() == 16,
{
    let mut bytes = vec![0u8; 16];
    rand::thread_rng().fill_bytes(&mut bytes);
    bytes
}

/// A fresh room id: 16 random bytes in URL-safe base64, 22 characters.
pub fn generate_room_id() -> (r: String)
    ensures
        exists|b: Seq<u8>| b.len() == 16 && r@ == #[trigger] spec_base64_url(b),
        r@.len() == 22,
        forall|i: int| 0 <= i < r@.len() ==> is_url_safe_char(#[trigger] r@[i]),
{
    let b = random_16_bytes();
    base64_url_no_pad(b.as_slice())
}

} // verus!
