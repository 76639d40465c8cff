//! Chat rooms held in memory.

use vstd::prelude::*;
use crate::json::{Json, JsonView};
use crate::validate::ROOM_LIMIT_DEFAULT;

verus! {

pub struct ChatRoom {
    pub id: String,
    pub name: String,
    pub description: String,
    pub background: String,
    pub environment: String,
    pub creator: String,
    pub creator_member_number: i64,
    pub creation: i64,
    pub admin: Vec<i64>,
    pub whitelist: Vec<i64>,
    pub ban: Vec<i64>,
    pub limit: i32,
    pub game: String,
    pub visibility: Vec<String>,
    pub access: Vec<String>,
    /// Legacy dual field, kept for the wire format.
    pub private: bool,
    pub locked: bool,
    pub block_category: Vec<String>,
    pub language: String,
    pub space: String,
    pub map_data: Option<Json>,
    pub custom: Option<Json>,
    /// Member numbers currently in the room, in order.
    pub members: Vec<i64>,
}

/// The views of a list of texts.
pub open spec fn strings_view(v: Seq<String>) -> Seq<Seq<char>> {
    v.map_values(|s: String| s@)
}

/// The settings of a room just created: no description, the
/// "Introduction" background, its creator as only admin, empty white and
/// ban lists, the default limit, no game, visible to and open for all, not
/// private nor locked, no blocked categories, English, the default space, no
/// map data nor custom data, and no members yet.
pub open spec fn new_room_defaults(r: ChatRoom) -> bool {
    &&& r.description@ == Seq::<char>::empty()
    &&& r.background@ == "Introduction"@
    &&& r.admin@ == seq![r.creator_member_number]
    &&& r.whitelist@.len() == 0
    &&& r.ban@.len() == 0
    &&& r.limit == ROOM_LIMIT_DEFAULT
    &&& r.game@ == Seq::<char>::empty()
    &&& strings_view(r.visibility@) == seq!["All"@]
    &&& strings_view(r.access@) == seq!["All"@]
    &&& !r.private
    &&& !r.locked
    &&& r.block_category@.len() == 0
    &&& r.language@ == "EN"@
    &&& r.space@ == Seq::<char>::empty()
    &&& r.map_data is None
    &&& r.custom is None
    &&& r.members@.len() == 0
}

impl ChatRoom {
    /// A room created at time `creation`, with the defaults of a new room.
    pub fn new_at(
        id: String,
        name: String,
        environment: String,
        creator: String,
        creator_member_number: i64,
        creation: i64,
    ) -> (r: ChatRoom)
        ensures
            r.id == id,
            r.name == name,
            r.environment == environment,
            r.creator == creator,
            r.creator_member_number == creator_member_number,
            r.creation == creation,
            new_room_defaults(r),
    {
        let mut admin: Vec<i64> = Vec::new();
        admin.push(creator_member_number);
        let mut visibility: Vec<String> = Vec::new();
        visibility.push(crate::text::to_owned_string("All"));
        let mut access: Vec<String> = Vec::new();
        access.push(crate::text::to_owned_string("All"));
        let r = ChatRoom {
            id,
            name,
            description: String::new(),
            background: crate::text::to_owned_string("Introduction"),
            environment,
            creator,
            creator_member_number,
            creation,
            admin,
            whitelist: Vec::new(),
            ban: Vec::new(),
            limit: ROOM_LIMIT_DEFAULT,
            game: String::new(),
            visibility,
            access,
            private: false,
            locked: false,
            block_category: Vec::new(),
            language: crate::text::to_owned_string("EN"),
            space: String::new(),
            map_data: None,
            custom: None,
            members: Vec::new(),
        };
        assert(strings_view(r.visibility@) =~= seq!["All"@]);
        assert(strings_view(r.access@) =~= seq!["All"@]);
        assert(r.admin@ =~= seq![creator_member_number]);
        r
    }

    /// A room created now.
    pub fn new(
        id: String,
        name: String,
        environment: String,
        creator: String,
        creator_member_number: i64,
    ) -> (r: ChatRoom)
        ensures
            r.id == id,
            r.name == name,
            r.environment == environment,
            r.creator == creator,
            r.creator_member_number == creator_member_number,
            new_room_defaults(r),
    {
        let now = crate::time::common_time();
        ChatRoom::new_at(id, name, environment, creator, creator_member_number, now)
    }

    pub open spec fn spec_is_full(&self) -> bool {
        self.members@.len() >= self.limit as int
    }

    pub fn is_full(&self) -> (r: bool)
        ensures
            r == self.spec_is_full(),
    {
        let n = self.members.len();
        if n > 2147483647 {
            true
        } else {
            (n as i32) >= self.limit
        }
    }

    pub open spec fn spec_socket_room_name(&self) -> Seq<char> {
        "chatroom-"@ + self.id@
    }

    pub fn socket_room_name(&self) -> (r: String)
        ensures
            r@ == self.spec_socket_room_name(),
    {
        let mut s = crate::text::to_owned_string("chatroom-");
        s.append(self.id.as_str());
        s
    }
}

} // verus!
