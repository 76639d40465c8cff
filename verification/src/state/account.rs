//! Online session accounts held in memory.

use vstd::prelude::*;
use crate::json::{Json, JsonView};
use crate::table::StrMap;

verus! {

/// An online session account. Bulky and sensitive fields are purged after login.
pub struct OnlineAccount {
    pub socket_id: String,
    pub account_name: String,
    pub member_number: i64,
    pub name: String,
    pub environment: String,
    pub creation: i64,
    pub item_permission: i32,
    pub white_list: Vec<i64>,
    pub black_list: Vec<i64>,
    pub friend_list: Vec<i64>,
    pub ownership: Option<Json>,
    /// Display name of the owner.
    pub owner: String,
    pub lovership: Vec<Json>,
    pub difficulty: Option<Json>,
    pub appearance: Option<Json>,
    pub inventory_data: Option<Json>,
    pub arousal_settings: Option<Json>,
    pub online_shared_settings: Option<Json>,
    pub game: Option<Json>,
    pub map_data: Option<Json>,
    pub label_color: Option<String>,
    pub reputation: Option<Json>,
    pub description: Option<String>,
    pub block_items: Option<Json>,
    pub limited_items: Option<Json>,
    pub favorite_items: Option<Json>,
    pub title: Option<String>,
    pub nickname: Option<String>,
    pub crafting: Option<Json>,
    pub pose: Option<Json>,
    pub active_pose: Option<Json>,
    pub chat_room_id: Option<String>,
    pub delayed_appearance: Option<Json>,
    pub delayed_skill: Option<Json>,
    pub delayed_game: Option<Json>,
    /// The other document fields, kept for the login response and room sync.
    pub extra: StrMap<Json>,
    pub logged_in_at: i64,
}

impl OnlineAccount {
    /// The session of a freshly created account.
    pub fn new_created(
        socket_id: String,
        account_name: String,
        member_number: i64,
        name: String,
        environment: String,
        creation: i64,
    ) -> (r: OnlineAccount)
        ensures
            r.socket_id == socket_id,
            r.account_name == account_name,
            r.member_number == member_number,
            r.name == name,
            r.environment == environment,
            r.creation == creation,
            r.logged_in_at == creation,
            r.item_permission == 2,
            r.white_list@.len() == 0,
            r.black_list@.len() == 0,
            r.friend_list@.len() == 0,
            r.lovership@.len() == 0,
            r.ownership is None,
            r.owner@.len() == 0,
            r.chat_room_id is None,
            r.extra.map().len() == 0,
    {
        OnlineAccount {
            socket_id,
            account_name,
            member_number,
            name,
            environment,
            creation,
            item_permission: 2,
            white_list: Vec::new(),
            black_list: Vec::new(),
            friend_list: Vec::new(),
            ownership: None,
            owner: String::new(),
            lovership: Vec::new(),
            difficulty: None,
            appearance: None,
            inventory_data: None,
            arousal_settings: None,
            online_shared_settings: None,
            game: None,
            map_data: None,
            label_color: None,
            reputation: None,
            description: None,
            block_items: None,
            limited_items: None,
            favorite_items: None,
            title: None,
            nickname: None,
            crafting: None,
            pose: None,
            active_pose: None,
            chat_room_id: None,
            delayed_appearance: None,
            delayed_skill: None,
            delayed_game: None,
            extra: StrMap::new(),
            logged_in_at: creation,
        }
    }

    /// The value of another document field, if the account holds it.
    pub open spec fn spec_extra(self, k: Seq<char>) -> Option<JsonView> {
        if self.extra.map().contains_key(k) {
            Some(self.extra.map()[k]@)
        } else {
            None
        }
    }

    /// Reads another document field.
    pub fn extra_get(&self, k: &str) -> (r: Option<&Json>)
        ensures
            crate::json::opt_view(r) == self.spec_extra(k@),
    {
        self.extra.get(k)
    }

    /// The black list is shown to room peers only at item permission 1 or 2.
    pub fn should_send_blacklist(item_permission: i32) -> (r: bool)
        ensures
            r == (item_permission == 1 || item_permission == 2),
    {
        item_permission == 1 || item_permission == 2
    }

    /// An item permission outside 0..=5 becomes 2.
    pub fn ensure_defaults(&mut self)
        ensures
            final(self).item_permission == if 0 <= old(self).item_permission <= 5 {
                old(self).item_permission
            } else {
                2
            },
    {
        if self.item_permission < 0 || self.item_permission > 5 {
            self.item_permission = 2;
        }
    }
}

} // verus!
