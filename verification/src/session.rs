//! An online account as read from its stored document, and the documents
//! sent about it: the login response and the character shown to a room.

use vstd::prelude::*;
use crate::account_update::{insert_all, extra_view};
use crate::json::{
    Json, JsonView, JsonNumber, EntriesView, entries_get, entries_set, entries_remove, entries_insert,
    entries_take, entries_lookup, view_entries, lemma_view_entries, view_items, lemma_view_items,
    object_entries, number_trunc, first_index,
};
use crate::room::ints_view;
use crate::state::account::OnlineAccount;
use crate::table::StrMap;

verus! {

/// An entry set when a value is given.
pub open spec fn opt_set(e: EntriesView, k: Seq<char>, v: Option<JsonView>) -> EntriesView {
    match v {
        Some(x) => entries_set(e, k, x),
        None => e,
    }
}

/// An entry added unless the key is there.
pub open spec fn or_insert(e: EntriesView, k: Seq<char>, v: JsonView) -> EntriesView {
    if first_index(e, k) >= 0 {
        e
    } else {
        e.push((k, v))
    }
}

/// The entries with those of a table added where their keys are missing, in
/// the table's order.
pub open spec fn or_insert_all(e: EntriesView, t: Seq<(Seq<char>, Json)>) -> EntriesView
    decreases t.len(),
{
    if t.len() == 0 {
        e
    } else {
        let last = t.last();
        or_insert(or_insert_all(e, t.drop_last()), last.0, last.1@)
    }
}

pub open spec fn opt_doc(o: Option<Json>) -> Option<JsonView> {
    match o {
        Some(v) => Some(v@),
        None => None,
    }
}

pub open spec fn opt_text(o: Option<String>) -> Option<JsonView> {
    match o {
        Some(s) => Some(JsonView::Str(s@)),
        None => None,
    }
}

pub open spec fn int_doc(n: i64) -> JsonView {
    JsonView::Number(JsonNumber::Int(n))
}

/// The login response of an account: its identity, permission and lists,
/// the asset family when none is stored, the relationship and character
/// fields it has, then every other stored field not already there.
pub open spec fn login_response(a: OnlineAccount) -> JsonView {
    let e0: EntriesView = seq![
        ("ID"@, JsonView::Str(a.socket_id@)),
        ("AccountName"@, JsonView::Str(a.account_name@)),
        ("MemberNumber"@, int_doc(a.member_number)),
        ("Name"@, JsonView::Str(a.name@)),
        ("Creation"@, int_doc(a.creation)),
        ("ItemPermission"@, int_doc(a.item_permission as i64)),
    ];
    let e1 = if a.extra.map().contains_key("AssetFamily"@) {
        e0
    } else {
        entries_set(e0, "AssetFamily"@, JsonView::Str("Female3DCG"@))
    };
    let e2 = entries_set(
        entries_set(
            entries_set(
                entries_set(e1, "WhiteList"@, ints_view(a.white_list@)),
                "BlackList"@,
                ints_view(a.black_list@),
            ),
            "FriendList"@,
            ints_view(a.friend_list@),
        ),
        "Lovership"@,
        JsonView::Array(view_items(a.lovership@)),
    );
    let e3 = opt_set(e2, "Ownership"@, opt_doc(a.ownership));
    let e4 = if a.owner@.len() > 0 {
        entries_set(e3, "Owner"@, JsonView::Str(a.owner@))
    } else {
        e3
    };
    let e5 = opt_set(
        opt_set(
            opt_set(
                opt_set(
                    opt_set(
                        opt_set(
                            opt_set(opt_set(e4, "Difficulty"@, opt_doc(a.difficulty)), "Appearance"@, opt_doc(a.appearance)),
                            "InventoryData"@,
                            opt_doc(a.inventory_data),
                        ),
                        "ArousalSettings"@,
                        opt_doc(a.arousal_settings),
                    ),
                    "OnlineSharedSettings"@,
                    opt_doc(a.online_shared_settings),
                ),
                "Game"@,
                opt_doc(a.game),
            ),
            "MapData"@,
            opt_doc(a.map_data),
        ),
        "LabelColor"@,
        opt_text(a.label_color),
    );
    let e6 = opt_set(
        opt_set(
            opt_set(
                opt_set(
                    opt_set(
                        opt_set(
                            opt_set(
                                opt_set(opt_set(e5, "Reputation"@, opt_doc(a.reputation)), "Description"@, opt_text(a.description)),
                                "BlockItems"@,
                                opt_doc(a.block_items),
                            ),
                            "LimitedItems"@,
                            opt_doc(a.limited_items),
                        ),
                        "FavoriteItems"@,
                        opt_doc(a.favorite_items),
                    ),
                    "Title"@,
                    opt_text(a.title),
                ),
                "Nickname"@,
                opt_text(a.nickname),
            ),
            "Crafting"@,
            opt_doc(a.crafting),
        ),
        "Pose"@,
        opt_doc(a.pose),
    );
    let e7 = opt_set(e6, "ActivePose"@, opt_doc(a.active_pose));
    JsonView::Object(or_insert_all(e7, a.extra.entries()))
}

fn put(e: &mut Vec<(String, Json)>, k: &str, v: Json)
    ensures
        view_entries(final(e)@) == entries_set(view_entries(old(e)@), k@, v@),
{
    entries_insert(e, crate::text::to_owned_string(k), v);
}

fn put_doc(e: &mut Vec<(String, Json)>, k: &str, v: &Option<Json>)
    ensures
        view_entries(final(e)@) == opt_set(view_entries(old(e)@), k@, opt_doc(*v)),
{
    if let Some(x) = v {
        put(e, k, x.deep_clone());
    }
}

fn put_text(e: &mut Vec<(String, Json)>, k: &str, v: &Option<String>)
    ensures
        view_entries(final(e)@) == opt_set(view_entries(old(e)@), k@, opt_text(*v)),
{
    if let Some(x) = v {
        put(e, k, Json::Str(x.clone()));
    }
}

impl OnlineAccount {
    /// The login response, see [`login_response`].
    pub fn to_login_response(&self) -> (r: Json)
        ensures
            r@ == login_response(*self),
    {
        let mut e: Vec<(String, Json)> = Vec::new();
        e.push((crate::text::to_owned_string("ID"), Json::Str(self.socket_id.clone())));
        e.push((crate::text::to_owned_string("AccountName"), Json::Str(self.account_name.clone())));
        e.push((crate::text::to_owned_string("MemberNumber"), crate::json::int_value(self.member_number)));
        e.push((crate::text::to_owned_string("Name"), Json::Str(self.name.clone())));
        e.push((crate::text::to_owned_string("Creation"), crate::json::int_value(self.creation)));
        e.push((crate::text::to_owned_string("ItemPermission"), crate::json::int_value(self.item_permission as i64)));
        proof {
            lemma_view_entries(e@);
            assert(view_entries(e@) =~= seq![
                ("ID"@, JsonView::Str(self.socket_id@)),
                ("AccountName"@, JsonView::Str(self.account_name@)),
                ("MemberNumber"@, int_doc(self.member_number)),
                ("Name"@, JsonView::Str(self.name@)),
                ("Creation"@, int_doc(self.creation)),
                ("ItemPermission"@, int_doc(self.item_permission as i64)),
            ]);
        }
        if !self.extra.contains_key("AssetFamily") {
            put(&mut e, "AssetFamily", crate::json::str_value("Female3DCG"));
        }
        put(&mut e, "WhiteList", crate::room::ints_json(&self.white_list));
        put(&mut e, "BlackList", crate::room::ints_json(&self.black_list));
        put(&mut e, "FriendList", crate::room::ints_json(&self.friend_list));
        put(&mut e, "Lovership", Json::Array(crate::json::clone_items(&self.lovership)));
        put_doc(&mut e, "Ownership", &self.ownership);
        if crate::text::char_count(self.owner.as_str()) > 0 {
            put(&mut e, "Owner", Json::Str(self.owner.clone()));
        }
        put_doc(&mut e, "Difficulty", &self.difficulty);
        put_doc(&mut e, "Appearance", &self.appearance);
        put_doc(&mut e, "InventoryData", &self.inventory_data);
        put_doc(&mut e, "ArousalSettings", &self.arousal_settings);
        put_doc(&mut e, "OnlineSharedSettings", &self.online_shared_settings);
        put_doc(&mut e, "Game", &self.game);
        put_doc(&mut e, "MapData", &self.map_data);
        put_text(&mut e, "LabelColor", &self.label_color);
        put_doc(&mut e, "Reputation", &self.reputation);
        put_text(&mut e, "Description", &self.description);
        put_doc(&mut e, "BlockItems", &self.block_items);
        put_doc(&mut e, "LimitedItems", &self.limited_items);
        put_doc(&mut e, "FavoriteItems", &self.favorite_items);
        put_text(&mut e, "Title", &self.title);
        put_text(&mut e, "Nickname", &self.nickname);
        put_doc(&mut e, "Crafting", &self.crafting);
        put_doc(&mut e, "Pose", &self.pose);
        put_doc(&mut e, "ActivePose", &self.active_pose);
        let ghost e7 = view_entries(e@);
        let n = self.extra.len();
        let mut i: usize = 0;
        while i < n
            invariant
                i <= n,
                n == self.extra.entries().len(),
                view_entries(e@) == or_insert_all(e7, self.extra.entries().take(i as int)),
            decreases n - i,
        {
            let k = self.extra.key_at(i);
            proof {
                assert(self.extra.entries().take(i + 1).drop_last() =~= self.extra.entries().take(i as int));
            }
            match crate::json::entries_position(&e, k.as_str()) {
                Some(_) => {},
                None => {
                    let ghost before = e@;
                    e.push((k.clone(), self.extra.value_at(i).deep_clone()));
                    proof {
                        crate::json::lemma_view_entries_push(before, e@.last());
                        assert(e@ =~= before.push(e@.last()));
                    }
                },
            }
            i += 1;
        }
        proof {
            assert(self.extra.entries().take(n as int) =~= self.extra.entries());
        }
        Json::Object(e)
    }
}

/// The stored fields never kept in memory after login.
pub open spec fn purged_key(k: Seq<char>) -> bool {
    k == "Log"@ || k == "Skill"@ || k == "Wardrobe"@ || k == "WardrobeCharacterNames"@ || k == "ChatSettings"@
        || k == "VisualSettings"@ || k == "AudioSettings"@ || k == "GameplaySettings"@ || k == "GhostList"@ || k
        == "HiddenItems"@ || k == "LastLogin"@ || k == "Password"@ || k == "Email"@
}

/// The fields never shown to room peers.
pub open spec fn private_key(k: Seq<char>) -> bool {
    k == "Money"@ || k == "FriendList"@ || k == "AccountName"@ || k == "Password"@ || k == "Email"@ || k == "Log"@
        || k == "Skill"@ || k == "Wardrobe"@ || k == "WardrobeCharacterNames"@ || k == "ChatSettings"@ || k
        == "VisualSettings"@ || k == "AudioSettings"@ || k == "GameplaySettings"@ || k == "GhostList"@ || k
        == "HiddenItems"@ || k == "LastLogin"@ || k == "OnlineSettings"@ || k == "GraphicsSettings"@ || k
        == "NotificationSettings"@ || k == "ControllerSettings"@ || k == "ImmersionSettings"@ || k
        == "RestrictionSettings"@ || k == "GenderSettings"@ || k == "ExtensionSettings"@ || k == "FriendNames"@ || k
        == "SubmissivesList"@
}

fn key_in(k: &str, keys: &[&str]) -> (r: bool)
    ensures
        r == exists|i: int| 0 <= i < keys@.len() && k@ == (#[trigger] keys@[i])@,
{
    let mut i: usize = 0;
    while i < keys.len()
        invariant
            i <= keys@.len(),
            forall|j: int| 0 <= j < i ==> k@ != (#[trigger] keys@[j])@,
        decreases keys@.len() - i,
    {
        if crate::text::str_eq(k, keys[i]) {
            return true;
        }
        i += 1;
    }
    false
}

fn is_purged_key(k: &str) -> (r: bool)
    ensures
        r == purged_key(k@),
{
    let keys = [
        "Log",
        "Skill",
        "Wardrobe",
        "WardrobeCharacterNames",
        "ChatSettings",
        "VisualSettings",
        "AudioSettings",
        "GameplaySettings",
        "GhostList",
        "HiddenItems",
        "LastLogin",
        "Password",
        "Email",
    ];
    let r = key_in(k, &keys);
    proof {
        if purged_key(k@) {
            if k@ == "Log"@ { assert(k@ == keys@[0]@); }
            else if k@ == "Skill"@ { assert(k@ == keys@[1]@); }
            else if k@ == "Wardrobe"@ { assert(k@ == keys@[2]@); }
            else if k@ == "WardrobeCharacterNames"@ { assert(k@ == keys@[3]@); }
            else if k@ == "ChatSettings"@ { assert(k@ == keys@[4]@); }
            else if k@ == "VisualSettings"@ { assert(k@ == keys@[5]@); }
            else if k@ == "AudioSettings"@ { assert(k@ == keys@[6]@); }
            else if k@ == "GameplaySettings"@ { assert(k@ == keys@[7]@); }
            else if k@ == "GhostList"@ { assert(k@ == keys@[8]@); }
            else if k@ == "HiddenItems"@ { assert(k@ == keys@[9]@); }
            else if k@ == "LastLogin"@ { assert(k@ == keys@[10]@); }
            else if k@ == "Password"@ { assert(k@ == keys@[11]@); }
            else { assert(k@ == keys@[12]@); }
        }
    }
    r
}

fn is_private_key(k: &str) -> (r: bool)
    ensures
        r == private_key(k@),
{
    let keys = [
        "Money",
        "FriendList",
        "AccountName",
        "Password",
        "Email",
        "Log",
        "Skill",
        "Wardrobe",
        "WardrobeCharacterNames",
        "ChatSettings",
        "VisualSettings",
        "AudioSettings",
        "GameplaySettings",
        "GhostList",
        "HiddenItems",
        "LastLogin",
        "OnlineSettings",
        "GraphicsSettings",
        "NotificationSettings",
        "ControllerSettings",
        "ImmersionSettings",
        "RestrictionSettings",
        "GenderSettings",
        "ExtensionSettings",
        "FriendNames",
        "SubmissivesList",
    ];
    let r = key_in(k, &keys);
    proof {
        if private_key(k@) {
            let i = choose|i: int| 0 <= i < 26 && k@ == keys@[i]@;
            assert(exists|i: int| 0 <= i < 26 && k@ == keys@[i]@);
        }
    }
    r
}

pub open spec fn kept_key(p: spec_fn(Seq<char>) -> bool) -> spec_fn((Seq<char>, JsonView)) -> bool {
    |q: (Seq<char>, JsonView)| !p(q.0)
}

/// The members of a list that are in the room.
pub open spec fn in_room(v: Seq<i64>, room: Seq<i64>) -> Seq<i64> {
    v.filter(|m: i64| room.contains(m))
}

/// The character shown to a room's peers: the login response without the
/// private fields, with the asset family; in a room (members given), the
/// white list narrowed to the room's members, and the black list too when
/// the character shows it (item permission 1 or 2), else empty.
pub open spec fn synced_character(a: OnlineAccount, members: Seq<i64>) -> JsonView {
    let e0 = object_entries(login_response(a));
    let e1 = or_insert(e0, "AssetFamily"@, JsonView::Str("Female3DCG"@));
    let e2 = e1.filter(kept_key(|k: Seq<char>| private_key(k)));
    if members.len() == 0 {
        JsonView::Object(e2)
    } else {
        let e3 = entries_set(e2, "WhiteList"@, ints_view(in_room(a.white_list@, members)));
        JsonView::Object(
            entries_set(
                e3,
                "BlackList"@,
                if a.item_permission == 1 || a.item_permission == 2 {
                    ints_view(in_room(a.black_list@, members))
                } else {
                    ints_view(Seq::empty())
                },
            ),
        )
    }
}

fn members_in_room(v: &Vec<i64>, room: &Vec<i64>) -> (r: Vec<i64>)
    ensures
        r@ == in_room(v@, room@),
{
    let ghost p = |m: i64| room@.contains(m);
    let mut out: Vec<i64> = Vec::new();
    let mut i: usize = 0;
    while i < v.len()
        invariant
            i <= v.len(),
            p == (|m: i64| room@.contains(m)),
            out@ == v@.take(i as int).filter(p),
        decreases v.len() - i,
    {
        proof {
            crate::lists::lemma_filter_take_step(v@, p, i as int);
        }
        if crate::lists::contains_i64(room, v[i]) {
            out.push(v[i]);
        }
        i += 1;
    }
    proof {
        assert(v@.take(v.len() as int) =~= v@);
    }
    out
}

impl OnlineAccount {
    /// Drops the bulky and sensitive stored fields from memory after login.
    pub fn purge_after_login(&mut self)
        ensures
            forall|k: Seq<char>| #[trigger] final(self).extra.map().contains_key(k) <==> old(self).extra.map().contains_key(k) && !purged_key(k),
            forall|k: Seq<char>| #[trigger] final(self).extra.map().contains_key(k) ==> final(self).extra.map()[k] == old(self).extra.map()[k],
            *final(self) == (OnlineAccount { extra: final(self).extra, ..*old(self) }),
    {
        let keys = [
            "Log",
            "Skill",
            "Wardrobe",
            "WardrobeCharacterNames",
            "ChatSettings",
            "VisualSettings",
            "AudioSettings",
            "GameplaySettings",
            "GhostList",
            "HiddenItems",
            "LastLogin",
            "Password",
            "Email",
        ];
        let ghost m0 = self.extra.map();
        let mut i: usize = 0;
        while i < 13
            invariant
                i <= 13,
                keys@.len() == 13,
                forall|j: int| 0 <= j < 13 ==> purged_key((#[trigger] keys@[j])@),
                forall|k: Seq<char>| #[trigger] self.extra.map().contains_key(k) <==> m0.contains_key(k) && !(exists|j: int| 0 <= j < i && k == (#[trigger] keys@[j])@),
                forall|k: Seq<char>| #[trigger] self.extra.map().contains_key(k) ==> self.extra.map()[k] == m0[k],
                *self == (OnlineAccount { extra: self.extra, ..*old(self) }),
            decreases 13 - i,
        {
            self.extra.remove(keys[i]);
            i += 1;
        }
        proof {
            assert forall|k: Seq<char>| purged_key(k) implies exists|j: int| 0 <= j < 13 && k == (#[trigger] keys@[j])@ by {
                if k == "Log"@ { assert(k == keys@[0]@); }
                else if k == "Skill"@ { assert(k == keys@[1]@); }
                else if k == "Wardrobe"@ { assert(k == keys@[2]@); }
                else if k == "WardrobeCharacterNames"@ { assert(k == keys@[3]@); }
                else if k == "ChatSettings"@ { assert(k == keys@[4]@); }
                else if k == "VisualSettings"@ { assert(k == keys@[5]@); }
                else if k == "AudioSettings"@ { assert(k == keys@[6]@); }
                else if k == "GameplaySettings"@ { assert(k == keys@[7]@); }
                else if k == "GhostList"@ { assert(k == keys@[8]@); }
                else if k == "HiddenItems"@ { assert(k == keys@[9]@); }
                else if k == "LastLogin"@ { assert(k == keys@[10]@); }
                else if k == "Password"@ { assert(k == keys@[11]@); }
                else { assert(k == keys@[12]@); }
            }
        }
    }

    /// The character shown to peers outside any room context.
    pub fn to_synced_character(&self) -> (r: Json)
        ensures
            r@ == synced_character(*self, Seq::empty()),
    {
        let none: Vec<i64> = Vec::new();
        let r = self.to_synced_character_for_room(&none);
        assert(none@ =~= Seq::<i64>::empty());
        r
    }

    /// The character shown to a room's peers, see [`synced_character`].
    pub fn to_synced_character_for_room(&self, room_members: &Vec<i64>) -> (r: Json)
        ensures
            r@ == synced_character(*self, room_members@),
    {
        let resp = self.to_login_response();
        let mut e = crate::json::entries_copy(&resp);
        if crate::json::entries_position(&e, "AssetFamily").is_none() {
            let ghost before = e@;
            e.push((crate::text::to_owned_string("AssetFamily"), crate::json::str_value("Female3DCG")));
            proof {
                crate::json::lemma_view_entries_push(before, e@.last());
                assert(e@ =~= before.push(e@.last()));
            }
        }
        let ghost ev = view_entries(e@);
        let ghost p = kept_key(|k: Seq<char>| private_key(k));
        proof {
            lemma_view_entries(e@);
        }
        let mut out: Vec<(String, Json)> = Vec::new();
        let mut i: usize = 0;
        while i < e.len()
            invariant
                i <= e.len(),
                ev == view_entries(e@),
                ev.len() == e.len(),
                p == kept_key(|k: Seq<char>| private_key(k)),
                forall|q: int| 0 <= q < e.len() ==> #[trigger] ev[q] == (e@[q].0@, crate::json::json_view(e@[q].1)),
                view_entries(out@) == ev.take(i as int).filter(p),
            decreases e.len() - i,
        {
            proof {
                crate::lists::lemma_filter_take_step(ev, p, i as int);
            }
            if !is_private_key(e[i].0.as_str()) {
                let ghost before = out@;
                out.push((e[i].0.clone(), e[i].1.deep_clone()));
                proof {
                    lemma_view_entries(before);
                    lemma_view_entries(out@);
                    assert(view_entries(out@) =~= view_entries(before).push(ev[i as int]));
                }
            }
            i += 1;
        }
        proof {
            assert(ev.take(e.len() as int) =~= ev);
        }
        if room_members.len() > 0 {
            let wl = members_in_room(&self.white_list, room_members);
            put(&mut out, "WhiteList", crate::room::ints_json(&wl));
            if OnlineAccount::should_send_blacklist(self.item_permission) {
                let bl = members_in_room(&self.black_list, room_members);
                put(&mut out, "BlackList", crate::room::ints_json(&bl));
            } else {
                let none: Vec<i64> = Vec::new();
                proof {
                    assert(none@ =~= Seq::<i64>::empty());
                }
                put(&mut out, "BlackList", crate::room::ints_json(&none));
            }
        }
        Json::Object(out)
    }
}

// ---------------------------------------------------------------------------
// Reading a stored account
// ---------------------------------------------------------------------------

/// An integer field of a stored document: a number (truncated) or a text
/// that parses as one.
pub open spec fn doc_i64(v: Option<JsonView>) -> Option<i64> {
    match v {
        Some(JsonView::Number(n)) => Some(number_trunc(n)),
        Some(JsonView::Str(s)) => crate::text::spec_parse_i64(s),
        _ => None,
    }
}

/// A text field of a stored document.
pub open spec fn doc_text(v: Option<JsonView>) -> Option<Seq<char>> {
    match v {
        Some(JsonView::Str(s)) => Some(s),
        _ => None,
    }
}

/// A member list of a stored document: the numbers of a list (truncated).
pub open spec fn doc_members(v: Option<JsonView>) -> Seq<i64> {
    match v {
        Some(JsonView::Array(a)) => a.filter(|x: JsonView| x is Number).map_values(
            |x: JsonView| match x {
                JsonView::Number(n) => number_trunc(n),
                _ => 0,
            },
        ),
        _ => Seq::empty(),
    }
}

/// The lover list of a stored document: a list, or a single entry.
pub open spec fn doc_lovers(v: Option<JsonView>) -> Seq<JsonView> {
    match v {
        Some(JsonView::Array(a)) => a,
        Some(JsonView::Null) => Seq::empty(),
        Some(x) => seq![x],
        None => Seq::empty(),
    }
}

/// The stored fields read into their own session fields (and the secrets
/// and id never kept).
pub open spec fn session_key(k: Seq<char>) -> bool {
    k == "AccountName"@ || k == "MemberNumber"@ || k == "Name"@ || k == "Creation"@ || k == "ItemPermission"@ || k
        == "WhiteList"@ || k == "BlackList"@ || k == "FriendList"@ || k == "Ownership"@ || k == "Owner"@ || k
        == "Lovership"@ || k == "Difficulty"@ || k == "Appearance"@ || k == "InventoryData"@ || k
        == "ArousalSettings"@ || k == "OnlineSharedSettings"@ || k == "Game"@ || k == "MapData"@ || k
        == "LabelColor"@ || k == "Reputation"@ || k == "Description"@ || k == "BlockItems"@ || k
        == "LimitedItems"@ || k == "FavoriteItems"@ || k == "Title"@ || k == "Nickname"@ || k == "Crafting"@ || k
        == "Pose"@ || k == "ActivePose"@ || k == "Password"@ || k == "Email"@ || k == "_id"@
}

fn is_session_key(k: &str) -> (r: bool)
    ensures
        r == session_key(k@),
{
    let keys = [
        "AccountName",
        "MemberNumber",
        "Name",
        "Creation",
        "ItemPermission",
        "WhiteList",
        "BlackList",
        "FriendList",
        "Ownership",
        "Owner",
        "Lovership",
        "Difficulty",
        "Appearance",
        "InventoryData",
        "ArousalSettings",
        "OnlineSharedSettings",
        "Game",
        "MapData",
        "LabelColor",
        "Reputation",
        "Description",
        "BlockItems",
        "LimitedItems",
        "FavoriteItems",
        "Title",
        "Nickname",
        "Crafting",
        "Pose",
        "ActivePose",
        "Password",
        "Email",
        "_id",
    ];
    let r = key_in(k, &keys);
    proof {
        if session_key(k@) {
            assert(exists|i: int| 0 <= i < 32 && k@ == keys@[i]@);
        }
    }
    r
}

/// A field of a stored document.
pub open spec fn doc_get(doc: JsonView, k: Seq<char>) -> Option<JsonView> {
    crate::json::entries_get(object_entries(doc), k)
}

/// The online account read from a stored document at time `now`: the
/// session fields from their stored fields (text fields that are no text
/// read as missing), item permission 2 and creation `now` by default, the
/// other fields kept as they are but the secrets and the document id.
pub open spec fn account_from_doc(r: OnlineAccount, socket_id: String, environment: String, doc: JsonView, now: i64) -> bool {
    let g = |k: Seq<char>| doc_get(doc, k);
    &&& r.socket_id == socket_id
    &&& r.environment == environment
    &&& r.account_name@ == match doc_text(g("AccountName"@)) {
        Some(s) => s,
        None => Seq::empty(),
    }
    &&& r.member_number == match doc_i64(g("MemberNumber"@)) {
        Some(n) => n,
        None => 0,
    }
    &&& r.name@ == match doc_text(g("Name"@)) {
        Some(s) => s,
        None => Seq::empty(),
    }
    &&& r.creation == match doc_i64(g("Creation"@)) {
        Some(n) => n,
        None => now,
    }
    &&& r.item_permission == match doc_i64(g("ItemPermission"@)) {
        Some(n) => n as i32,
        None => 2,
    }
    &&& r.white_list@ == doc_members(g("WhiteList"@))
    &&& r.black_list@ == doc_members(g("BlackList"@))
    &&& r.friend_list@ == doc_members(g("FriendList"@))
    &&& opt_doc(r.ownership) == g("Ownership"@)
    &&& r.owner@ == match doc_text(g("Owner"@)) {
        Some(s) => s,
        None => Seq::empty(),
    }
    &&& view_items(r.lovership@) == doc_lovers(g("Lovership"@))
    &&& opt_doc(r.difficulty) == g("Difficulty"@)
    &&& opt_doc(r.appearance) == g("Appearance"@)
    &&& opt_doc(r.inventory_data) == g("InventoryData"@)
    &&& opt_doc(r.arousal_settings) == g("ArousalSettings"@)
    &&& opt_doc(r.online_shared_settings) == g("OnlineSharedSettings"@)
    &&& opt_doc(r.game) == g("Game"@)
    &&& opt_doc(r.map_data) == g("MapData"@)
    &&& opt_text(r.label_color) == match doc_text(g("LabelColor"@)) {
        Some(s) => Some(JsonView::Str(s)),
        None => None,
    }
    &&& opt_doc(r.reputation) == g("Reputation"@)
    &&& opt_text(r.description) == match doc_text(g("Description"@)) {
        Some(s) => Some(JsonView::Str(s)),
        None => None,
    }
    &&& opt_doc(r.block_items) == g("BlockItems"@)
    &&& opt_doc(r.limited_items) == g("LimitedItems"@)
    &&& opt_doc(r.favorite_items) == g("FavoriteItems"@)
    &&& opt_text(r.title) == match doc_text(g("Title"@)) {
        Some(s) => Some(JsonView::Str(s)),
        None => None,
    }
    &&& opt_text(r.nickname) == match doc_text(g("Nickname"@)) {
        Some(s) => Some(JsonView::Str(s)),
        None => None,
    }
    &&& opt_doc(r.crafting) == g("Crafting"@)
    &&& opt_doc(r.pose) == g("Pose"@)
    &&& opt_doc(r.active_pose) == g("ActivePose"@)
    &&& r.chat_room_id is None
    &&& r.delayed_appearance is None
    &&& r.delayed_skill is None
    &&& r.delayed_game is None
    &&& extra_view(r) == insert_all(Map::empty(), object_entries(doc).filter(kept_key(|k: Seq<char>| session_key(k))))
    &&& r.logged_in_at == now
}

fn doc_i64_of(v: Option<&Json>) -> (r: Option<i64>)
    ensures
        r == doc_i64(crate::json::opt_view(v)),
{
    match v {
        Some(Json::Number(n)) => Some(
            match n {
                JsonNumber::Int(i) => *i,
                JsonNumber::Big(_) => i64::MAX,
                JsonNumber::Float(f) => f.trunc,
            },
        ),
        Some(Json::Str(s)) => crate::text::parse_i64(s.as_str()),
        _ => None,
    }
}

fn doc_text_of(v: Option<&Json>) -> (r: Option<String>)
    ensures
        match doc_text(crate::json::opt_view(v)) {
            Some(s) => r matches Some(x) && x@ == s,
            None => r is None,
        },
{
    match v {
        Some(Json::Str(s)) => Some(s.clone()),
        _ => None,
    }
}

fn doc_members_of(v: Option<&Json>) -> (r: Vec<i64>)
    ensures
        r@ == doc_members(crate::json::opt_view(v)),
{
    let a = match v {
        Some(Json::Array(a)) => a,
        _ => {
            let r: Vec<i64> = Vec::new();
            assert(r@ =~= Seq::<i64>::empty());
            return r;
        },
    };
    let ghost av = view_items(a@);
    let ghost p = |x: JsonView| x is Number;
    let ghost f = |x: JsonView| match x {
        JsonView::Number(n) => number_trunc(n),
        _ => 0,
    };
    proof {
        lemma_view_items(a@);
    }
    let mut out: Vec<i64> = Vec::new();
    let mut i: usize = 0;
    while i < a.len()
        invariant
            i <= a.len(),
            av == view_items(a@),
            av.len() == a.len(),
            p == (|x: JsonView| x is Number),
            f == (|x: JsonView| match x {
                JsonView::Number(n) => number_trunc(n),
                _ => 0,
            }),
            forall|k: int| 0 <= k < a.len() ==> #[trigger] av[k] == crate::json::json_view(a@[k]),
            out@ == av.take(i as int).filter(p).map_values(f),
        decreases a.len() - i,
    {
        proof {
            crate::lists::lemma_filter_take_step(av, p, i as int);
        }
        let ghost before = av.take(i as int).filter(p);
        match &a[i] {
            Json::Number(n) => {
                let t = match n {
                    JsonNumber::Int(x) => *x,
                    JsonNumber::Big(_) => i64::MAX,
                    JsonNumber::Float(fl) => fl.trunc,
                };
                out.push(t);
                proof {
                    assert(before.push(av[i as int]).map_values(f) =~= before.map_values(f).push(f(av[i as int])));
                }
            },
            _ => {},
        }
        i += 1;
    }
    proof {
        assert(av.take(a.len() as int) =~= av);
    }
    out
}

fn doc_json(v: Option<&Json>) -> (r: Option<Json>)
    ensures
        opt_doc(r) == crate::json::opt_view(v),
{
    match v {
        Some(x) => Some(x.deep_clone()),
        None => None,
    }
}

impl OnlineAccount {
    /// The online account read from a stored document at time `now`, see
    /// [`account_from_doc`].
    pub fn from_db_doc_at(socket_id: String, environment: String, doc: &Json, now: i64) -> (r: OnlineAccount)
        requires
            doc@ is Object,
        ensures
            account_from_doc(r, socket_id, environment, doc@, now),
    {
        let obj = match doc {
            Json::Object(o) => o,
            _ => {
                assert(false);
                return OnlineAccount::new_created(socket_id, String::new(), 0, String::new(), environment, now);
            },
        };
        let g = |k: &str| -> (r: Option<&Json>)
            ensures
                crate::json::opt_view(r) == doc_get(doc@, k@),
        {
            entries_lookup(obj, k)
        };
        let lovership = match g("Lovership") {
            Some(Json::Array(a)) => crate::json::clone_items(a),
            Some(Json::Null) => Vec::new(),
            Some(x) => {
                let mut v: Vec<Json> = Vec::new();
                v.push(x.deep_clone());
                v
            },
            None => Vec::new(),
        };
        proof {
            lemma_view_items(lovership@);
            assert(view_items(lovership@) =~= doc_lovers(doc_get(doc@, "Lovership"@)));
        }
        let mut extra: StrMap<Json> = StrMap::new();
        let ghost ov = view_entries(obj@);
        let ghost p = kept_key(|k: Seq<char>| session_key(k));
        proof {
            lemma_view_entries(obj@);
            assert(extra.map().map_values(|j: Json| j@) =~= Map::<Seq<char>, JsonView>::empty());
        }
        let mut i: usize = 0;
        while i < obj.len()
            invariant
                i <= obj.len(),
                ov == view_entries(obj@),
                ov.len() == obj.len(),
                p == kept_key(|k: Seq<char>| session_key(k)),
                forall|q: int| 0 <= q < obj.len() ==> #[trigger] ov[q] == (obj@[q].0@, crate::json::json_view(obj@[q].1)),
                extra.map().map_values(|j: Json| j@) == insert_all(Map::empty(), ov.take(i as int).filter(p)),
            decreases obj.len() - i,
        {
            proof {
                crate::lists::lemma_filter_take_step(ov, p, i as int);
            }
            if !is_session_key(obj[i].0.as_str()) {
                let ghost before = extra.map();
                let c = obj[i].1.deep_clone();
                let ghost cc = c;
                extra.insert(obj[i].0.clone(), c);
                proof {
                    assert(before.insert(obj@[i as int].0@, cc).map_values(|j: Json| j@) =~= before.map_values(|j: Json| j@).insert(obj@[i as int].0@, cc@));
                    let t = ov.take(i as int).filter(p);
                    assert(t.push(ov[i as int]).drop_last() =~= t);
                }
            }
            i += 1;
        }
        proof {
            assert(ov.take(obj.len() as int) =~= ov);
        }
        let account_name = match doc_text_of(g("AccountName")) {
            Some(s) => s,
            None => String::new(),
        };
        let name = match doc_text_of(g("Name")) {
            Some(s) => s,
            None => String::new(),
        };
        let owner = match doc_text_of(g("Owner")) {
            Some(s) => s,
            None => String::new(),
        };
        let item_permission: i32 = match doc_i64_of(g("ItemPermission")) {
            Some(n) => #[verifier::truncate] (n as i32),
            None => 2,
        };
        OnlineAccount {
            socket_id,
            account_name,
            member_number: match doc_i64_of(g("MemberNumber")) {
                Some(n) => n,
                None => 0,
            },
            name,
            environment,
            creation: match doc_i64_of(g("Creation")) {
                Some(n) => n,
                None => now,
            },
            item_permission,
            white_list: doc_members_of(g("WhiteList")),
            black_list: doc_members_of(g("BlackList")),
            friend_list: doc_members_of(g("FriendList")),
            ownership: doc_json(g("Ownership")),
            owner,
            lovership,
            difficulty: doc_json(g("Difficulty")),
            appearance: doc_json(g("Appearance")),
            inventory_data: doc_json(g("InventoryData")),
            arousal_settings: doc_json(g("ArousalSettings")),
            online_shared_settings: doc_json(g("OnlineSharedSettings")),
            game: doc_json(g("Game")),
            map_data: doc_json(g("MapData")),
            label_color: doc_text_of(g("LabelColor")),
            reputation: doc_json(g("Reputation")),
            description: doc_text_of(g("Description")),
            block_items: doc_json(g("BlockItems")),
            limited_items: doc_json(g("LimitedItems")),
            favorite_items: doc_json(g("FavoriteItems")),
            title: doc_text_of(g("Title")),
            nickname: doc_text_of(g("Nickname")),
            crafting: doc_json(g("Crafting")),
            pose: doc_json(g("Pose")),
            active_pose: doc_json(g("ActivePose")),
            chat_room_id: None,
            delayed_appearance: None,
            delayed_skill: None,
            delayed_game: None,
            extra,
            logged_in_at: now,
        }
    }

    /// The online account read from a stored document now.
    pub fn from_db_doc(socket_id: String, environment: String, doc: &Json) -> (r: OnlineAccount)
        requires
            doc@ is Object,
        ensures
            account_from_doc(r, socket_id, environment, doc@, r.logged_in_at),
    {
        let now = crate::time::common_time();
        OnlineAccount::from_db_doc_at(socket_id, environment, doc, now)
    }
}

} // verus!
