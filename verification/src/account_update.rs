//! A client's update of its own account: which fields it may change, how
//! they land in the online session, and what is saved.

use vstd::prelude::*;
use crate::admin::ints_among;
use crate::json::{
    Json, JsonView, EntriesView, entries_get, entries_set, entries_remove, entries_insert, entries_take,
    entries_lookup, entries_copy, view_entries, lemma_view_entries, view_items, lemma_view_items, object_entries,
};
use crate::json_path::{set_path, path_segments, apply_dotted_path};
use crate::state::account::OnlineAccount;
use crate::text::{has_char, has_prefix};

verus! {

/// The fields a client may not change through an update.
pub open spec fn immutable_key(k: Seq<char>) -> bool {
    k == "Name"@ || k == "AccountName"@ || k == "Password"@ || k == "Email"@ || k == "Creation"@ || k
        == "LastLogin"@ || k == "Pose"@ || k == "ActivePose"@ || k == "ChatRoom"@ || k == "ID"@ || k
        == "Socket"@ || k == "Inventory"@ || k == "_id"@ || k == "MemberNumber"@ || k == "Environment"@ || k
        == "Ownership"@ || k == "Lovership"@ || k == "Difficulty"@ || k == "AssetFamily"@ || k
        == "DelayedAppearanceUpdate"@ || k == "DelayedSkillUpdate"@ || k == "DelayedGameUpdate"@
}

pub fn is_immutable_key(k: &str) -> (r: bool)
    ensures
        r == immutable_key(k@),
{
    let keys = [
        "Name",
        "AccountName",
        "Password",
        "Email",
        "Creation",
        "LastLogin",
        "Pose",
        "ActivePose",
        "ChatRoom",
        "ID",
        "Socket",
        "Inventory",
        "_id",
        "MemberNumber",
        "Environment",
        "Ownership",
        "Lovership",
        "Difficulty",
        "AssetFamily",
        "DelayedAppearanceUpdate",
        "DelayedSkillUpdate",
        "DelayedGameUpdate",
    ];
    let mut i: usize = 0;
    while i < 22
        invariant
            i <= 22,
            keys@ == seq![
                "Name",
                "AccountName",
                "Password",
                "Email",
                "Creation",
                "LastLogin",
                "Pose",
                "ActivePose",
                "ChatRoom",
                "ID",
                "Socket",
                "Inventory",
                "_id",
                "MemberNumber",
                "Environment",
                "Ownership",
                "Lovership",
                "Difficulty",
                "AssetFamily",
                "DelayedAppearanceUpdate",
                "DelayedSkillUpdate",
                "DelayedGameUpdate",
            ],
            forall|j: int| 0 <= j < i ==> k@ != (#[trigger] keys@[j])@,
        decreases 22 - i,
    {
        if crate::text::str_eq(k, keys[i]) {
            return true;
        }
        i += 1;
    }
    false
}

/// The update holds a field whose change is shown to the room.
pub open spec fn has_room_sync_field(e: EntriesView) -> bool {
    entries_get(e, "MapData"@) is Some || entries_get(e, "Title"@) is Some || entries_get(e, "Nickname"@) is Some
        || entries_get(e, "Crafting"@) is Some || entries_get(e, "Reputation"@) is Some || entries_get(
        e,
        "Description"@,
    ) is Some || entries_get(e, "LabelColor"@) is Some || entries_get(e, "ItemPermission"@) is Some
        || entries_get(e, "InventoryData"@) is Some || entries_get(e, "BlockItems"@) is Some || entries_get(
        e,
        "LimitedItems"@,
    ) is Some || entries_get(e, "FavoriteItems"@) is Some || entries_get(e, "OnlineSharedSettings"@) is Some
        || entries_get(e, "WhiteList"@) is Some || entries_get(e, "BlackList"@) is Some
}

pub open spec fn mutable_entry() -> spec_fn((Seq<char>, JsonView)) -> bool {
    |p: (Seq<char>, JsonView)| !immutable_key(p.0)
}

/// The update's entries without the fields a client may not change.
pub open spec fn mutable_entries(e: EntriesView) -> EntriesView {
    e.filter(mutable_entry())
}

/// A lover list as kept for an NPC lover: entries with a dating offer are
/// dropped, engagement and wedding offers stripped.
pub open spec fn npc_clean(list: Seq<JsonView>) -> Seq<JsonView> {
    list.filter(|l: JsonView| l.get("BeginDatingOfferedByMemberNumber"@) is None).map_values(
        |l: JsonView| match l {
            JsonView::Object(e) => JsonView::Object(
                entries_remove(entries_remove(e, "BeginEngagementOfferedByMemberNumber"@), "BeginWeddingOfferedByMemberNumber"@),
            ),
            _ => l,
        },
    )
}

/// An NPC lover named by an update (`Lover` starting with "NPC-") is added
/// when the account has room for a lover (fewer than 5) and none of that
/// name: the lover list after it, if added.
pub open spec fn npc_lover_added(lovers: Seq<JsonView>, e: EntriesView) -> Option<Seq<JsonView>> {
    match entries_get(e, "Lover"@) {
        Some(JsonView::Str(l)) => if has_prefix(l, "NPC-"@) && lovers.len() < 5 && !(exists|i: int|
            0 <= i < lovers.len() && (#[trigger] lovers[i]).get_str("Name"@) == Some(l)) {
            Some(npc_clean(lovers.push(JsonView::Object(seq![("Name"@, JsonView::Str(l))]))))
        } else {
            None
        },
        _ => None,
    }
}

/// The update's fields once a text `Lover` is taken out.
pub open spec fn without_lover(e: EntriesView) -> EntriesView {
    match entries_get(e, "Lover"@) {
        Some(JsonView::Str(_)) => entries_remove(e, "Lover"@),
        _ => e,
    }
}

/// The text before the first dot.
pub open spec fn first_segment(s: Seq<char>) -> Seq<char>
    decreases s.len(),
{
    if s.len() == 0 || s[0] == '.' {
        Seq::empty()
    } else {
        seq![s[0]] + first_segment(s.drop_first())
    }
}

/// A map with the entries inserted in order.
pub open spec fn insert_all(m: Map<Seq<char>, JsonView>, e: EntriesView) -> Map<Seq<char>, JsonView>
    decreases e.len(),
{
    if e.len() == 0 {
        m
    } else {
        insert_all(m, e.drop_last()).insert(e.last().0, e.last().1)
    }
}

/// One update field applied to the other document fields: a dotted path is
/// set within the field of its first segment, `ExtensionSettings`, `Money`
/// and `Log` are taken over.
pub open spec fn extra_step(m: Map<Seq<char>, JsonView>, k: Seq<char>, v: JsonView) -> Map<Seq<char>, JsonView> {
    if has_char(k, '.') {
        let first = first_segment(k);
        let seed: EntriesView = if m.contains_key(first) {
            seq![(first, m[first])]
        } else {
            Seq::empty()
        };
        insert_all(m, set_path(seed, path_segments(k), v))
    } else if k == "ExtensionSettings"@ || k == "Money"@ || k == "Log"@ {
        m.insert(k, v)
    } else {
        m
    }
}

/// The update fields applied, in order, to the other document fields.
pub open spec fn extra_steps(m: Map<Seq<char>, JsonView>, e: EntriesView) -> Map<Seq<char>, JsonView>
    decreases e.len(),
{
    if e.len() == 0 {
        m
    } else {
        let last = e.last();
        extra_step(extra_steps(m, e.drop_last()), last.0, last.1)
    }
}

/// The other document fields of an account, by value.
pub open spec fn extra_view(acc: OnlineAccount) -> Map<Seq<char>, JsonView> {
    acc.extra.map().map_values(|j: Json| j@)
}

/// The other document fields after an update: the private characters given,
/// then each field in order.
pub open spec fn extra_after(m: Map<Seq<char>, JsonView>, e: EntriesView) -> Map<Seq<char>, JsonView> {
    let m1 = match entries_get(e, "PrivateCharacter"@) {
        Some(v) => m.insert("PrivateCharacter"@, v),
        None => m,
    };
    extra_steps(m1, e)
}

/// A document field set when the update gives it.
pub open spec fn doc_field(old: Option<Json>, new: Option<Json>, given: Option<JsonView>) -> bool {
    match given {
        Some(v) => new matches Some(j) && j@ == v,
        None => new == old,
    }
}

/// A text field set when the update gives a text.
pub open spec fn text_field(old: Option<String>, new: Option<String>, given: Option<JsonView>) -> bool {
    match given {
        Some(JsonView::Str(s)) => new matches Some(t) && t@ == s,
        _ => new == old,
    }
}

/// A member list set to the integers of a list the update gives.
pub open spec fn list_field(old: Seq<i64>, new: Seq<i64>, given: Option<JsonView>) -> bool {
    match given {
        Some(JsonView::Array(a)) => new == ints_among(a),
        _ => new == old,
    }
}

/// The update saves the account unless it holds one field only and that is
/// `Appearance`, `Skill` or `Game` (kept as a delayed update instead).
pub open spec fn update_persists(e: EntriesView) -> bool {
    !(e.len() == 1 && (entries_get(e, "Appearance"@) is Some || entries_get(e, "Skill"@) is Some || entries_get(
        e,
        "Game"@,
    ) is Some))
}

/// A delayed update field: kept when given alone, cleared when given among
/// others.
pub open spec fn delayed_field(old: Option<Json>, new: Option<Json>, e: EntriesView, k: Seq<char>) -> bool {
    if e.len() == 1 && entries_get(e, k) is Some {
        new matches Some(j) && j@ == entries_get(e, k).unwrap()
    } else if e.len() > 1 && entries_get(e, k) is Some {
        new is None
    } else {
        new == old
    }
}

/// What is saved of an update: its fields (with the NPC lover list, if one
/// was added) but the map data, a `Lover` and the document id; nothing when
/// no field is left or the update is kept as a delayed one.
pub open spec fn persisted_entries(e: EntriesView, npc: Option<Seq<JsonView>>) -> Option<EntriesView> {
    if !update_persists(e) {
        None
    } else {
        let e3 = match npc {
            Some(l) => entries_set(e, "Lovership"@, JsonView::Array(l)),
            None => e,
        };
        let e4 = entries_remove(entries_remove(e3, "MapData"@), "Lover"@);
        if e4.len() == 0 {
            None
        } else {
            Some(e4.filter(|p: (Seq<char>, JsonView)| p.0 != "_id"@ && p.0 != "MapData"@))
        }
    }
}

/// The effects of an update on the session beyond the account itself.
pub struct AccountUpdateOutcome {
    /// An NPC lover was added: the (cleaned) lover list is to be sent.
    pub lovership_changed: bool,
    /// The character is to be synced to its room.
    pub room_sync: bool,
    /// The character is to be synced to its prison sector.
    pub sector_sync: bool,
    /// The fields to save, if any.
    pub persist: Option<Vec<(String, Json)>>,
}

fn mutable_fields(obj: &Vec<(String, Json)>) -> (r: Vec<(String, Json)>)
    ensures
        view_entries(r@) == mutable_entries(view_entries(obj@)),
{
    let ghost ov = view_entries(obj@);
    let ghost p = mutable_entry();
    proof {
        lemma_view_entries(obj@);
    }
    let mut out: Vec<(String, Json)> = Vec::new();
    let mut i: usize = 0;
    while i < obj.len()
        invariant
            i <= obj.len(),
            ov == view_entries(obj@),
            p == mutable_entry(),
            ov.len() == obj.len(),
            forall|k: int| 0 <= k < obj.len() ==> #[trigger] ov[k] == (obj@[k].0@, crate::json::json_view(obj@[k].1)),
            view_entries(out@) == ov.take(i as int).filter(p),
        decreases obj.len() - i,
    {
        proof {
            crate::lists::lemma_filter_take_step(ov, p, i as int);
        }
        if !is_immutable_key(obj[i].0.as_str()) {
            let ghost before = out@;
            out.push((obj[i].0.clone(), obj[i].1.deep_clone()));
            proof {
                lemma_view_entries(before);
                lemma_view_entries(out@);
                assert(view_entries(out@) =~= view_entries(before).push(ov[i as int]));
            }
        }
        i += 1;
    }
    proof {
        assert(ov.take(obj.len() as int) =~= ov);
    }
    out
}

fn has_lover_named(list: &Vec<Json>, name: &str) -> (r: bool)
    ensures
        r == exists|i: int| 0 <= i < view_items(list@).len() && (#[trigger] view_items(list@)[i]).get_str("Name"@) == Some(name@),
{
    proof {
        lemma_view_items(list@);
    }
    let mut i: usize = 0;
    while i < list.len()
        invariant
            i <= list.len(),
            view_items(list@).len() == list.len(),
            forall|k: int| 0 <= k < list.len() ==> #[trigger] view_items(list@)[k] == crate::json::json_view(list@[k]),
            forall|j: int| 0 <= j < i ==> (#[trigger] view_items(list@)[j]).get_str("Name"@) != Some(name@),
        decreases list.len() - i,
    {
        let hit = match list[i].get_str("Name") {
            Some(n) => crate::text::str_eq(n, name),
            None => false,
        };
        if hit {
            assert(view_items(list@)[i as int].get_str("Name"@) == Some(name@));
            return true;
        }
        i += 1;
    }
    false
}

fn npc_clean_exec(list: &Vec<Json>) -> (r: Vec<Json>)
    ensures
        view_items(r@) == npc_clean(view_items(list@)),
{
    let ghost lv = view_items(list@);
    let ghost p = |l: JsonView| l.get("BeginDatingOfferedByMemberNumber"@) is None;
    let ghost f = |l: JsonView| match l {
        JsonView::Object(e) => JsonView::Object(
            entries_remove(entries_remove(e, "BeginEngagementOfferedByMemberNumber"@), "BeginWeddingOfferedByMemberNumber"@),
        ),
        _ => l,
    };
    proof {
        lemma_view_items(list@);
    }
    let mut out: Vec<Json> = Vec::new();
    let mut i: usize = 0;
    while i < list.len()
        invariant
            i <= list.len(),
            lv == view_items(list@),
            p == (|l: JsonView| l.get("BeginDatingOfferedByMemberNumber"@) is None),
            f == (|l: JsonView| match l {
                JsonView::Object(e) => JsonView::Object(
                    entries_remove(entries_remove(e, "BeginEngagementOfferedByMemberNumber"@), "BeginWeddingOfferedByMemberNumber"@),
                ),
                _ => l,
            }),
            lv.len() == list.len(),
            forall|k: int| 0 <= k < list.len() ==> #[trigger] lv[k] == crate::json::json_view(list@[k]),
            view_items(out@) == lv.take(i as int).filter(p).map_values(f),
        decreases list.len() - i,
    {
        proof {
            crate::lists::lemma_filter_take_step(lv, p, i as int);
        }
        let l = &list[i];
        assert(lv[i as int] == l@);
        if l.get("BeginDatingOfferedByMemberNumber").is_none() {
            let ghost before = out@;
            let ghost kept = lv.take(i as int).filter(p);
            let c = match l {
                Json::Object(_) => {
                    let mut e = entries_copy(l);
                    entries_take(&mut e, "BeginEngagementOfferedByMemberNumber");
                    entries_take(&mut e, "BeginWeddingOfferedByMemberNumber");
                    Json::Object(e)
                },
                _ => l.deep_clone(),
            };
            out.push(c);
            proof {
                lemma_view_items(before);
                lemma_view_items(out@);
                assert(view_items(out@) =~= view_items(before).push(f(lv[i as int])));
                assert(kept.push(lv[i as int]).map_values(f) =~= kept.map_values(f).push(f(lv[i as int])));
            }
        }
        i += 1;
    }
    proof {
        assert(lv.take(list.len() as int) =~= lv);
    }
    out
}

fn first_segment_exec(k: &str) -> (r: String)
    ensures
        r@ == first_segment(k@),
{
    let v = crate::text::chars_of(k);
    let mut i: usize = 0;
    while i < v.len() && v[i] != '.'
        invariant
            i <= v.len(),
            v@ == k@,
            forall|j: int| 0 <= j < i ==> v@[j] != '.',
        decreases v.len() - i,
    {
        i += 1;
    }
    proof {
        lemma_first_segment(k@, i as int);
    }
    crate::text::string_from_range(&v, 0, i)
}

proof fn lemma_first_segment(s: Seq<char>, i: int)
    requires
        0 <= i <= s.len(),
        forall|j: int| 0 <= j < i ==> s[j] != '.',
        i == s.len() || s[i] == '.',
    ensures
        first_segment(s) == s.subrange(0, i),
    decreases s.len(),
{
    if s.len() > 0 && s[0] != '.' {
        assert forall|j: int| 0 <= j < i - 1 implies s.drop_first()[j] != '.' by {
            assert(s.drop_first()[j] == s[j + 1]);
        }
        lemma_first_segment(s.drop_first(), i - 1);
        assert(seq![s[0]] + s.drop_first().subrange(0, i - 1) =~= s.subrange(0, i));
    } else {
        assert(s.subrange(0, i) =~= Seq::<char>::empty());
    }
}

proof fn lemma_extra_insert(m: Map<Seq<char>, Json>, k: Seq<char>, v: Json)
    ensures
        m.insert(k, v).map_values(|j: Json| j@) == m.map_values(|j: Json| j@).insert(k, v@),
{
    assert(m.insert(k, v).map_values(|j: Json| j@) =~= m.map_values(|j: Json| j@).insert(k, v@));
}

/// Applies one update field to the other document fields, see [`extra_step`].
fn apply_extra_field(extra: &mut crate::table::StrMap<Json>, k: &str, v: &Json)
    ensures
        final(extra).map().map_values(|j: Json| j@) == extra_step(old(extra).map().map_values(|j: Json| j@), k@, v@),
{
    let ghost m0 = extra.map().map_values(|j: Json| j@);
    if crate::text::contains_char(k, '.') {
        let first = first_segment_exec(k);
        let mut nested: Vec<(String, Json)> = Vec::new();
        if let Some(ex) = extra.get(first.as_str()) {
            nested.push((first.clone(), ex.deep_clone()));
        }
        proof {
            lemma_view_entries(nested@);
            let seed: Seq<(Seq<char>, JsonView)> = if m0.contains_key(first@) {
                seq![(first@, m0[first@])]
            } else {
                Seq::empty()
            };
            assert(view_entries(nested@) =~= seed);
        }
        apply_dotted_path(&mut nested, k, v.deep_clone());
        let ghost nv = view_entries(nested@);
        proof {
            lemma_view_entries(nested@);
        }
        let mut j: usize = 0;
        while j < nested.len()
            invariant
                j <= nested.len(),
                nv == view_entries(nested@),
                nv.len() == nested.len(),
                forall|q: int| 0 <= q < nested.len() ==> #[trigger] nv[q] == (nested@[q].0@, crate::json::json_view(nested@[q].1)),
                extra.map().map_values(|j: Json| j@) == insert_all(m0, nv.take(j as int)),
            decreases nested.len() - j,
        {
            let ghost before = extra.map();
            extra.insert(nested[j].0.clone(), nested[j].1.deep_clone());
            proof {
                lemma_extra_insert(before, nested@[j as int].0@, nested@[j as int].1);
                assert(nv.take(j + 1).drop_last() =~= nv.take(j as int));
            }
            j += 1;
        }
        proof {
            assert(nv.take(nested.len() as int) =~= nv);
        }
    } else if crate::text::str_eq(k, "ExtensionSettings") || crate::text::str_eq(k, "Money") || crate::text::str_eq(
        k,
        "Log",
    ) {
        let ghost before = extra.map();
        let c = v.deep_clone();
        let ghost cc = c;
        extra.insert(crate::text::to_owned_string(k), c);
        proof {
            lemma_extra_insert(before, k@, cc);
        }
    }
}

/// The account after an update with fields `e` (the fields a client may
/// change, a text `Lover` taken out) and NPC lover list `npc`.
pub open spec fn account_after_update(old: OnlineAccount, new: OnlineAccount, e: EntriesView, npc: Option<Seq<JsonView>>) -> bool {
    &&& view_items(new.lovership@) == match npc {
        Some(l) => l,
        None => view_items(old.lovership@),
    }
    &&& doc_field(old.inventory_data, new.inventory_data, entries_get(e, "InventoryData"@))
    &&& new.item_permission == match entries_get(e, "ItemPermission"@) {
        Some(v) => match v.as_i64() {
            Some(n) => n as i32,
            None => old.item_permission,
        },
        None => old.item_permission,
    }
    &&& doc_field(old.arousal_settings, new.arousal_settings, entries_get(e, "ArousalSettings"@))
    &&& doc_field(old.online_shared_settings, new.online_shared_settings, entries_get(e, "OnlineSharedSettings"@))
    &&& doc_field(old.game, new.game, entries_get(e, "Game"@))
    &&& doc_field(old.map_data, new.map_data, entries_get(e, "MapData"@))
    &&& text_field(old.label_color, new.label_color, entries_get(e, "LabelColor"@))
    &&& doc_field(old.appearance, new.appearance, entries_get(e, "Appearance"@))
    &&& doc_field(old.reputation, new.reputation, entries_get(e, "Reputation"@))
    &&& text_field(old.description, new.description, entries_get(e, "Description"@))
    &&& doc_field(old.block_items, new.block_items, entries_get(e, "BlockItems"@))
    &&& doc_field(old.limited_items, new.limited_items, entries_get(e, "LimitedItems"@))
    &&& doc_field(old.favorite_items, new.favorite_items, entries_get(e, "FavoriteItems"@))
    &&& list_field(old.white_list@, new.white_list@, entries_get(e, "WhiteList"@))
    &&& list_field(old.black_list@, new.black_list@, entries_get(e, "BlackList"@))
    &&& list_field(old.friend_list@, new.friend_list@, entries_get(e, "FriendList"@))
    &&& text_field(old.title, new.title, entries_get(e, "Title"@))
    &&& text_field(old.nickname, new.nickname, entries_get(e, "Nickname"@))
    &&& doc_field(old.crafting, new.crafting, entries_get(e, "Crafting"@))
    &&& extra_view(new) == extra_after(extra_view(old), e)
    &&& delayed_field(old.delayed_appearance, new.delayed_appearance, e, "Appearance"@)
    &&& delayed_field(old.delayed_skill, new.delayed_skill, e, "Skill"@)
    &&& delayed_field(old.delayed_game, new.delayed_game, e, "Game"@)
    &&& new == OnlineAccount {
        lovership: new.lovership,
        inventory_data: new.inventory_data,
        item_permission: new.item_permission,
        arousal_settings: new.arousal_settings,
        online_shared_settings: new.online_shared_settings,
        game: new.game,
        map_data: new.map_data,
        label_color: new.label_color,
        appearance: new.appearance,
        reputation: new.reputation,
        description: new.description,
        block_items: new.block_items,
        limited_items: new.limited_items,
        favorite_items: new.favorite_items,
        white_list: new.white_list,
        black_list: new.black_list,
        friend_list: new.friend_list,
        title: new.title,
        nickname: new.nickname,
        crafting: new.crafting,
        extra: new.extra,
        delayed_appearance: new.delayed_appearance,
        delayed_skill: new.delayed_skill,
        delayed_game: new.delayed_game,
        ..old
    }
}

fn set_doc(field: &mut Option<Json>, e: &Vec<(String, Json)>, k: &str)
    ensures
        doc_field(*old(field), *final(field), entries_get(view_entries(e@), k@)),
{
    if let Some(v) = entries_lookup(e, k) {
        *field = Some(v.deep_clone());
    }
}

fn set_text(field: &mut Option<String>, e: &Vec<(String, Json)>, k: &str)
    ensures
        text_field(*old(field), *final(field), entries_get(view_entries(e@), k@)),
{
    if let Some(v) = entries_lookup(e, k) {
        if let Some(t) = v.as_str() {
            *field = Some(crate::text::to_owned_string(t));
        }
    }
}

fn set_list(field: &mut Vec<i64>, e: &Vec<(String, Json)>, k: &str)
    ensures
        list_field(old(field)@, final(field)@, entries_get(view_entries(e@), k@)),
{
    if let Some(Json::Array(a)) = entries_lookup(e, k) {
        *field = crate::admin::filter_ints(a);
    }
}

fn set_delayed(field: &mut Option<Json>, e: &Vec<(String, Json)>, k: &str)
    ensures
        delayed_field(*old(field), *final(field), view_entries(e@), k@),
{
    proof {
        lemma_view_entries(e@);
    }
    if let Some(v) = entries_lookup(e, k) {
        if e.len() == 1 {
            *field = Some(v.deep_clone());
        } else if e.len() > 1 {
            *field = None;
        }
    }
}

/// Applies a client's update of its own account to the online session: the
/// fields a client may not change are ignored; an NPC lover may be added;
/// the session fields given are taken over; dotted paths and extension
/// settings, money and log go to the other document fields; an update of
/// the appearance, skill or game alone is kept as a delayed update. None
/// when the update is no object (it is ignored).
pub fn apply_account_update(acc: &mut OnlineAccount, data: &Json) -> (r: Option<AccountUpdateOutcome>)
    ensures
        !(data@ is Object) ==> r is None && *final(acc) == *old(acc),
        data@ is Object ==> ({
            let e1 = mutable_entries(object_entries(data@));
            let npc = npc_lover_added(view_items(old(acc).lovership@), e1);
            let e = without_lover(e1);
            &&& r matches Some(o)
            &&& o.lovership_changed == npc is Some
            &&& o.room_sync == (old(acc).chat_room_id is Some && has_room_sync_field(e))
            &&& o.sector_sync == (entries_get(e, "Appearance"@) is Some || entries_get(e, "ActivePose"@) is Some
                || entries_get(e, "Title"@) is Some)
            &&& match persisted_entries(e, npc) {
                Some(p) => o.persist matches Some(v) && view_entries(v@) == p,
                None => o.persist is None,
            }
            &&& account_after_update(*old(acc), *final(acc), e, npc)
        }),
{
    let obj = match data {
        Json::Object(o) => o,
        _ => return None,
    };
    let ghost e1 = mutable_entries(view_entries(obj@));
    let mut e = mutable_fields(obj);
    let lover: Option<String> = match entries_lookup(&e, "Lover") {
        Some(Json::Str(l)) => Some(l.clone()),
        _ => None,
    };
    let mut npc: Option<Vec<Json>> = None;
    proof {
        lemma_view_items(acc.lovership@);
    }
    if let Some(l) = lover {
        if crate::text::starts_with(l.as_str(), "NPC-") && acc.lovership.len() < 5 && !has_lover_named(
            &acc.lovership,
            l.as_str(),
        ) {
            let mut entry: Vec<(String, Json)> = Vec::new();
            entry.push((crate::text::to_owned_string("Name"), Json::Str(l.clone())));
            proof {
                lemma_view_entries(entry@);
                assert(view_entries(entry@) =~= seq![("Name"@, JsonView::Str(l@))]);
                lemma_view_items(acc.lovership@);
            }
            let mut list = crate::json::clone_items(&acc.lovership);
            let ghost lv = view_items(list@);
            let ghost l0 = list@;
            let ne = Json::Object(entry);
            let ghost nev = ne@;
            list.push(ne);
            proof {
                crate::json::lemma_view_items_push(l0, ne);
            }
            let clean = npc_clean_exec(&list);
            acc.lovership = crate::json::clone_items(&clean);
            npc = Some(clean);
        }
        entries_take(&mut e, "Lover");
    }
    let ghost ev = view_entries(e@);
    assert(ev == without_lover(e1));
    set_doc(&mut acc.inventory_data, &e, "InventoryData");
    if let Some(v) = entries_lookup(&e, "ItemPermission") {
        if let Some(n) = v.as_i64() {
            acc.item_permission = #[verifier::truncate] (n as i32);
        }
    }
    set_doc(&mut acc.arousal_settings, &e, "ArousalSettings");
    set_doc(&mut acc.online_shared_settings, &e, "OnlineSharedSettings");
    set_doc(&mut acc.game, &e, "Game");
    set_doc(&mut acc.map_data, &e, "MapData");
    set_text(&mut acc.label_color, &e, "LabelColor");
    set_doc(&mut acc.appearance, &e, "Appearance");
    set_doc(&mut acc.reputation, &e, "Reputation");
    set_text(&mut acc.description, &e, "Description");
    set_doc(&mut acc.block_items, &e, "BlockItems");
    set_doc(&mut acc.limited_items, &e, "LimitedItems");
    set_doc(&mut acc.favorite_items, &e, "FavoriteItems");
    set_list(&mut acc.white_list, &e, "WhiteList");
    set_list(&mut acc.black_list, &e, "BlackList");
    set_list(&mut acc.friend_list, &e, "FriendList");
    set_text(&mut acc.title, &e, "Title");
    set_text(&mut acc.nickname, &e, "Nickname");
    set_doc(&mut acc.crafting, &e, "Crafting");
    let ghost m0 = extra_view(*acc);
    if let Some(v) = entries_lookup(&e, "PrivateCharacter") {
        let ghost before = acc.extra.map();
        let c = v.deep_clone();
        let ghost cc = c;
        acc.extra.insert(crate::text::to_owned_string("PrivateCharacter"), c);
        proof {
            lemma_extra_insert(before, "PrivateCharacter"@, cc);
        }
    }
    let ghost m1 = extra_view(*acc);
    let ghost pre = *acc;
    proof {
        lemma_view_entries(e@);
    }
    let mut i: usize = 0;
    while i < e.len()
        invariant
            i <= e.len(),
            *acc == (OnlineAccount { extra: acc.extra, ..pre }),
            ev == view_entries(e@),
            ev.len() == e.len(),
            forall|q: int| 0 <= q < e.len() ==> #[trigger] ev[q] == (e@[q].0@, crate::json::json_view(e@[q].1)),
            extra_view(*acc) == extra_steps(m1, ev.take(i as int)),
        decreases e.len() - i,
    {
        apply_extra_field(&mut acc.extra, e[i].0.as_str(), &e[i].1);
        proof {
            assert(ev.take(i + 1).drop_last() =~= ev.take(i as int));
        }
        i += 1;
    }
    proof {
        assert(ev.take(e.len() as int) =~= ev);
    }
    let room_sync = acc.chat_room_id.is_some() && (entries_lookup(&e, "MapData").is_some() || entries_lookup(
        &e,
        "Title",
    ).is_some() || entries_lookup(&e, "Nickname").is_some() || entries_lookup(&e, "Crafting").is_some()
        || entries_lookup(&e, "Reputation").is_some() || entries_lookup(&e, "Description").is_some()
        || entries_lookup(&e, "LabelColor").is_some() || entries_lookup(&e, "ItemPermission").is_some()
        || entries_lookup(&e, "InventoryData").is_some() || entries_lookup(&e, "BlockItems").is_some()
        || entries_lookup(&e, "LimitedItems").is_some() || entries_lookup(&e, "FavoriteItems").is_some()
        || entries_lookup(&e, "OnlineSharedSettings").is_some() || entries_lookup(&e, "WhiteList").is_some()
        || entries_lookup(&e, "BlackList").is_some());
    let sector_sync = entries_lookup(&e, "Appearance").is_some() || entries_lookup(&e, "ActivePose").is_some()
        || entries_lookup(&e, "Title").is_some();
    set_delayed(&mut acc.delayed_appearance, &e, "Appearance");
    set_delayed(&mut acc.delayed_skill, &e, "Skill");
    set_delayed(&mut acc.delayed_game, &e, "Game");
    let persists = !(e.len() == 1 && (entries_lookup(&e, "Appearance").is_some() || entries_lookup(&e, "Skill").is_some()
        || entries_lookup(&e, "Game").is_some()));
    let persist = if !persists {
        None
    } else {
        let mut p = crate::json::entries_copy(&Json::Object(Vec::new()));
        let mut k: usize = 0;
        while k < e.len()
            invariant
                k <= e.len(),
                ev == view_entries(e@),
                ev.len() == e.len(),
                forall|q: int| 0 <= q < e.len() ==> #[trigger] ev[q] == (e@[q].0@, crate::json::json_view(e@[q].1)),
                view_entries(p@) == ev.take(k as int),
            decreases e.len() - k,
        {
            let ghost before = p@;
            p.push((e[k].0.clone(), e[k].1.deep_clone()));
            proof {
                lemma_view_entries(before);
                lemma_view_entries(p@);
                assert(view_entries(p@) =~= view_entries(before).push(ev[k as int]));
                assert(ev.take(k + 1) =~= ev.take(k as int).push(ev[k as int]));
            }
            k += 1;
        }
        proof {
            assert(ev.take(e.len() as int) =~= ev);
        }
        if let Some(l) = &npc {
            entries_insert(&mut p, crate::text::to_owned_string("Lovership"), Json::Array(crate::json::clone_items(l)));
        }
        entries_take(&mut p, "MapData");
        entries_take(&mut p, "Lover");
        if p.len() == 0 {
            proof {
                lemma_view_entries(p@);
            }
            None
        } else {
            proof {
                lemma_view_entries(p@);
            }
            let mut out: Vec<(String, Json)> = Vec::new();
            let ghost pv = view_entries(p@);
            let ghost f = |q: (Seq<char>, JsonView)| q.0 != "_id"@ && q.0 != "MapData"@;
            let mut j: usize = 0;
            while j < p.len()
                invariant
                    j <= p.len(),
                    pv == view_entries(p@),
                    pv.len() == p.len(),
                    f == (|q: (Seq<char>, JsonView)| q.0 != "_id"@ && q.0 != "MapData"@),
                    forall|q: int| 0 <= q < p.len() ==> #[trigger] pv[q] == (p@[q].0@, crate::json::json_view(p@[q].1)),
                    view_entries(out@) == pv.take(j as int).filter(f),
                decreases p.len() - j,
            {
                proof {
                    crate::lists::lemma_filter_take_step(pv, f, j as int);
                }
                if !crate::text::str_eq(p[j].0.as_str(), "_id") && !crate::text::str_eq(p[j].0.as_str(), "MapData") {
                    let ghost before = out@;
                    out.push((p[j].0.clone(), p[j].1.deep_clone()));
                    proof {
                        lemma_view_entries(before);
                        lemma_view_entries(out@);
                        assert(view_entries(out@) =~= view_entries(before).push(pv[j as int]));
                    }
                }
                j += 1;
            }
            proof {
                assert(pv.take(p.len() as int) =~= pv);
            }
            Some(out)
        }
    };
    let ghost npcv = npc_lover_added(view_items(old(acc).lovership@), e1);
    assert(npc.is_some() == npcv is Some);
    assert(view_items(acc.lovership@) == match npcv {
        Some(l) => l,
        None => view_items(old(acc).lovership@),
    });
    assert(extra_view(*acc) == extra_after(extra_view(*old(acc)), ev));
    assert(room_sync == (old(acc).chat_room_id is Some && has_room_sync_field(ev)));
    assert(match persisted_entries(ev, npcv) {
        Some(p) => persist matches Some(v) && view_entries(v@) == p,
        None => persist is None,
    });
    Some(AccountUpdateOutcome { lovership_changed: npc.is_some(), room_sync, sector_sync, persist })
}

} // verus!
