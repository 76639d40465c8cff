//! Chat-room search: reading a search request, the rooms it lists, newest
//! first, and the friends a searcher finds in them.

use vstd::prelude::*;
use vstd::relations::{sorted_by, total_ordering};
use crate::json::{Json, JsonView, view_items, lemma_view_items};
use crate::lists::{has_text, texts, contains_str};
use crate::room::spec_has_any_role;
use crate::state::account::OnlineAccount;
use crate::state::chatroom::ChatRoom;
use crate::state::world::{World, account_at, account_of_member};
use crate::text::{spec_to_uppercase, byte_count, spec_trim};

verus! {

/// Most rooms one search lists.
pub const CHAT_ROOM_SEARCH_MAX_RESULTS: usize = 240;

/// `needle` occurs in `hay`.
pub open spec fn contains_text(hay: Seq<char>, needle: Seq<char>) -> bool {
    exists|i: int| 0 <= i <= hay.len() - needle.len() && #[trigger] hay.subrange(i, i + needle.len()) == needle
}

/// `str::contains` with a text pattern.
pub fn str_contains(hay: &str, needle: &str) -> (r: bool)
    ensures
        r == contains_text(hay@, needle@),
{
    let h = crate::text::chars_of(hay);
    let n = crate::text::chars_of(needle);
    if n.len() > h.len() {
        return false;
    }
    let mut i: usize = 0;
    while i <= h.len() - n.len()
        invariant
            n.len() <= h.len(),
            i <= h.len() - n.len() + 1,
            h@ == hay@,
            n@ == needle@,
            forall|k: int| 0 <= k < i ==> #[trigger] h@.subrange(k, k + n@.len()) != n@,
        decreases h.len() - n.len() + 1 - i,
    {
        let mut j: usize = 0;
        let mut same = true;
        while same && j < n.len()
            invariant
                j <= n.len(),
                i + n.len() <= h.len(),
                forall|k: int| 0 <= k < j ==> h@[i + k] == n@[k],
                !same ==> j < n.len() && h@[i + j] != n@[j as int],
            decreases n.len() - j, if same { 1int } else { 0int },
        {
            if h[i + j] != n[j] {
                same = false;
            } else {
                j += 1;
            }
        }
        if same {
            assert(h@.subrange(i as int, i + n@.len()) =~= n@);
            return true;
        }
        assert(h@.subrange(i as int, i + n@.len())[j as int] != n@[j as int]);
        i += 1;
    }
    proof {
        assert forall|k: int| 0 <= k <= hay@.len() - needle@.len() implies #[trigger] hay@.subrange(k, k + needle@.len()) != needle@ by {
            assert(k < i);
        }
    }
    false
}

/// A search request as read.
pub struct SearchQuery {
    /// The query text, trimmed.
    pub query: String,
    /// The query in upper case.
    pub query_upper: String,
    pub include_full: bool,
    pub show_locked: bool,
    pub search_descs: bool,
    pub spaces: Vec<String>,
    pub languages: Vec<String>,
    /// Room names to leave out, upper-cased.
    pub ignored: Vec<String>,
    pub map_types: Vec<String>,
    pub game: String,
}

/// The texts of a list, those that pass `keep`.
pub open spec fn kept_texts(a: Seq<JsonView>, keep: spec_fn(Seq<char>) -> bool) -> Seq<Seq<char>> {
    a.filter(|x: JsonView| x is Str && keep(x.as_str().unwrap())).map_values(|x: JsonView| x.as_str().unwrap())
}

pub open spec fn short100() -> spec_fn(Seq<char>) -> bool {
    |s: Seq<char>| byte_count(s) <= 100
}

pub open spec fn short20() -> spec_fn(Seq<char>) -> bool {
    |s: Seq<char>| byte_count(s) < 20
}

pub open spec fn any_text() -> spec_fn(Seq<char>) -> bool {
    |s: Seq<char>| true
}

pub open spec fn room_name_ok() -> spec_fn(Seq<char>) -> bool {
    |s: Seq<char>| crate::validate::spec_is_chat_room_name(s)
}

/// The spaces searched: a text of at most 100 bytes, or those of a list.
pub open spec fn search_spaces(data: JsonView) -> Seq<Seq<char>> {
    match data.get("Space"@) {
        Some(JsonView::Str(s)) => if byte_count(s) <= 100 {
            seq![s]
        } else {
            Seq::empty()
        },
        Some(JsonView::Array(a)) => kept_texts(a, short100()),
        _ => Seq::empty(),
    }
}

/// The languages searched: a non-empty text, or the texts of a list.
pub open spec fn search_languages(data: JsonView) -> Seq<Seq<char>> {
    match data.get("Language"@) {
        Some(JsonView::Str(s)) => if s.len() > 0 {
            seq![s]
        } else {
            Seq::empty()
        },
        Some(JsonView::Array(a)) => kept_texts(a, any_text()),
        _ => Seq::empty(),
    }
}

/// The rooms to leave out: the valid room names of `Ignore`, upper-cased.
pub open spec fn search_ignored(data: JsonView) -> Seq<Seq<char>> {
    match data.get("Ignore"@) {
        Some(JsonView::Array(a)) => kept_texts(a, room_name_ok()).map_values(|s: Seq<char>| spec_to_uppercase(s)),
        _ => Seq::empty(),
    }
}

/// The map types searched: texts of `MapTypes` under 20 bytes.
pub open spec fn search_map_types(data: JsonView) -> Seq<Seq<char>> {
    match data.get("MapTypes"@) {
        Some(JsonView::Array(a)) => kept_texts(a, short20()),
        _ => Seq::empty(),
    }
}

/// A search request is read when its `Query` is a text of at most 20 bytes.
pub open spec fn query_matches(q: SearchQuery, data: JsonView) -> bool {
    let raw = data.get_str("Query"@).unwrap();
    &&& q.query@ == spec_trim(raw)
    &&& q.query_upper@ == spec_to_uppercase(spec_trim(raw))
    &&& q.include_full == (data.get_bool("FullRooms"@) == Some(true))
    &&& q.show_locked == (data.get_bool("ShowLocked"@) == Some(true))
    &&& q.search_descs == (data.get_bool("SearchDescs"@) == Some(true))
    &&& texts(q.spaces@) == search_spaces(data)
    &&& texts(q.languages@) == search_languages(data)
    &&& texts(q.ignored@) == search_ignored(data)
    &&& texts(q.map_types@) == search_map_types(data)
    &&& q.game@ == match data.get_str("Game"@) {
        Some(g) => if byte_count(g) <= 100 {
            g
        } else {
            Seq::empty()
        },
        None => Seq::empty(),
    }
}

/// The texts of a list that pass a test given as a mode.
fn collect_texts(a: &Vec<Json>, mode: u8) -> (r: Vec<String>)
    requires
        mode <= 3,
    ensures
        texts(r@) == kept_texts(
            view_items(a@),
            if mode == 0 {
                short100()
            } else if mode == 1 {
                any_text()
            } else if mode == 2 {
                room_name_ok()
            } else {
                short20()
            },
        ),
{
    let ghost keep = if mode == 0 {
        short100()
    } else if mode == 1 {
        any_text()
    } else if mode == 2 {
        room_name_ok()
    } else {
        short20()
    };
    let ghost p = |x: JsonView| x is Str && keep(x.as_str().unwrap());
    let ghost f = |x: JsonView| x.as_str().unwrap();
    let ghost av = view_items(a@);
    proof {
        lemma_view_items(a@);
    }
    let mut out: Vec<String> = Vec::new();
    let mut i: usize = 0;
    while i < a.len()
        invariant
            i <= a.len(),
            av == view_items(a@),
            av.len() == a.len(),
            forall|k: int| 0 <= k < a.len() ==> #[trigger] av[k] == crate::json::json_view(a@[k]),
            p == (|x: JsonView| x is Str && keep(x.as_str().unwrap())),
            f == (|x: JsonView| x.as_str().unwrap()),
            keep == if mode == 0 {
                short100()
            } else if mode == 1 {
                any_text()
            } else if mode == 2 {
                room_name_ok()
            } else {
                short20()
            },
            texts(out@) == av.take(i as int).filter(p).map_values(f),
        decreases a.len() - i,
    {
        proof {
            crate::lists::lemma_filter_take_step(av, p, i as int);
        }
        let ghost before = av.take(i as int).filter(p);
        if let Some(s) = a[i].as_str() {
            let ok = if mode == 0 {
                crate::text::byte_len(s) <= 100
            } else if mode == 1 {
                true
            } else if mode == 2 {
                crate::validate::is_chat_room_name(s)
            } else {
                crate::text::byte_len(s) < 20
            };
            if ok {
                let ghost tb = texts(out@);
                out.push(crate::text::to_owned_string(s));
                proof {
                    assert(texts(out@) =~= tb.push(s@));
                    assert(before.push(av[i as int]).map_values(f) =~= before.map_values(f).push(f(av[i as int])));
                }
            }
        }
        i += 1;
    }
    proof {
        assert(av.take(a.len() as int) =~= av);
    }
    out
}

/// Reads a search request; none when `Query` is no text of at most 20 bytes
/// (such a request is not answered).
pub fn parse_search(data: &Json) -> (r: Option<SearchQuery>)
    ensures
        match r {
            Some(q) => data@.get_str("Query"@) matches Some(raw) && byte_count(raw) <= 20 && query_matches(q, data@),
            None => !(data@.get_str("Query"@) matches Some(raw) && byte_count(raw) <= 20),
        },
{
    let raw = match data.get_str("Query") {
        Some(q) => q,
        None => return None,
    };
    if crate::text::byte_len(raw) > 20 {
        return None;
    }
    let query = crate::text::trim(raw);
    let query_upper = crate::text::to_uppercase(query.as_str());
    let spaces = match data.get("Space") {
        Some(Json::Str(s)) => {
            let mut v: Vec<String> = Vec::new();
            if crate::text::byte_len(s.as_str()) <= 100 {
                v.push(s.clone());
            }
            proof {
                assert(texts(v@) =~= search_spaces(data@));
            }
            v
        },
        Some(Json::Array(a)) => collect_texts(a, 0),
        _ => {
            let v: Vec<String> = Vec::new();
            proof {
                assert(texts(v@) =~= search_spaces(data@));
            }
            v
        },
    };
    let languages = match data.get("Language") {
        Some(Json::Str(s)) => {
            let mut v: Vec<String> = Vec::new();
            if crate::text::char_count(s.as_str()) > 0 {
                v.push(s.clone());
            }
            proof {
                assert(texts(v@) =~= search_languages(data@));
            }
            v
        },
        Some(Json::Array(a)) => collect_texts(a, 1),
        _ => {
            let v: Vec<String> = Vec::new();
            proof {
                assert(texts(v@) =~= search_languages(data@));
            }
            v
        },
    };
    let ignored = match data.get("Ignore") {
        Some(Json::Array(a)) => {
            let names = collect_texts(a, 2);
            let mut v: Vec<String> = Vec::new();
            let mut i: usize = 0;
            while i < names.len()
                invariant
                    i <= names.len(),
                    texts(v@) == texts(names@).take(i as int).map_values(|s: Seq<char>| spec_to_uppercase(s)),
                decreases names.len() - i,
            {
                let ghost tv = texts(v@);
                v.push(crate::text::to_uppercase(names[i].as_str()));
                proof {
                    assert(texts(names@).take(i + 1) =~= texts(names@).take(i as int).push(names@[i as int]@));
                    assert(texts(v@) =~= tv.push(spec_to_uppercase(names@[i as int]@)));
                    assert(texts(names@).take(i + 1).map_values(|s: Seq<char>| spec_to_uppercase(s)) =~= texts(names@).take(i as int).map_values(|s: Seq<char>| spec_to_uppercase(s)).push(spec_to_uppercase(names@[i as int]@)));
                }
                i += 1;
            }
            proof {
                assert(texts(names@).take(names.len() as int) =~= texts(names@));
            }
            v
        },
        _ => {
            let v: Vec<String> = Vec::new();
            proof {
                assert(texts(v@) =~= search_ignored(data@));
            }
            v
        },
    };
    let map_types = match data.get("MapTypes") {
        Some(Json::Array(a)) => collect_texts(a, 3),
        _ => {
            let v: Vec<String> = Vec::new();
            proof {
                assert(texts(v@) =~= search_map_types(data@));
            }
            v
        },
    };
    let game = match data.get_str("Game") {
        Some(g) => if crate::text::byte_len(g) <= 100 {
            crate::text::to_owned_string(g)
        } else {
            String::new()
        },
        None => String::new(),
    };
    Some(
        SearchQuery {
            query,
            query_upper,
            include_full: data.get_bool("FullRooms") == Some(true),
            show_locked: data.get_bool("ShowLocked") == Some(true),
            search_descs: data.get_bool("SearchDescs") == Some(true),
            spaces,
            languages,
            ignored,
            map_types,
            game,
        },
    )
}

/// Whether a search by `acc` lists `room`, and then with which map type:
/// same environment, the game asked for (if any), not full unless full
/// rooms are asked for, one of the spaces, no ban, one of the languages (if
/// any), the query in the upper-cased name (or description, if asked), a
/// visibility role unless the name is the query itself, an access role
/// unless locked rooms are shown, not ignored, and one of the map types (if
/// any). The map type is the room map's `Type`, "Never" without one.
pub open spec fn spec_room_listed(acc: OnlineAccount, room: ChatRoom, q: SearchQuery) -> Option<Seq<char>> {
    let m = acc.member_number;
    let upper = spec_to_uppercase(room.name@);
    let raw_type = match room.map_data {
        Some(md) => md@.get_str("Type"@),
        None => None,
    };
    if room.environment@ != acc.environment@ {
        None
    } else if q.game@.len() > 0 && room.game@ != q.game@ {
        None
    } else if room.spec_is_full() && !q.include_full {
        None
    } else if !has_text(q.spaces@, room.space@) {
        None
    } else if room.ban@.contains(m) {
        None
    } else if q.languages@.len() > 0 && !has_text(q.languages@, room.language@) {
        None
    } else if q.query@.len() > 0 && !(contains_text(upper, q.query@) || (q.search_descs && contains_text(
        spec_to_uppercase(room.description@),
        q.query@,
    ))) {
        None
    } else if upper != q.query_upper@ && !spec_has_any_role(m, room, room.visibility@) {
        None
    } else if !q.show_locked && !spec_has_any_role(m, room, room.access@) {
        None
    } else if has_text(q.ignored@, upper) {
        None
    } else if q.map_types@.len() > 0 && !(raw_type matches Some(t) && has_text(q.map_types@, t)) {
        None
    } else {
        match raw_type {
            Some(t) => Some(t),
            None => Some("Never"@),
        }
    }
}

/// A room is never listed to a searcher it has banned, to one of another
/// environment, or, full, unless full rooms are asked for.
pub proof fn law_room_listing_filters(acc: OnlineAccount, room: ChatRoom, q: SearchQuery)
    ensures
        room.ban@.contains(acc.member_number) ==> spec_room_listed(acc, room, q) is None,
        room.environment@ != acc.environment@ ==> spec_room_listed(acc, room, q) is None,
        room.members@.len() >= room.limit && !q.include_full ==> spec_room_listed(acc, room, q) is None,
{
}

pub fn room_listed(acc: &OnlineAccount, room: &ChatRoom, q: &SearchQuery) -> (r: Option<String>)
    ensures
        room.ban@.contains(acc.member_number) ==> r is None,
        room.environment@ != acc.environment@ ==> r is None,
        room.members@.len() >= room.limit && !q.include_full ==> r is None,
        match spec_room_listed(*acc, *room, *q) {
            Some(t) => r matches Some(x) && x@ == t,
            None => r is None,
        },
{
    let m = acc.member_number;
    if !crate::text::str_eq(room.environment.as_str(), acc.environment.as_str()) {
        return None;
    }
    if crate::text::char_count(q.game.as_str()) > 0 && !crate::text::str_eq(room.game.as_str(), q.game.as_str()) {
        return None;
    }
    if room.is_full() && !q.include_full {
        return None;
    }
    if !contains_str(&q.spaces, room.space.as_str()) {
        return None;
    }
    if crate::lists::contains_i64(&room.ban, m) {
        return None;
    }
    if q.languages.len() > 0 && !contains_str(&q.languages, room.language.as_str()) {
        return None;
    }
    let upper = crate::text::to_uppercase(room.name.as_str());
    if crate::text::char_count(q.query.as_str()) > 0 {
        let mut matched = str_contains(upper.as_str(), q.query.as_str());
        if !matched && q.search_descs {
            let d = crate::text::to_uppercase(room.description.as_str());
            matched = str_contains(d.as_str(), q.query.as_str());
        }
        if !matched {
            return None;
        }
    }
    if !crate::text::str_eq(upper.as_str(), q.query_upper.as_str()) && !crate::room::has_any_role(
        acc,
        room,
        &room.visibility,
    ) {
        return None;
    }
    if !q.show_locked && !crate::room::has_any_role(acc, room, &room.access) {
        return None;
    }
    if contains_str(&q.ignored, upper.as_str()) {
        return None;
    }
    let raw_type = match &room.map_data {
        Some(md) => md.get_str("Type"),
        None => None,
    };
    if q.map_types.len() > 0 {
        match raw_type {
            Some(t) => if !contains_str(&q.map_types, t) {
                return None;
            },
            None => return None,
        }
    }
    match raw_type {
        Some(t) => Some(crate::text::to_owned_string(t)),
        None => Some(crate::text::to_owned_string("Never")),
    }
}

// ---------------------------------------------------------------------------
// Newest first
// ---------------------------------------------------------------------------

/// Rooms by creation time, newest first; among rooms created at the same
/// time, in table order.
pub open spec fn newer_first() -> spec_fn((i64, usize), (i64, usize)) -> bool {
    |a: (i64, usize), b: (i64, usize)| a.0 > b.0 || (a.0 == b.0 && a.1 <= b.1)
}

pub proof fn lemma_newer_first_total()
    ensures
        total_ordering(newer_first()),
{
    let r = newer_first();
    assert forall|x: (i64, usize)| #[trigger] r(x, x) by {}
    assert forall|x: (i64, usize), y: (i64, usize)| #[trigger] r(x, y) && #[trigger] r(y, x) implies x == y by {}
    assert forall|x: (i64, usize), y: (i64, usize), z: (i64, usize)| #[trigger] r(x, y) && #[trigger] r(y, z) implies r(x, z) by {}
    assert forall|x: (i64, usize), y: (i64, usize)| #[trigger] r(x, y) || #[trigger] r(y, x) by {}
}

/// Inserts `x` into a list kept newest first, after every entry at least
/// as new.
fn insert_newest_first(v: &mut Vec<(i64, usize)>, x: (i64, usize))
    requires
        sorted_by(old(v)@, newer_first()),
    ensures
        sorted_by(final(v)@, newer_first()),
        final(v)@.to_multiset() == old(v)@.to_multiset().insert(x),
        final(v)@.len() == old(v)@.len() + 1,
        forall|k: int| 0 <= k < final(v)@.len() ==> #[trigger] final(v)@[k] == x || old(v)@.contains(final(v)@[k]),
{
    proof {
        lemma_newer_first_total();
    }
    let ghost r = newer_first();
    let mut p: usize = 0;
    while p < v.len() && (v[p].0 > x.0 || (v[p].0 == x.0 && v[p].1 <= x.1))
        invariant
            p <= v.len(),
            r == newer_first(),
            forall|j: int| 0 <= j < p ==> #[trigger] r(v@[j], x),
        decreases v.len() - p,
    {
        p += 1;
    }
    let ghost old_v = v@;
    proof {
        assert forall|j: int| p <= j < old_v.len() implies #[trigger] r(x, old_v[j]) by {
            if r(old_v[j], x) {
                if j > p {
                    assert(r(old_v[p as int], old_v[j]));
                }
                assert(r(old_v[p as int], x));
            }
        }
    }
    v.insert(p, x);
    proof {
        let s = v@;
        assert(s == old_v.insert(p as int, x));
        assert forall|i: int, j: int| 0 <= i < j < s.len() implies #[trigger] r(s[i], s[j]) by {
            if j < p {
                assert(s[i] == old_v[i] && s[j] == old_v[j]);
            } else if j == p {
                assert(s[i] == old_v[i]);
            } else if i == p {
                assert(s[j] == old_v[j - 1]);
            } else if i < p {
                assert(s[i] == old_v[i] && s[j] == old_v[j - 1]);
            } else {
                assert(s[i] == old_v[i - 1] && s[j] == old_v[j - 1]);
            }
        }
        vstd::seq_lib::to_multiset_insert(old_v, p as int, x);
        assert forall|k: int| 0 <= k < s.len() implies #[trigger] s[k] == x || old_v.contains(s[k]) by {
            if k < p {
                assert(s[k] == old_v[k]);
            } else if k > p {
                assert(s[k] == old_v[k - 1]);
            }
        }
    }
}

/// The keys (creation time, table position) of the first `k` rooms of the
/// table that a search by `acc` lists, in table order.
pub open spec fn listed_keys(w: World, acc: OnlineAccount, q: SearchQuery, k: int) -> Seq<(i64, usize)>
    decreases k,
{
    if k <= 0 {
        Seq::empty()
    } else {
        let prev = listed_keys(w, acc, q, k - 1);
        let room = w.chat_rooms.entries()[k - 1].1;
        if spec_room_listed(acc, room, q) is Some {
            prev.push((room.creation, (k - 1) as usize))
        } else {
            prev
        }
    }
}

/// The rooms a search by the account on socket `sid` lists: newest first,
/// at most 240; none when the searcher is not online.
pub open spec fn spec_search_rooms(w: World, sid: Seq<char>, q: SearchQuery) -> Option<Seq<(i64, usize)>> {
    match account_at(w, sid) {
        None => None,
        Some(acc) => {
            let all = listed_keys(w, acc, q, w.chat_rooms.entries().len() as int).sort_by(newer_first());
            Some(
                all.take(
                    if all.len() < CHAT_ROOM_SEARCH_MAX_RESULTS {
                        all.len() as int
                    } else {
                        CHAT_ROOM_SEARCH_MAX_RESULTS as int
                    },
                ),
            )
        },
    }
}

/// The rooms a search lists, by creation time and table position (see
/// [`spec_search_rooms`]).
pub fn search_rooms(world: &World, socket_id: &str, q: &SearchQuery) -> (r: Option<Vec<(i64, usize)>>)
    ensures
        match spec_search_rooms(*world, socket_id@, *q) {
            Some(keys) => r matches Some(v) && v@ == keys,
            None => r is None,
        },
{
    let acc = match world.get_by_socket(socket_id) {
        Some(a) => a,
        None => return None,
    };
    let ghost a = *acc;
    let mut out: Vec<(i64, usize)> = Vec::new();
    let n = world.chat_rooms.len();
    let mut i: usize = 0;
    proof {
        assert(out@.to_multiset() =~= listed_keys(*world, a, *q, 0).to_multiset());
    }
    while i < n
        invariant
            i <= n,
            n == world.chat_rooms.entries().len(),
            a == *acc,
            sorted_by(out@, newer_first()),
            out@.to_multiset() == listed_keys(*world, a, *q, i as int).to_multiset(),
            forall|k: int| 0 <= k < out@.len() ==> (#[trigger] out@[k]).1 < i,
        decreases n - i,
    {
        let room = world.chat_rooms.value_at(i);
        match room_listed(acc, room, q) {
            Some(_) => {
                let ghost before = out@;
                insert_newest_first(&mut out, (room.creation, i));
                proof {
                    assert forall|k: int| 0 <= k < out@.len() implies (#[trigger] out@[k]).1 < i + 1 by {
                        if out@[k] != (room.creation, i) {
                            assert(before.contains(out@[k]));
                            let j = choose|j: int| 0 <= j < before.len() && before[j] == out@[k];
                            assert(before[j].1 < i);
                        }
                    }
                    vstd::seq_lib::to_multiset_build(listed_keys(*world, a, *q, i as int), (room.creation, i));
                }
            },
            None => {},
        }
        i += 1;
    }
    proof {
        let keys = listed_keys(*world, a, *q, n as int);
        lemma_newer_first_total();
        keys.lemma_sort_by_ensures(newer_first());
        vstd::seq_lib::lemma_sorted_unique(out@, keys.sort_by(newer_first()), newer_first());
    }
    if out.len() > CHAT_ROOM_SEARCH_MAX_RESULTS {
        out.truncate(CHAT_ROOM_SEARCH_MAX_RESULTS);
    }
    Some(out)
}

/// What a searcher sees of a member of a listed room: their submissive (the
/// member is owned by the searcher), a mutual friend, or nothing.
pub open spec fn friend_kind(acc: OnlineAccount, other: OnlineAccount) -> Option<bool> {
    if crate::chat::is_owner(other, acc.member_number) {
        Some(true)
    } else if acc.friend_list@.contains(other.member_number) && other.friend_list@.contains(acc.member_number) {
        Some(false)
    } else {
        None
    }
}

/// The entry a searcher sees for member `x` of a room: submissive or
/// friend, member number and name; none for an offline member or one who is
/// neither.
pub open spec fn friend_entry(w: World, acc: OnlineAccount, x: i64) -> Option<(bool, i64, Seq<char>)> {
    match account_of_member(w, x) {
        Some(o) => match friend_kind(acc, o) {
            Some(k) => Some((k, o.member_number, o.name@)),
            None => None,
        },
        None => None,
    }
}

pub open spec fn has_friend_entry(w: World, acc: OnlineAccount) -> spec_fn(i64) -> bool {
    |x: i64| friend_entry(w, acc, x) is Some
}

pub open spec fn the_friend_entry(w: World, acc: OnlineAccount) -> spec_fn(i64) -> (bool, i64, Seq<char>) {
    |x: i64| friend_entry(w, acc, x).unwrap()
}

pub open spec fn friend_rows(r: Seq<(bool, i64, String)>) -> Seq<(bool, i64, Seq<char>)> {
    r.map_values(|t: (bool, i64, String)| (t.0, t.1, t.2@))
}

/// The searcher's submissives (`true`) and mutual friends (`false`) among
/// the online members of a room, in the room's order, by member number and
/// name.
pub fn room_friends(world: &World, acc: &OnlineAccount, members: &Vec<i64>) -> (r: Vec<(bool, i64, String)>)
    ensures
        friend_rows(r@) == members@.filter(has_friend_entry(*world, *acc)).map_values(
            the_friend_entry(*world, *acc),
        ),
{
    let ghost p = has_friend_entry(*world, *acc);
    let ghost f = the_friend_entry(*world, *acc);
    let mut out: Vec<(bool, i64, String)> = Vec::new();
    let mut i: usize = 0;
    while i < members.len()
        invariant
            i <= members.len(),
            p == has_friend_entry(*world, *acc),
            f == the_friend_entry(*world, *acc),
            friend_rows(out@) == members@.take(i as int).filter(p).map_values(f),
        decreases members.len() - i,
    {
        proof {
            crate::lists::lemma_filter_take_step(members@, p, i as int);
        }
        let ghost before = members@.take(i as int).filter(p);
        let ghost rows = friend_rows(out@);
        let x = members[i];
        if let Some(other) = world.get_by_member(x) {
            let owned = match &other.ownership {
                Some(o) => o.get_i64("MemberNumber") == Some(acc.member_number),
                None => false,
            };
            let kind = if owned {
                Some(true)
            } else if crate::lists::contains_i64(&acc.friend_list, other.member_number) && crate::lists::contains_i64(
                &other.friend_list,
                acc.member_number,
            ) {
                Some(false)
            } else {
                None
            };
            if let Some(k) = kind {
                out.push((k, other.member_number, other.name.clone()));
                proof {
                    assert(friend_rows(out@) =~= rows.push(f(x)));
                    assert(before.push(x).map_values(f) =~= before.map_values(f).push(f(x)));
                }
            }
        }
        i += 1;
    }
    proof {
        assert(members@.take(members.len() as int) =~= members@);
    }
    out
}

} // verus!
