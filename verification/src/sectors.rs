//! Live prison sector screens: who renders which sector of whose prison,
//! and what they see of each other.

use vstd::prelude::*;
use crate::json::{Json, JsonView, JsonNumber, view_items, view_entries, object_entries, lemma_view_entries,
    lemma_view_items_push, int_value, opt_view};
use crate::lists::{texts, first_where, lemma_first_where_at, lemma_first_where_none, lemma_filter_take_step, without};
use crate::state::account::OnlineAccount;
use crate::state::world::{World, PrisonSectorSession, session_view, sessions_view, sessions_without, sessions_of,
    remove_member_from_sessions, account_of_member};
use crate::chat::opt_json;
use crate::text::to_owned_string;

verus! {

/// The session of a given host and sector.
pub open spec fn is_sector(host: i64, sector: i64) -> spec_fn((i64, i64, Seq<i64>)) -> bool {
    |t: (i64, i64, Seq<i64>)| t.0 == host && t.1 == sector
}

pub open spec fn below(m: i64) -> spec_fn(i64) -> bool {
    |x: i64| x < m
}

pub open spec fn above(m: i64) -> spec_fn(i64) -> bool {
    |x: i64| x > m
}

/// A member list with `m` put in its place by member number.
pub open spec fn insert_sorted(s: Seq<i64>, m: i64) -> Seq<i64> {
    s.filter(below(m)) + seq![m] + s.filter(above(m))
}

/// The sessions after member `m` joined the session of `host` and
/// `sector`, created when there is none.
pub open spec fn with_member(v: Seq<(i64, i64, Seq<i64>)>, host: i64, sector: i64, m: i64) -> Seq<(i64, i64, Seq<i64>)> {
    let i = first_where(v, is_sector(host, sector));
    if i >= 0 {
        v.update(i, (host, sector, insert_sorted(v[i].2, m)))
    } else {
        v.push((host, sector, seq![m]))
    }
}

/// A list in increasing order.
pub open spec fn increasing(s: Seq<i64>) -> bool {
    forall|a: int, b: int| 0 <= a < b < s.len() ==> s[a] < s[b]
}

fn insert_member(s: &Vec<i64>, m: i64) -> (r: Vec<i64>)
    ensures
        r@ == insert_sorted(s@, m),
{
    let ghost p = below(m);
    let ghost q = above(m);
    let mut low: Vec<i64> = Vec::new();
    let mut high: Vec<i64> = Vec::new();
    let mut i: usize = 0;
    while i < s.len()
        invariant
            i <= s@.len(),
            p == below(m),
            q == above(m),
            low@ == s@.take(i as int).filter(p),
            high@ == s@.take(i as int).filter(q),
        decreases s@.len() - i,
    {
        proof {
            lemma_filter_take_step(s@, p, i as int);
            lemma_filter_take_step(s@, q, i as int);
        }
        let x = s[i];
        if x < m {
            low.push(x);
        } else if x > m {
            high.push(x);
        }
        i += 1;
    }
    proof {
        assert(s@.take(s@.len() as int) =~= s@);
    }
    let ghost l = low@;
    low.push(m);
    let mut j: usize = 0;
    while j < high.len()
        invariant
            j <= high@.len(),
            low@ == l.push(m) + high@.take(j as int),
        decreases high@.len() - j,
    {
        low.push(high[j]);
        assert(low@ =~= l.push(m) + high@.take(j + 1));
        j += 1;
    }
    assert(high@.take(high@.len() as int) =~= high@);
    assert(low@ =~= insert_sorted(s@, m));
    low
}

fn find_session(sessions: &Vec<PrisonSectorSession>, host: i64, sector: i64) -> (r: Option<usize>)
    ensures
        match r {
            Some(i) => i == first_where(sessions_view(sessions@), is_sector(host, sector)) && i < sessions@.len(),
            None => first_where(sessions_view(sessions@), is_sector(host, sector)) == -1,
        },
{
    let ghost v = sessions_view(sessions@);
    let ghost p = is_sector(host, sector);
    let mut i: usize = 0;
    while i < sessions.len()
        invariant
            i <= sessions@.len(),
            v == sessions_view(sessions@),
            p == is_sector(host, sector),
            forall|j: int| 0 <= j < i ==> !p(#[trigger] v[j]),
        decreases sessions@.len() - i,
    {
        if sessions[i].host_member_number == host && sessions[i].sector_index == sector {
            proof {
                lemma_first_where_at(v, p, i as int);
            }
            return Some(i);
        }
        i += 1;
    }
    proof {
        lemma_first_where_none(v, p);
    }
    None
}

/// Member `m` renders the sector `sector` of `host`'s prison: it leaves
/// every other sector screen first (one screen at a time). Returns the
/// host and sector of each session it was in before.
pub fn join_prison_sector(sessions: &mut Vec<PrisonSectorSession>, host: i64, sector: i64, m: i64) -> (r: Vec<(i64, i64)>)
    ensures
        sessions_view(final(sessions)@) == with_member(sessions_without(sessions_view(old(sessions)@), m), host, sector, m),
        r@ == sessions_of(sessions_view(old(sessions)@), m),
{
    let previous = remove_member_from_sessions(sessions, m);
    let ghost v = sessions_view(sessions@);
    match find_session(sessions, host, sector) {
        Some(i) => {
            let members = insert_member(&sessions[i].members, m);
            let s = PrisonSectorSession { host_member_number: host, sector_index: sector, members };
            sessions.set(i, s);
            proof {
                assert(sessions_view(sessions@) =~= v.update(i as int, (host, sector, insert_sorted(v[i as int].2, m))));
            }
        },
        None => {
            let mut members: Vec<i64> = Vec::new();
            members.push(m);
            sessions.push(PrisonSectorSession { host_member_number: host, sector_index: sector, members });
            proof {
                assert(sessions_view(sessions@) =~= v.push((host, sector, seq![m])));
            }
        },
    }
    previous
}

/// Sessions that still have members.
pub open spec fn occupied() -> spec_fn((i64, i64, Seq<i64>)) -> bool {
    |t: (i64, i64, Seq<i64>)| t.2.len() > 0
}

/// The sessions after member `m` leaves the screen of `host` and
/// `sector`; sessions left without members are dropped.
pub open spec fn without_member(v: Seq<(i64, i64, Seq<i64>)>, host: i64, sector: i64, m: i64) -> Seq<(i64, i64, Seq<i64>)> {
    let i = first_where(v, is_sector(host, sector));
    let w = if i >= 0 {
        v.update(i, (v[i].0, v[i].1, without(v[i].2, m)))
    } else {
        v
    };
    w.filter(occupied())
}

fn drop_empty_sessions(sessions: &mut Vec<PrisonSectorSession>)
    ensures
        sessions_view(final(sessions)@) == sessions_view(old(sessions)@).filter(occupied()),
{
    let ghost orig = sessions_view(sessions@);
    let ghost p = occupied();
    let mut out: Vec<PrisonSectorSession> = Vec::new();
    while sessions.len() > 0
        invariant
            sessions@.len() <= orig.len(),
            p == occupied(),
            sessions_view(sessions@) == orig.skip(orig.len() - sessions@.len()),
            sessions_view(out@) == orig.take(orig.len() - sessions@.len()).filter(p),
        decreases sessions@.len(),
    {
        let ghost k = orig.len() - sessions@.len();
        proof {
            lemma_filter_take_step(orig, p, k);
            assert(sessions_view(sessions@)[0] == orig[k]);
        }
        let ghost before = sessions@;
        let s = sessions.remove(0);
        proof {
            assert(sessions@ =~= before.subrange(1, before.len() as int));
            assert(sessions_view(sessions@) =~= sessions_view(before).subrange(1, before.len() as int));
            assert(sessions_view(before).subrange(1, before.len() as int) =~= orig.skip(k + 1));
        }
        if s.members.len() > 0 {
            let ghost before = out@;
            out.push(s);
            assert(sessions_view(out@) =~= sessions_view(before).push(session_view(s)));
        }
    }
    assert(orig.take(orig.len() as int) =~= orig);
    *sessions = out;
}

/// Member `m` leaves the screen of `host` and `sector`; returns whether it
/// was on it.
pub fn leave_prison_sector(sessions: &mut Vec<PrisonSectorSession>, host: i64, sector: i64, m: i64) -> (r: bool)
    ensures
        sessions_view(final(sessions)@) == without_member(sessions_view(old(sessions)@), host, sector, m),
        r == ({
            let v = sessions_view(old(sessions)@);
            let i = first_where(v, is_sector(host, sector));
            i >= 0 && v[i].2.contains(m)
        }),
{
    let ghost v = sessions_view(sessions@);
    let changed = match find_session(sessions, host, sector) {
        Some(i) => {
            let was = crate::lists::contains_i64(&sessions[i].members, m);
            let mut members = crate::lists::clone_i64s(&sessions[i].members);
            crate::lists::retain_ne(&mut members, m);
            proof {
                crate::lists::lemma_first_where(v, is_sector(host, sector));
            }
            let s = PrisonSectorSession { host_member_number: host, sector_index: sector, members };
            sessions.set(i, s);
            proof {
                assert(sessions_view(sessions@) =~= v.update(i as int, (v[i as int].0, v[i as int].1, without(v[i as int].2, m))));
            }
            was
        },
        None => false,
    };
    drop_empty_sessions(sessions);
    changed
}

/// What a member of a sector screen shows: number, name, role (the host is
/// the owner, others renters), asset family, appearance, active pose and
/// title.
pub open spec fn sector_member_row(a: OnlineAccount, host: i64) -> JsonView {
    JsonView::Object(
        seq![
            ("MemberNumber"@, JsonView::Number(JsonNumber::Int(a.member_number))),
            ("Name"@, JsonView::Str(a.name@)),
            ("Role"@, JsonView::Str(if a.member_number == host { "Owner"@ } else { "Renter"@ })),
            ("AssetFamily"@, JsonView::Str(
                match a.spec_extra("AssetFamily"@) {
                    Some(JsonView::Str(f)) => f,
                    _ => "Female3DCG"@,
                },
            )),
            ("Appearance"@, match opt_json(a.appearance) {
                Some(x) => x,
                None => JsonView::Array(Seq::empty()),
            }),
            ("ActivePose"@, match opt_json(a.active_pose) {
                Some(x) => x,
                None => JsonView::Null,
            }),
            ("Title"@, match a.title {
                Some(t) => JsonView::Str(t@),
                None => JsonView::Null,
            }),
        ],
    )
}

pub open spec fn online_in(w: World) -> spec_fn(i64) -> bool {
    |m: i64| account_of_member(w, m) is Some
}

/// The socket of an online member.
pub open spec fn socket_in(w: World) -> spec_fn(i64) -> Seq<char> {
    |m: i64| account_of_member(w, m).unwrap().socket_id@
}

pub open spec fn member_row_in(w: World, host: i64) -> spec_fn(i64) -> JsonView {
    |m: i64| sector_member_row(account_of_member(w, m).unwrap(), host)
}

/// The screen of `host`'s sector `sector`: its online members, in the
/// session's order; none without such a session.
pub open spec fn spec_sector_snapshot(w: World, host: i64, sector: i64) -> Option<Seq<JsonView>> {
    let v = sessions_view(w.prison_sector_sessions@);
    let i = first_where(v, is_sector(host, sector));
    if i < 0 {
        None
    } else {
        Some(v[i].2.filter(online_in(w)).map_values(member_row_in(w, host)))
    }
}

fn member_row(a: &OnlineAccount, host: i64) -> (r: Json)
    ensures
        r@ == sector_member_row(*a, host),
{
    let family = match a.extra_get("AssetFamily") {
        Some(Json::Str(f)) => Json::Str(to_owned_string(f.as_str())),
        _ => Json::Str(to_owned_string("Female3DCG")),
    };
    let appearance = match &a.appearance {
        Some(x) => x.deep_clone(),
        None => {
            let v: Vec<Json> = Vec::new();
            let e = Json::Array(v);
            assert(e@ == JsonView::Array(view_items(v@)));
            e
        },
    };
    let pose = match &a.active_pose {
        Some(x) => x.deep_clone(),
        None => Json::Null,
    };
    let title = match &a.title {
        Some(t) => Json::Str(to_owned_string(t.as_str())),
        None => Json::Null,
    };
    let role = if a.member_number == host {
        Json::Str(to_owned_string("Owner"))
    } else {
        Json::Str(to_owned_string("Renter"))
    };
    let mut e: Vec<(String, Json)> = Vec::new();
    e.push((to_owned_string("MemberNumber"), int_value(a.member_number)));
    e.push((to_owned_string("Name"), Json::Str(to_owned_string(a.name.as_str()))));
    e.push((to_owned_string("Role"), role));
    e.push((to_owned_string("AssetFamily"), family));
    e.push((to_owned_string("Appearance"), appearance));
    e.push((to_owned_string("ActivePose"), pose));
    e.push((to_owned_string("Title"), title));
    proof {
        lemma_view_entries(e@);
        assert(view_entries(e@) =~= object_entries(sector_member_row(*a, host)));
    }
    Json::Object(e)
}

/// The screen of a sector, see [`spec_sector_snapshot`].
pub fn prison_sector_snapshot(world: &World, host: i64, sector: i64) -> (r: Option<Vec<Json>>)
    ensures
        match spec_sector_snapshot(*world, host, sector) {
            None => r is None,
            Some(rows) => r matches Some(x) && view_items(x@) == rows,
        },
{
    let i = match find_session(&world.prison_sector_sessions, host, sector) {
        Some(i) => i,
        None => return None,
    };
    let members = &world.prison_sector_sessions[i].members;
    let ghost s = members@;
    let ghost p = online_in(*world);
    let ghost f = member_row_in(*world, host);
    let mut rows: Vec<Json> = Vec::new();
    let mut j: usize = 0;
    while j < members.len()
        invariant
            j <= s.len(),
            s == members@,
            p == online_in(*world),
            f == member_row_in(*world, host),
            view_items(rows@) == s.take(j as int).filter(p).map_values(f),
        decreases s.len() - j,
    {
        proof {
            lemma_filter_take_step(s, p, j as int);
        }
        match world.get_by_member(members[j]) {
            Some(a) => {
                let ghost before = s.take(j as int).filter(p);
                let row = member_row(a, host);
                proof {
                    lemma_view_items_push(rows@, row);
                }
                rows.push(row);
                assert(view_items(rows@) =~= before.push(s[j as int]).map_values(f));
            },
            None => {},
        }
        j += 1;
    }
    assert(s.take(s.len() as int) =~= s);
    Some(rows)
}

/// The sockets of the online members of a sector screen.
pub fn sector_sockets(world: &World, host: i64, sector: i64) -> (r: Vec<String>)
    ensures
        ({
            let i = first_where(sessions_view(world.prison_sector_sessions@), is_sector(host, sector));
            if i < 0 {
                r@.len() == 0
            } else {
                texts(r@) == sessions_view(world.prison_sector_sessions@)[i].2.filter(online_in(*world)).map_values(
                    socket_in(*world),
                )
            }
        }),
{
    let mut out: Vec<String> = Vec::new();
    let i = match find_session(&world.prison_sector_sessions, host, sector) {
        Some(i) => i,
        None => return out,
    };
    let members = &world.prison_sector_sessions[i].members;
    let ghost s = members@;
    let ghost p = online_in(*world);
    let ghost f = socket_in(*world);
    let mut j: usize = 0;
    while j < members.len()
        invariant
            j <= s.len(),
            s == members@,
            p == online_in(*world),
            f == socket_in(*world),
            texts(out@) == s.take(j as int).filter(p).map_values(f),
        decreases s.len() - j,
    {
        proof {
            lemma_filter_take_step(s, p, j as int);
        }
        match world.get_by_member(members[j]) {
            Some(a) => {
                let ghost before = s.take(j as int).filter(p);
                let ghost prev = out@;
                let x = to_owned_string(a.socket_id.as_str());
                assert(f(s[j as int]) == x@);
                out.push(x);
                assert(texts(out@) =~= texts(prev).push(x@));
                assert(texts(out@) =~= before.push(s[j as int]).map_values(f));
            },
            None => {},
        }
        j += 1;
    }
    assert(s.take(s.len() as int) =~= s);
    out
}

/// Joining keeps a session's members in increasing order.
pub proof fn law_join_keeps_members_sorted(s: Seq<i64>, m: i64)
    requires
        increasing(s),
    ensures
        increasing(insert_sorted(s, m)),
{
    let lo = s.filter(below(m));
    let hi = s.filter(above(m));
    let r = insert_sorted(s, m);
    assert forall|i: int| 0 <= i < lo.len() implies #[trigger] lo[i] < m by {
        s.lemma_filter_pred(below(m), i);
    }
    assert forall|i: int| 0 <= i < hi.len() implies #[trigger] hi[i] > m by {
        s.lemma_filter_pred(above(m), i);
    }
    lemma_filter_increasing(s, below(m));
    lemma_filter_increasing(s, above(m));
    assert forall|a: int, b: int| 0 <= a < b < r.len() implies r[a] < r[b] by {
        if b < lo.len() {
        } else if a < lo.len() {
            if b > lo.len() {
                assert(r[b] == hi[b - lo.len() - 1]);
            }
        } else if a == lo.len() {
            assert(r[b] == hi[b - lo.len() - 1]);
        } else {
            assert(r[a] == hi[a - lo.len() - 1]);
            assert(r[b] == hi[b - lo.len() - 1]);
        }
    }
}

proof fn lemma_filter_increasing(s: Seq<i64>, p: spec_fn(i64) -> bool)
    requires
        increasing(s),
    ensures
        increasing(s.filter(p)),
    decreases s.len(),
{
    reveal(Seq::filter);
    if s.len() > 0 {
        let init = s.drop_last();
        assert(increasing(init));
        lemma_filter_increasing(init, p);
        let f = init.filter(p);
        if p(s.last()) {
            assert forall|i: int| 0 <= i < f.len() implies #[trigger] f[i] < s.last() by {
                assert(f.contains(f[i]));
                init.lemma_filter_contains_rev(p, f[i]);
                let j = choose|j: int| 0 <= j < init.len() && init[j] == f[i];
                assert(s[j] == init[j]);
            }
        }
    }
}


/// The screen of `host`'s sector `sector` for member `m`, who must be on it:
/// none when there is no such session or `m` is not among its members.
pub fn joined_sector_snapshot(world: &World, host: i64, sector: i64, m: i64) -> (r: Option<Vec<Json>>)
    ensures
        ({
            let v = sessions_view(world.prison_sector_sessions@);
            let i = first_where(v, is_sector(host, sector));
            if i >= 0 && v[i].2.contains(m) {
                r matches Some(x) && Some(view_items(x@)) == spec_sector_snapshot(*world, host, sector)
            } else {
                r is None
            }
        }),
{
    let i = match find_session(&world.prison_sector_sessions, host, sector) {
        Some(i) => i,
        None => return None,
    };
    if !crate::lists::contains_i64(&world.prison_sector_sessions[i].members, m) {
        return None;
    }
    prison_sector_snapshot(world, host, sector)
}

} // verus!
