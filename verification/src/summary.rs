//! The public listing of Underground Prisons: what other players see of a
//! public prison, with the rental identities they need to stay in sync.

use vstd::prelude::*;
use crate::json::{Json, JsonView, JsonNumber, view_items, view_entries, object_entries, lemma_view_entries,
    lemma_view_items_push, int_value, str_value, opt_view};
use crate::lists::{first_where, lemma_first_where_at, lemma_first_where_none, lemma_filter_take_step};
use crate::prison::{spec_value_i64, value_i64, str_or, spec_rental_is_active, rental_is_active, active_at, prison_is_public};
use crate::json::number_round;
use crate::query::count_number;
use crate::text::{str_eq, to_owned_string};

verus! {

/// A JSON value is a non-empty array.
pub open spec fn nonempty_array(v: JsonView) -> bool {
    v matches JsonView::Array(a) && a.len() > 0
}

fn is_nonempty_array(v: &Json) -> (r: bool)
    ensures
        r == nonempty_array(v@),
{
    match v.as_array() {
        Some(a) => a.len() > 0,
        None => false,
    }
}

/// Private characters of a given name.
pub open spec fn named(name: Seq<char>) -> spec_fn(JsonView) -> bool {
    |npc: JsonView| npc.get_str("Name"@) == Some(name)
}

/// The private character an entry stands for: the one at its (1-based)
/// `PrivateIndex`, else the first of its `Name`.
pub open spec fn npc_for(pcs: Seq<JsonView>, entry: JsonView) -> Option<JsonView> {
    let i = spec_value_i64(entry.get("PrivateIndex"@));
    if 1 <= i && i - 1 < pcs.len() {
        Some(pcs[i - 1])
    } else {
        match entry.get_str("Name"@) {
            Some(name) => {
                let k = first_where(pcs, named(name));
                if k >= 0 {
                    Some(pcs[k])
                } else {
                    None
                }
            },
            None => None,
        }
    }
}

/// The look of a prison entry: its asset family ("Female3DCG" by default),
/// appearance (an empty array by default) and title. An entry without an
/// appearance of its own borrows the private character's: its non-empty
/// appearance, its asset family and, lacking a title, its title.
pub open spec fn resolved_look(pcs: Option<Seq<JsonView>>, entry: JsonView) -> (Seq<char>, JsonView, Option<Seq<char>>) {
    let family = str_or(entry.get_str("AssetFamily"@), "Female3DCG"@);
    let appearance = match entry.get("Appearance"@) {
        Some(a) => a,
        None => JsonView::Array(Seq::empty()),
    };
    let title = entry.get_str("Title"@);
    if nonempty_array(appearance) {
        (family, appearance, title)
    } else {
        match pcs {
            None => (family, appearance, title),
            Some(p) => match npc_for(p, entry) {
                None => (family, appearance, title),
                Some(npc) => (
                    str_or(npc.get_str("AssetFamily"@), family),
                    match npc.get("Appearance"@) {
                        Some(v) => if nonempty_array(v) {
                            v
                        } else {
                            appearance
                        },
                        None => appearance,
                    },
                    match title {
                        Some(t) => Some(t),
                        None => npc.get_str("Title"@),
                    },
                ),
            },
        }
    }
}

pub open spec fn opt_items(o: Option<&Vec<Json>>) -> Option<Seq<JsonView>> {
    match o {
        Some(v) => Some(view_items(v@)),
        None => None,
    }
}

#[verifier::loop_isolation(false)]
fn find_npc<'a>(pcs: &'a Vec<Json>, entry: &Json) -> (r: Option<&'a Json>)
    ensures
        match npc_for(view_items(pcs@), entry@) {
            Some(npc) => r matches Some(x) && x@ == npc,
            None => r is None,
        },
{
    proof {
        crate::json::lemma_view_items(pcs@);
    }
    let i = value_i64(entry.get("PrivateIndex"));
    if 1 <= i && ((i - 1) as u64 as u128) < (pcs.len() as u128) {
        return Some(&pcs[(i - 1) as usize]);
    }
    let name = match entry.get_str("Name") {
        Some(n) => n,
        None => return None,
    };
    let ghost p = named(name@);
    let ghost v = view_items(pcs@);
    let mut k: usize = 0;
    while k < pcs.len()
        invariant
            k <= pcs@.len(),
            v == view_items(pcs@),
            v.len() == pcs@.len(),
            forall|j: int| 0 <= j < v.len() ==> #[trigger] v[j] == pcs@[j]@,
            p == named(name@),
            forall|j: int| 0 <= j < k ==> !p(#[trigger] v[j]),
        decreases pcs@.len() - k,
    {
        let npc = &pcs[k];
        let found = match npc.get_str("Name") {
            Some(n) => str_eq(n, name),
            None => false,
        };
        if found {
            proof {
                lemma_first_where_at(v, p, k as int);
            }
            return Some(npc);
        }
        proof {
            assert(!p(v[k as int]));
        }
        k += 1;
    }
    proof {
        lemma_first_where_none(v, p);
    }
    None
}

/// Resolves the look of a prison entry, see [`resolved_look`].
pub fn resolve_private_appearance(private_characters: Option<&Vec<Json>>, entry: &Json) -> (r: (
    String,
    Json,
    Option<String>,
))
    ensures
        ({
            let want = resolved_look(opt_items(private_characters), entry@);
            r.0@ == want.0 && r.1@ == want.1 && crate::protocol::opt_string_view(r.2) == want.2
        }),
{
    let family = match entry.get_str("AssetFamily") {
        Some(s) => to_owned_string(s),
        None => to_owned_string("Female3DCG"),
    };
    let appearance = match entry.get("Appearance") {
        Some(a) => a.deep_clone(),
        None => {
            let v: Vec<Json> = Vec::new();
            let a = Json::Array(v);
            assert(a@ == JsonView::Array(view_items(v@)));
            a
        },
    };
    let title = match entry.get_str("Title") {
        Some(t) => Some(to_owned_string(t)),
        None => None,
    };
    if is_nonempty_array(&appearance) {
        return (family, appearance, title);
    }
    let pcs = match private_characters {
        Some(p) => p,
        None => return (family, appearance, title),
    };
    let npc = match find_npc(pcs, entry) {
        Some(n) => n,
        None => return (family, appearance, title),
    };
    let appearance = match npc.get("Appearance") {
        Some(v) => if is_nonempty_array(v) {
            v.deep_clone()
        } else {
            appearance
        },
        None => appearance,
    };
    let family = match npc.get_str("AssetFamily") {
        Some(s) => to_owned_string(s),
        None => family,
    };
    let title = match title {
        Some(t) => Some(t),
        None => match npc.get_str("Title") {
            Some(t) => Some(to_owned_string(t)),
            None => None,
        },
    };
    (family, appearance, title)
}


/// What the hourly production of an active rental depends on: the sector
/// works as a factory (by willpower) or a mine (by strength), whether it has
/// overseers, and the slave's stats as given (50 when not a number).
#[derive(Clone, Copy, PartialEq, Eq, Structural, Debug)]
pub struct PrisonWorker {
    pub factory: bool,
    pub overseen: bool,
    pub strength: Option<JsonNumber>,
    pub willpower: Option<JsonNumber>,
}

/// A public prison's listing and the workers whose production makes its
/// `Hourly` figure.
pub struct PrisonSummary {
    pub listing: Json,
    pub workers: Vec<PrisonWorker>,
}

pub open spec fn number_of(v: Option<JsonView>) -> Option<JsonNumber> {
    match v {
        Some(JsonView::Number(n)) => Some(n),
        _ => None,
    }
}

/// A stat as listed: the number rounded, 50 when there is none.
pub open spec fn stat_rounded(v: Option<JsonView>) -> i64 {
    match number_of(v) {
        Some(n) => number_round(n),
        None => 50,
    }
}

/// The entries with `k` appended when `src` has it.
pub open spec fn opt_push(e: Seq<(Seq<char>, JsonView)>, src: JsonView, k: Seq<char>) -> Seq<(Seq<char>, JsonView)> {
    match src.get(k) {
        Some(v) => e.push((k, v)),
        None => e,
    }
}

/// The entries with the rental identity fields of `src` that it has.
pub open spec fn with_rental_identity(e: Seq<(Seq<char>, JsonView)>, src: JsonView) -> Seq<(Seq<char>, JsonView)> {
    opt_push(
        opt_push(
            opt_push(opt_push(opt_push(e, src, "RenterMemberNumber"@), src, "RenterName"@), src, "RenterPrivateIndex"@),
            src,
            "Until"@,
        ),
        src,
        "RentRole"@,
    )
}

pub open spec fn with_title(e: Seq<(Seq<char>, JsonView)>, t: Option<Seq<char>>) -> Seq<(Seq<char>, JsonView)> {
    match t {
        Some(x) => e.push(("Title"@, JsonView::Str(x))),
        None => e,
    }
}

/// A slave as listed.
pub open spec fn slave_row(pcs: Option<Seq<JsonView>>, slave: JsonView) -> JsonView {
    let look = resolved_look(pcs, slave);
    JsonView::Object(
        with_title(
            with_rental_identity(
                seq![
                    ("Name"@, JsonView::Str(str_or(slave.get_str("Name"@), "Slave"@))),
                    ("PrivateIndex"@, JsonView::Number(JsonNumber::Int(spec_value_i64(slave.get("PrivateIndex"@))))),
                    ("CharacterID"@, JsonView::Str(str_or(slave.get_str("CharacterID"@), ""@))),
                    ("AssignedTime"@, JsonView::Number(JsonNumber::Int(spec_value_i64(slave.get("AssignedTime"@))))),
                    ("Strength"@, JsonView::Number(JsonNumber::Int(stat_rounded(slave.get("Strength"@))))),
                    ("Willpower"@, JsonView::Number(JsonNumber::Int(stat_rounded(slave.get("Willpower"@))))),
                    ("AssetFamily"@, JsonView::Str(look.0)),
                    ("Appearance"@, look.1),
                ],
                slave,
            ),
            look.2,
        ),
    )
}

/// An overseer as listed.
pub open spec fn overseer_row(pcs: Option<Seq<JsonView>>, o: JsonView) -> JsonView {
    let look = resolved_look(pcs, o);
    JsonView::Object(
        with_title(
            seq![
                ("Name"@, JsonView::Str(str_or(o.get_str("Name"@), "Overseer"@))),
                ("PrivateIndex"@, JsonView::Number(JsonNumber::Int(spec_value_i64(o.get("PrivateIndex"@))))),
                ("AssetFamily"@, JsonView::Str(look.0)),
                ("Appearance"@, look.1),
            ],
            look.2,
        ),
    )
}

pub open spec fn slave_row_fn(pcs: Option<Seq<JsonView>>) -> spec_fn(JsonView) -> JsonView {
    |s: JsonView| slave_row(pcs, s)
}

pub open spec fn overseer_row_fn(pcs: Option<Seq<JsonView>>) -> spec_fn(JsonView) -> JsonView {
    |o: JsonView| overseer_row(pcs, o)
}

/// The items of an array value; nothing for any other value.
pub open spec fn items_of(v: Option<JsonView>) -> Seq<JsonView> {
    match v {
        Some(JsonView::Array(a)) => a,
        _ => Seq::empty(),
    }
}

pub open spec fn sector_type(sec: JsonView) -> Seq<char> {
    str_or(sec.get_str("Type"@), "Mine"@)
}

pub open spec fn sector_overseen(sec: JsonView) -> bool {
    match sec.get("Overseers"@) {
        Some(v) => nonempty_array(v),
        None => false,
    }
}

/// The rentals of a sector active at `now`.
pub open spec fn active_slaves(sec: JsonView, now: i64) -> Seq<JsonView> {
    items_of(sec.get("Slaves"@)).filter(active_at(now))
}

pub open spec fn max_i64(a: i64, b: i64) -> i64 {
    if a >= b {
        a
    } else {
        b
    }
}

/// A sector as listed: its type, capacities (at least 5 and 0), active
/// slaves and overseers.
pub open spec fn sector_row(pcs: Option<Seq<JsonView>>, sec: JsonView, now: i64) -> JsonView {
    JsonView::Object(
        seq![
            ("Type"@, JsonView::Str(sector_type(sec))),
            ("Unlocked"@, JsonView::Bool(true)),
            ("BaseSlaveCapacity"@, JsonView::Number(JsonNumber::Int(max_i64(spec_value_i64(sec.get("BaseSlaveCapacity"@)), 5)))),
            ("ExtraCapacity"@, JsonView::Number(JsonNumber::Int(max_i64(spec_value_i64(sec.get("ExtraCapacity"@)), 0)))),
            ("Slaves"@, JsonView::Array(active_slaves(sec, now).map_values(slave_row_fn(pcs)))),
            ("Overseers"@, JsonView::Array(items_of(sec.get("Overseers"@)).map_values(overseer_row_fn(pcs)))),
        ],
    )
}

pub open spec fn sector_row_fn(pcs: Option<Seq<JsonView>>, now: i64) -> spec_fn(JsonView) -> JsonView {
    |sec: JsonView| sector_row(pcs, sec, now)
}

pub open spec fn unlocked() -> spec_fn(JsonView) -> bool {
    |sec: JsonView| sec.get_bool("Unlocked"@) == Some(true)
}

/// The unlocked sectors of a prison.
pub open spec fn open_sectors(prison: JsonView) -> Seq<JsonView> {
    items_of(prison.get("Sectors"@)).filter(unlocked())
}

pub open spec fn worker_of(sec: JsonView) -> spec_fn(JsonView) -> PrisonWorker {
    |s: JsonView| PrisonWorker {
        factory: sector_type(sec) == "Factory"@,
        overseen: sector_overseen(sec),
        strength: number_of(s.get("Strength"@)),
        willpower: number_of(s.get("Willpower"@)),
    }
}

/// The workers of the given sectors, sector by sector.
pub open spec fn workers_of(sectors: Seq<JsonView>, now: i64) -> Seq<PrisonWorker>
    decreases sectors.len(),
{
    if sectors.len() == 0 {
        Seq::empty()
    } else {
        workers_of(sectors.drop_last(), now) + active_slaves(sectors.last(), now).map_values(
            worker_of(sectors.last()),
        )
    }
}

/// The listing of a public prison (its `Hourly` figure aside).
pub open spec fn listing_view(
    member_number: i64,
    member_name: Seq<char>,
    prison: JsonView,
    pcs: Option<Seq<JsonView>>,
    online: bool,
    last_active: i64,
    now: i64,
) -> JsonView {
    let secs = open_sectors(prison);
    JsonView::Object(
        seq![
            ("MemberNumber"@, JsonView::Number(JsonNumber::Int(member_number))),
            ("MemberName"@, JsonView::Str(member_name)),
            ("Name"@, JsonView::Str(
                match prison.get_str("Name"@) {
                    Some(n) => if n.len() > 0 {
                        n
                    } else {
                        member_name
                    },
                    None => member_name,
                },
            )),
            ("SectorCount"@, JsonView::Number(count_number(secs.len()))),
            ("SlaveCount"@, JsonView::Number(count_number(workers_of(secs, now).len()))),
            ("Sectors"@, JsonView::Array(secs.map_values(sector_row_fn(pcs, now)))),
            ("Online"@, JsonView::Bool(online)),
            ("LastActive"@, JsonView::Number(JsonNumber::Int(last_active))),
            ("RentalsAuthoritative"@, JsonView::Bool(true)),
        ],
    )
}

/// The public summary of a prison: none unless the settings hold an owned
/// public prison.
pub open spec fn spec_prison_summary(
    member_number: i64,
    member_name: Seq<char>,
    ext: JsonView,
    pcs: Option<Seq<JsonView>>,
    online: bool,
    last_active: i64,
    now: i64,
) -> Option<(JsonView, Seq<PrisonWorker>)> {
    match ext.get("UndergroundPrison"@) {
        None => None,
        Some(p) => if !prison_is_public(p) {
            None
        } else {
            Some((listing_view(member_number, member_name, p, pcs, online, last_active, now), workers_of(open_sectors(p), now)))
        },
    }
}

fn push_present(e: &mut Vec<(String, Json)>, src: &Json, key: &str)
    ensures
        view_entries(final(e)@) == opt_push(view_entries(old(e)@), src@, key@),
{
    match src.get(key) {
        Some(v) => {
            let x = (to_owned_string(key), v.deep_clone());
            proof {
                crate::json::lemma_view_entries_push(e@, x);
            }
            e.push(x);
        },
        None => {},
    }
}


fn stat_value(v: Option<&Json>) -> (r: i64)
    ensures
        r == stat_rounded(opt_view(v)),
{
    match v {
        Some(Json::Number(n)) => match n {
            JsonNumber::Int(i) => *i,
            JsonNumber::Big(_) => i64::MAX,
            JsonNumber::Float(f) => f.round,
        },
        _ => 50,
    }
}

fn push_title(e: &mut Vec<(String, Json)>, t: Option<String>)
    ensures
        view_entries(final(e)@) == with_title(view_entries(old(e)@), crate::protocol::opt_string_view(t)),
{
    match t {
        Some(x) => {
            let item = (to_owned_string("Title"), Json::Str(x));
            proof {
                crate::json::lemma_view_entries_push(e@, item);
            }
            e.push(item);
        },
        None => {},
    }
}

fn text_or(o: Option<&str>, d: &str) -> (r: Json)
    ensures
        r@ == JsonView::Str(str_or(
            match o {
                Some(s) => Some(s@),
                None => None,
            },
            d@,
        )),
{
    match o {
        Some(s) => Json::Str(to_owned_string(s)),
        None => Json::Str(to_owned_string(d)),
    }
}

fn slave_row_json(pcs: Option<&Vec<Json>>, slave: &Json) -> (r: Json)
    ensures
        r@ == slave_row(opt_items(pcs), slave@),
{
    let (family, appearance, title) = resolve_private_appearance(pcs, slave);
    let mut e: Vec<(String, Json)> = Vec::new();
    e.push((to_owned_string("Name"), text_or(slave.get_str("Name"), "Slave")));
    e.push((to_owned_string("PrivateIndex"), int_value(value_i64(slave.get("PrivateIndex")))));
    e.push((to_owned_string("CharacterID"), text_or(slave.get_str("CharacterID"), "")));
    e.push((to_owned_string("AssignedTime"), int_value(value_i64(slave.get("AssignedTime")))));
    e.push((to_owned_string("Strength"), int_value(stat_value(slave.get("Strength")))));
    e.push((to_owned_string("Willpower"), int_value(stat_value(slave.get("Willpower")))));
    e.push((to_owned_string("AssetFamily"), Json::Str(family)));
    e.push((to_owned_string("Appearance"), appearance));
    let ghost look = resolved_look(opt_items(pcs), slave@);
    proof {
        lemma_view_entries(e@);
        assert(view_entries(e@) =~= seq![
            ("Name"@, JsonView::Str(str_or(slave@.get_str("Name"@), "Slave"@))),
            ("PrivateIndex"@, JsonView::Number(JsonNumber::Int(spec_value_i64(slave@.get("PrivateIndex"@))))),
            ("CharacterID"@, JsonView::Str(str_or(slave@.get_str("CharacterID"@), ""@))),
            ("AssignedTime"@, JsonView::Number(JsonNumber::Int(spec_value_i64(slave@.get("AssignedTime"@))))),
            ("Strength"@, JsonView::Number(JsonNumber::Int(stat_rounded(slave@.get("Strength"@))))),
            ("Willpower"@, JsonView::Number(JsonNumber::Int(stat_rounded(slave@.get("Willpower"@))))),
            ("AssetFamily"@, JsonView::Str(look.0)),
            ("Appearance"@, look.1),
        ]);
    }
    push_present(&mut e, slave, "RenterMemberNumber");
    push_present(&mut e, slave, "RenterName");
    push_present(&mut e, slave, "RenterPrivateIndex");
    push_present(&mut e, slave, "Until");
    push_present(&mut e, slave, "RentRole");
    push_title(&mut e, title);
    Json::Object(e)
}

fn overseer_row_json(pcs: Option<&Vec<Json>>, o: &Json) -> (r: Json)
    ensures
        r@ == overseer_row(opt_items(pcs), o@),
{
    let (family, appearance, title) = resolve_private_appearance(pcs, o);
    let mut e: Vec<(String, Json)> = Vec::new();
    e.push((to_owned_string("Name"), text_or(o.get_str("Name"), "Overseer")));
    e.push((to_owned_string("PrivateIndex"), int_value(value_i64(o.get("PrivateIndex")))));
    e.push((to_owned_string("AssetFamily"), Json::Str(family)));
    e.push((to_owned_string("Appearance"), appearance));
    let ghost look = resolved_look(opt_items(pcs), o@);
    proof {
        lemma_view_entries(e@);
        assert(view_entries(e@) =~= seq![
            ("Name"@, JsonView::Str(str_or(o@.get_str("Name"@), "Overseer"@))),
            ("PrivateIndex"@, JsonView::Number(JsonNumber::Int(spec_value_i64(o@.get("PrivateIndex"@))))),
            ("AssetFamily"@, JsonView::Str(look.0)),
            ("Appearance"@, look.1),
        ]);
    }
    push_title(&mut e, title);
    Json::Object(e)
}

fn array_items<'a>(v: Option<&'a Json>) -> (r: Option<&'a Vec<Json>>)
    ensures
        match r {
            Some(a) => items_of(opt_view(v)) == view_items(a@),
            None => items_of(opt_view(v)) == Seq::<JsonView>::empty(),
        },
{
    match v {
        Some(x) => x.as_array(),
        None => None,
    }
}

fn slave_rows(pcs: Option<&Vec<Json>>, sec: &Json, now: i64, workers: &mut Vec<PrisonWorker>) -> (r: Vec<Json>)
    ensures
        view_items(r@) == active_slaves(sec@, now).map_values(slave_row_fn(opt_items(pcs))),
        final(workers)@ == old(workers)@ + active_slaves(sec@, now).map_values(worker_of(sec@)),
{
    let ghost w0 = workers@;
    let ghost p = active_at(now);
    let ghost f = slave_row_fn(opt_items(pcs));
    let ghost g = worker_of(sec@);
    let mut rows: Vec<Json> = Vec::new();
    let slaves = match array_items(sec.get("Slaves")) {
        Some(a) => a,
        None => {
            assert(active_slaves(sec@, now) =~= Seq::<JsonView>::empty());
            assert(workers@ =~= w0 + active_slaves(sec@, now).map_values(g));
            assert(view_items(rows@) =~= active_slaves(sec@, now).map_values(f));
            return rows;
        },
    };
    let factory = match sec.get_str("Type") {
        Some(t) => str_eq(t, "Factory"),
        None => false,
    };
    proof {
        reveal_strlit("Mine");
        reveal_strlit("Factory");
        assert("Mine"@.len() == 4);
        assert("Factory"@.len() == 7);
        assert("Mine"@ != "Factory"@);
    }
    let overseen = match sec.get("Overseers") {
        Some(v) => is_nonempty_array(v),
        None => false,
    };
    let ghost items = view_items(slaves@);
    proof {
        crate::json::lemma_view_items(slaves@);
    }
    let mut i: usize = 0;
    while i < slaves.len()
        invariant
            i <= slaves@.len(),
            items == view_items(slaves@),
            items.len() == slaves@.len(),
            forall|j: int| 0 <= j < items.len() ==> #[trigger] items[j] == slaves@[j]@,
            items == items_of(sec@.get("Slaves"@)),
            p == active_at(now),
            f == slave_row_fn(opt_items(pcs)),
            g == worker_of(sec@),
            factory == (sector_type(sec@) == "Factory"@),
            overseen == sector_overseen(sec@),
            view_items(rows@) == items.take(i as int).filter(p).map_values(f),
            workers@ == w0 + items.take(i as int).filter(p).map_values(g),
        decreases slaves@.len() - i,
    {
        proof {
            lemma_filter_take_step(items, p, i as int);
        }
        let slave = &slaves[i];
        if rental_is_active(slave, now) {
            let ghost kept = items.take(i as int).filter(p);
            let row = slave_row_json(pcs, slave);
            proof {
                lemma_view_items_push(rows@, row);
            }
            rows.push(row);
            let w = PrisonWorker {
                factory,
                overseen,
                strength: match slave.get("Strength") {
                    Some(Json::Number(n)) => Some(*n),
                    _ => None,
                },
                willpower: match slave.get("Willpower") {
                    Some(Json::Number(n)) => Some(*n),
                    _ => None,
                },
            };
            workers.push(w);
            proof {
                assert(g(items[i as int]) == w);
                assert(view_items(rows@) =~= kept.push(items[i as int]).map_values(f));
                assert(workers@ =~= w0 + kept.push(items[i as int]).map_values(g));
            }
        }
        i += 1;
    }
    proof {
        assert(items.take(items.len() as int) =~= items);
    }
    rows
}

fn overseer_rows(pcs: Option<&Vec<Json>>, sec: &Json) -> (r: Vec<Json>)
    ensures
        view_items(r@) == items_of(sec@.get("Overseers"@)).map_values(overseer_row_fn(opt_items(pcs))),
{
    let ghost f = overseer_row_fn(opt_items(pcs));
    let mut rows: Vec<Json> = Vec::new();
    let list = match array_items(sec.get("Overseers")) {
        Some(a) => a,
        None => {
            assert(view_items(rows@) =~= items_of(sec@.get("Overseers"@)).map_values(f));
            return rows;
        },
    };
    let ghost items = view_items(list@);
    proof {
        crate::json::lemma_view_items(list@);
    }
    let mut i: usize = 0;
    while i < list.len()
        invariant
            i <= list@.len(),
            items == view_items(list@),
            items.len() == list@.len(),
            forall|j: int| 0 <= j < items.len() ==> #[trigger] items[j] == list@[j]@,
            items == items_of(sec@.get("Overseers"@)),
            f == overseer_row_fn(opt_items(pcs)),
            view_items(rows@) == items.take(i as int).map_values(f),
        decreases list@.len() - i,
    {
        let row = overseer_row_json(pcs, &list[i]);
        proof {
            lemma_view_items_push(rows@, row);
        }
        rows.push(row);
        proof {
            assert(view_items(rows@) =~= items.take(i + 1).map_values(f));
        }
        i += 1;
    }
    proof {
        assert(items.take(items.len() as int) =~= items);
    }
    rows
}

fn sector_json(pcs: Option<&Vec<Json>>, sec: &Json, now: i64, workers: &mut Vec<PrisonWorker>) -> (r: Json)
    ensures
        r@ == sector_row(opt_items(pcs), sec@, now),
        final(workers)@ == old(workers)@ + active_slaves(sec@, now).map_values(worker_of(sec@)),
{
    let slaves = slave_rows(pcs, sec, now, workers);
    let overseers = overseer_rows(pcs, sec);
    let base = value_i64(sec.get("BaseSlaveCapacity"));
    let extra = value_i64(sec.get("ExtraCapacity"));
    let mut e: Vec<(String, Json)> = Vec::new();
    e.push((to_owned_string("Type"), text_or(sec.get_str("Type"), "Mine")));
    e.push((to_owned_string("Unlocked"), Json::Bool(true)));
    e.push((to_owned_string("BaseSlaveCapacity"), int_value(if base >= 5 { base } else { 5 })));
    e.push((to_owned_string("ExtraCapacity"), int_value(if extra >= 0 { extra } else { 0 })));
    e.push((to_owned_string("Slaves"), Json::Array(slaves)));
    e.push((to_owned_string("Overseers"), Json::Array(overseers)));
    proof {
        lemma_view_entries(e@);
        assert(view_entries(e@) =~= object_entries(sector_row(opt_items(pcs), sec@, now)));
    }
    Json::Object(e)
}

/// The public summary of a prison as seen at `now`, see
/// [`spec_prison_summary`].
pub fn public_prison_summary_at(
    member_number: i64,
    member_name: &str,
    extension_settings: &Json,
    private_characters: Option<&Vec<Json>>,
    online: bool,
    last_active: i64,
    now: i64,
) -> (r: Option<PrisonSummary>)
    ensures
        match spec_prison_summary(member_number, member_name@, extension_settings@, opt_items(private_characters), online, last_active, now) {
            None => r is None,
            Some(s) => r matches Some(x) && x.listing@ == s.0 && x.workers@ == s.1,
        },
{
    let prison = match extension_settings.get("UndergroundPrison") {
        Some(p) => p,
        None => return None,
    };
    let public = match prison.get_str("Permission") {
        Some(p) => str_eq(p, "Public"),
        None => false,
    };
    if prison.get_bool("Owned") != Some(true) || !public {
        return None;
    }
    let ghost pcs = opt_items(private_characters);
    let ghost f = sector_row_fn(pcs, now);
    let ghost p = unlocked();
    let mut workers: Vec<PrisonWorker> = Vec::new();
    let mut rows: Vec<Json> = Vec::new();
    let empty: Vec<Json> = Vec::new();
    let sectors = match array_items(prison.get("Sectors")) {
        Some(a) => a,
        None => &empty,
    };
    let ghost items = view_items(sectors@);
    proof {
        crate::json::lemma_view_items(sectors@);
        assert(items =~= items_of(prison@.get("Sectors"@)));
    }
    let mut i: usize = 0;
    while i < sectors.len()
        invariant
            i <= sectors@.len(),
            items == view_items(sectors@),
            items.len() == sectors@.len(),
            forall|j: int| 0 <= j < items.len() ==> #[trigger] items[j] == sectors@[j]@,
            items == items_of(prison@.get("Sectors"@)),
            pcs == opt_items(private_characters),
            f == sector_row_fn(pcs, now),
            p == unlocked(),
            view_items(rows@) == items.take(i as int).filter(p).map_values(f),
            workers@ == workers_of(items.take(i as int).filter(p), now),
        decreases sectors@.len() - i,
    {
        proof {
            lemma_filter_take_step(items, p, i as int);
        }
        let sec = &sectors[i];
        if sec.get_bool("Unlocked") == Some(true) {
            let ghost kept = items.take(i as int).filter(p);
            let row = sector_json(private_characters, sec, now, &mut workers);
            proof {
                lemma_view_items_push(rows@, row);
            }
            rows.push(row);
            proof {
                assert(view_items(rows@) =~= kept.push(items[i as int]).map_values(f));
                assert(kept.push(items[i as int]).drop_last() =~= kept);
            }
        }
        i += 1;
    }
    proof {
        assert(items.take(items.len() as int) =~= items);
        crate::json::lemma_view_items(rows@);
    }
    let name = match prison.get_str("Name") {
        Some(n) => if crate::text::char_count(n) > 0 {
            Json::Str(to_owned_string(n))
        } else {
            Json::Str(to_owned_string(member_name))
        },
        None => Json::Str(to_owned_string(member_name)),
    };
    let sector_count = crate::query::count_json(rows.len());
    let slave_count = crate::query::count_json(workers.len());
    let mut e: Vec<(String, Json)> = Vec::new();
    e.push((to_owned_string("MemberNumber"), int_value(member_number)));
    e.push((to_owned_string("MemberName"), Json::Str(to_owned_string(member_name))));
    e.push((to_owned_string("Name"), name));
    e.push((to_owned_string("SectorCount"), sector_count));
    e.push((to_owned_string("SlaveCount"), slave_count));
    e.push((to_owned_string("Sectors"), Json::Array(rows)));
    e.push((to_owned_string("Online"), Json::Bool(online)));
    e.push((to_owned_string("LastActive"), int_value(last_active)));
    e.push((to_owned_string("RentalsAuthoritative"), Json::Bool(true)));
    proof {
        lemma_view_entries(e@);
        assert(view_entries(e@) =~= object_entries(
            listing_view(member_number, member_name@, prison@, pcs, online, last_active, now),
        ));
    }
    Some(PrisonSummary { listing: Json::Object(e), workers })
}

/// The public summary of a prison as seen now. Whether there is one does
/// not depend on the time; what it lists does.
pub fn public_prison_summary(
    member_number: i64,
    member_name: &str,
    extension_settings: &Json,
    private_characters: Option<&Vec<Json>>,
    online: bool,
    last_active: i64,
) -> (r: Option<PrisonSummary>)
    ensures
        r is Some <==> (extension_settings@.get("UndergroundPrison"@) matches Some(p) && prison_is_public(p)),
        r matches Some(x) ==> exists|now: i64|
            #[trigger] spec_prison_summary(member_number, member_name@, extension_settings@, opt_items(private_characters), online, last_active, now)
                == Some((x.listing@, x.workers@)),
{
    let now = crate::time::common_time();
    public_prison_summary_at(member_number, member_name, extension_settings, private_characters, online, last_active, now)
}


pub open spec fn array_of(v: Option<JsonView>) -> Option<Seq<JsonView>> {
    match v {
        Some(JsonView::Array(a)) => Some(a),
        _ => None,
    }
}

fn array_ref<'a>(v: Option<&'a Json>) -> (r: Option<&'a Vec<Json>>)
    ensures
        opt_items(r) == array_of(opt_view(v)),
{
    match v {
        Some(x) => x.as_array(),
        None => None,
    }
}

/// The public summary of an online account's prison, as of now (it is
/// online, last active now).
pub fn public_prison_summary_online(account: &crate::state::account::OnlineAccount) -> (r: Option<PrisonSummary>)
    ensures
        r is Some <==> (account.spec_extra("ExtensionSettings"@) matches Some(ext) && (ext.get("UndergroundPrison"@) matches Some(p)
            && prison_is_public(p))),
        r matches Some(x) ==> exists|now: i64|
            #[trigger] spec_prison_summary(account.member_number, account.name@, account.spec_extra("ExtensionSettings"@).unwrap(),
                array_of(account.spec_extra("PrivateCharacter"@)), true, now, now) == Some((x.listing@, x.workers@)),
{
    let ext = match account.extra_get("ExtensionSettings") {
        Some(e) => e,
        None => return None,
    };
    let pcs = array_ref(account.extra_get("PrivateCharacter"));
    let now = crate::time::common_time();
    public_prison_summary_at(account.member_number, account.name.as_str(), ext, pcs, true, now, now)
}

/// The public summary of a stored account's prison: its owner by number
/// (required) and name ("Prison owner" by default), last active at its last
/// login.
pub fn public_prison_summary_from_document(document: &Json, online: bool) -> (r: Option<PrisonSummary>)
    ensures
        r is Some <==> (document@.get_i64("MemberNumber"@) is Some && (document@.get("ExtensionSettings"@) matches Some(ext)
            && (ext.get("UndergroundPrison"@) matches Some(p) && prison_is_public(p)))),
        r matches Some(x) ==> exists|now: i64|
            #[trigger] spec_prison_summary(document@.get_i64("MemberNumber"@).unwrap(), str_or(document@.get_str("Name"@), "Prison owner"@),
                document@.get("ExtensionSettings"@).unwrap(), array_of(document@.get("PrivateCharacter"@)), online,
                spec_value_i64(document@.get("LastLogin"@)), now) == Some((x.listing@, x.workers@)),
{
    let member = match document.get_i64("MemberNumber") {
        Some(m) => m,
        None => return None,
    };
    let name = match document.get_str("Name") {
        Some(n) => n,
        None => "Prison owner",
    };
    let ext = match document.get("ExtensionSettings") {
        Some(e) => e,
        None => return None,
    };
    let pcs = array_ref(document.get("PrivateCharacter"));
    let last = value_i64(document.get("LastLogin"));
    let now = crate::time::common_time();
    let r = public_prison_summary_at(member, name, ext, pcs, online, last, now);
    proof {
        assert(member == document@.get_i64("MemberNumber"@).unwrap());
        assert(name@ == str_or(document@.get_str("Name"@), "Prison owner"@));
        if r is Some {
            assert(spec_prison_summary(document@.get_i64("MemberNumber"@).unwrap(), str_or(document@.get_str("Name"@), "Prison owner"@),
                document@.get("ExtensionSettings"@).unwrap(), array_of(document@.get("PrivateCharacter"@)), online,
                spec_value_i64(document@.get("LastLogin"@)), now) == Some((r.unwrap().listing@, r.unwrap().workers@)));
        }
    }
    r
}

} // verus!
