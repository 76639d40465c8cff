//! The Underground Prison: renting places in the work sectors of a public
//! prison, releasing and ransoming rentals, and joining a sector's screen.

use vstd::prelude::*;
use crate::json::{
    Json, JsonView, JsonNumber, number_floor, entries_set, object_entries, array_items, opt_view,
    view_items, view_entries, lemma_view_items, lemma_view_entries, with_entry, with_item,
    without_item, str_value, int_value, items_copy, lemma_view_items_push,
};
use crate::lists::{first_where, lemma_first_where_at, lemma_first_where_none, lemma_filter_take_step};
use crate::state::account::OnlineAccount;
use crate::text::{str_eq, to_owned_string};

verus! {

/// Price of one rental, credited to the prison's vault.
pub const PRISON_RENT_FEE: i64 = 500;

/// How long a rental lasts.
pub const PRISON_RENT_DURATION_MS: i64 = 24 * 60 * 60 * 1000;

/// The smallest ransom asked for a rental that has not run out.
pub const PRISON_RANSOM_MIN: i64 = 100;

/// Why a prison request is refused; each is answered by its name.
#[derive(Clone, Copy, PartialEq, Eq, Structural, Debug)]
pub enum PrisonError {
    BadRequest,
    Offline,
    NotFound,
    InsufficientFunds,
    Private,
    BadSlave,
    Full,
    NotOwner,
    NotRenter,
    NotRented,
    NotJoined,
}

impl PrisonError {
    pub open spec fn spec_code(self) -> Seq<char> {
        match self {
            PrisonError::BadRequest => "BadRequest"@,
            PrisonError::Offline => "Offline"@,
            PrisonError::NotFound => "NotFound"@,
            PrisonError::InsufficientFunds => "InsufficientFunds"@,
            PrisonError::Private => "Private"@,
            PrisonError::BadSlave => "BadSlave"@,
            PrisonError::Full => "Full"@,
            PrisonError::NotOwner => "NotOwner"@,
            PrisonError::NotRenter => "NotRenter"@,
            PrisonError::NotRented => "NotRented"@,
            PrisonError::NotJoined => "NotJoined"@,
        }
    }

    /// The name the client is answered with.
    pub fn code(&self) -> (r: &'static str)
        ensures
            r@ == self.spec_code(),
    {
        match self {
            PrisonError::BadRequest => "BadRequest",
            PrisonError::Offline => "Offline",
            PrisonError::NotFound => "NotFound",
            PrisonError::InsufficientFunds => "InsufficientFunds",
            PrisonError::Private => "Private",
            PrisonError::BadSlave => "BadSlave",
            PrisonError::Full => "Full",
            PrisonError::NotOwner => "NotOwner",
            PrisonError::NotRenter => "NotRenter",
            PrisonError::NotRented => "NotRented",
            PrisonError::NotJoined => "NotJoined",
        }
    }
}

// ---------------------------------------------------------------------------
// Small readings of prison documents
// ---------------------------------------------------------------------------

/// The ransom for a rental that runs until `until`: nothing once it has run
/// out, else the fee in proportion to the time left, rounded up, and at least
/// the minimum ransom.
pub open spec fn spec_ransom_fee(until: int, now: int) -> int {
    if until <= now {
        0
    } else {
        let q = (PRISON_RENT_FEE * (until - now) + PRISON_RENT_DURATION_MS - 1) / (PRISON_RENT_DURATION_MS as int);
        if q < PRISON_RANSOM_MIN {
            PRISON_RANSOM_MIN as int
        } else {
            q
        }
    }
}

/// The ransom for a rental that runs until `until`, at time `now`.
pub fn ransom_fee(until: i64, now: i64) -> (r: i64)
    requires
        until <= now || PRISON_RENT_FEE * (until - now) + PRISON_RENT_DURATION_MS - 1 <= i64::MAX,
    ensures
        r == spec_ransom_fee(until as int, now as int),
{
    if until <= now {
        return 0;
    }
    let remaining = until - now;
    let q = (PRISON_RENT_FEE * remaining + PRISON_RENT_DURATION_MS - 1) / PRISON_RENT_DURATION_MS;
    if q < PRISON_RANSOM_MIN {
        PRISON_RANSOM_MIN
    } else {
        q
    }
}

/// The ransom computed over the whole range of times.
fn ransom_fee_wide(until: i64, now: i64) -> (r: i128)
    ensures
        r == spec_ransom_fee(until as int, now as int),
{
    if until <= now {
        return 0;
    }
    let remaining: i128 = until as i128 - now as i128;
    let q: i128 = (500 * remaining + 86399999) / 86400000;
    if q < 100 {
        100
    } else {
        q
    }
}

/// The integer reading of an optional number: its floor, 0 for no number.
pub open spec fn spec_value_i64(v: Option<JsonView>) -> i64 {
    match v {
        Some(JsonView::Number(n)) => number_floor(n),
        _ => 0,
    }
}

/// Reads an optional number as an integer: the floor of the number, 0 when
/// there is none.
pub fn value_i64(value: Option<&Json>) -> (r: i64)
    ensures
        r == spec_value_i64(opt_view(value)),
{
    match value {
        Some(Json::Number(n)) => match n {
            JsonNumber::Int(i) => *i,
            JsonNumber::Big(_) => i64::MAX,
            JsonNumber::Float(f) => f.floor,
        },
        _ => 0,
    }
}

/// The first of two optional readings that is there.
pub open spec fn first_present(a: Option<JsonView>, b: Option<JsonView>) -> Option<JsonView> {
    match a {
        Some(v) => Some(v),
        None => b,
    }
}

/// Who a rental was made for: `RentRole`, "Owner" by default.
pub open spec fn spec_rental_role(r: JsonView) -> Seq<char> {
    match r.get_str("RentRole"@) {
        Some(s) => s,
        None => "Owner"@,
    }
}

pub fn rental_role(value: &Json) -> (r: &str)
    ensures
        r@ == spec_rental_role(value@),
{
    match value.get_str("RentRole") {
        Some(s) => s,
        None => "Owner",
    }
}

/// A rental is active while its integer `Until` is not positive or lies
/// after `now`; one without an integer `Until` never runs out.
pub open spec fn spec_rental_is_active(r: JsonView, now: i64) -> bool {
    match r.get_i64("Until"@) {
        Some(until) => until <= 0 || until > now,
        None => true,
    }
}

pub fn rental_is_active(rental: &Json, now: i64) -> (r: bool)
    ensures
        r == spec_rental_is_active(rental@, now),
{
    match rental.get_i64("Until") {
        Some(until) => until <= 0 || until > now,
        None => true,
    }
}

/// The extension settings with the prison set (settings that are no object
/// are replaced by an empty object first).
pub open spec fn spec_extension_with_prison(ext: JsonView, prison: JsonView) -> JsonView {
    JsonView::Object(entries_set(object_entries(ext), "UndergroundPrison"@, prison))
}

pub fn extension_with_prison(extension_settings: &Json, prison: Json) -> (r: Json)
    ensures
        r@ == spec_extension_with_prison(extension_settings@, prison@),
{
    with_entry(extension_settings, "UndergroundPrison", prison)
}

/// The key of a sector session: host member number, a colon, sector index.
pub open spec fn spec_prison_sector_key(host: i64, sector: i64) -> Seq<char> {
    crate::text::decimal(host as int).push(':') + crate::text::decimal(sector as int)
}

pub fn prison_sector_key(host_member_number: i64, sector_index: i64) -> (r: String)
    ensures
        r@ == spec_prison_sector_key(host_member_number, sector_index),
{
    let mut s = crate::text::i64_to_string(host_member_number);
    crate::text::push_char(&mut s, ':');
    let t = crate::text::i64_to_string(sector_index);
    crate::text::push_str(&mut s, t.as_str());
    s
}

// ---------------------------------------------------------------------------
// Requests
// ---------------------------------------------------------------------------

/// The host and sector a request names: `HostMemberNumber` must be an
/// integer and the integer reading of `SectorIndex` must not be negative.
pub open spec fn spec_request_target(request: JsonView) -> Option<(i64, i64)> {
    match request.get_i64("HostMemberNumber"@) {
        None => None,
        Some(h) => {
            let s = spec_value_i64(request.get("SectorIndex"@));
            if s < 0 {
                None
            } else {
                Some((h, s))
            }
        },
    }
}

pub fn request_target(request: &Json) -> (r: Option<(i64, i64)>)
    ensures
        r == spec_request_target(request@),
{
    let host = match request.get_i64("HostMemberNumber") {
        Some(h) => h,
        None => return None,
    };
    let sector = value_i64(request.get("SectorIndex"));
    if sector < 0 {
        None
    } else {
        Some((host, sector))
    }
}

/// Where a rent request goes: a bad target, then an offline renter, then a
/// renter who names their own prison are refused.
pub open spec fn spec_rent_target(request: JsonView, renter: Option<i64>) -> Result<(i64, i64), PrisonError> {
    match spec_request_target(request) {
        None => Err(PrisonError::BadRequest),
        Some((h, s)) => match renter {
            None => Err(PrisonError::Offline),
            Some(m) => if m == h {
                Err(PrisonError::BadRequest)
            } else {
                Ok((h, s))
            },
        },
    }
}

/// Checks a rent request before the host is looked up; `renter` is the
/// renter's member number when the renter is online.
pub fn rent_target(request: &Json, renter: Option<i64>) -> (r: Result<(i64, i64), PrisonError>)
    ensures
        r == spec_rent_target(request@, renter),
{
    match request_target(request) {
        None => Err(PrisonError::BadRequest),
        Some((h, s)) => match renter {
            None => Err(PrisonError::Offline),
            Some(m) => if m == h {
                Err(PrisonError::BadRequest)
            } else {
                Ok((h, s))
            },
        },
    }
}

// ---------------------------------------------------------------------------
// Sectors and rentals
// ---------------------------------------------------------------------------

/// The sector `s` of a prison, if its `Sectors` is an array that long.
pub open spec fn prison_sector(prison: JsonView, s: int) -> Option<JsonView> {
    match prison.get("Sectors"@) {
        Some(JsonView::Array(ss)) => if 0 <= s < ss.len() {
            Some(ss[s])
        } else {
            None
        },
        _ => None,
    }
}

/// The rentals of a sector: its `Slaves` array, or none.
pub open spec fn sector_rentals(sector: JsonView) -> Seq<JsonView> {
    match sector.get("Slaves"@) {
        Some(JsonView::Array(a)) => a,
        _ => Seq::empty(),
    }
}

/// The prison with the rentals of sector `s` replaced.
pub open spec fn prison_with_rentals(prison: JsonView, s: int, rentals: Seq<JsonView>) -> JsonView {
    let ss = array_items(prison.get("Sectors"@).unwrap());
    let sector = ss[s];
    let new_sector = JsonView::Object(entries_set(object_entries(sector), "Slaves"@, JsonView::Array(rentals)));
    JsonView::Object(entries_set(object_entries(prison), "Sectors"@, JsonView::Array(ss.update(s, new_sector))))
}

/// Replaces the rentals of sector `s`.
fn set_sector_rentals(prison: &Json, s: usize, rentals: Vec<Json>) -> (r: Json)
    requires
        prison_sector(prison@, s as int) is Some,
    ensures
        r@ == prison_with_rentals(prison@, s as int, view_items(rentals@)),
{
    let sectors = prison.get("Sectors").unwrap();
    let ghost ss = array_items(sectors@);
    let sv = sectors.as_array().unwrap();
    proof {
        lemma_view_items(sv@);
    }
    let sector = &sv[s];
    let new_sector = with_entry(sector, "Slaves", Json::Array(rentals));
    let new_sectors = with_item(sectors, s, new_sector);
    with_entry(prison, "Sectors", new_sectors)
}

/// The rental of `renter` for `role`: for a private character, also the
/// private index must match.
pub open spec fn rental_matches(renter: i64, role: Seq<char>, private_index: i64) -> spec_fn(JsonView) -> bool {
    |r: JsonView|
        r.get_i64("RenterMemberNumber"@) == Some(renter) && spec_rental_role(r) == role && (role
            == "Self"@ || spec_value_i64(r.get("RenterPrivateIndex"@)) == private_index)
}

/// The prison after the first matching rental of sector `s` is taken out,
/// and that rental; none when the sector has no `Slaves` array or no rental
/// matches.
pub open spec fn spec_remove_prison_rental(prison: JsonView, s: i64, renter: i64, role: Seq<char>, private_index: i64) -> Option<(JsonView, JsonView)> {
    match prison_sector(prison, s as int) {
        None => None,
        Some(sector) => match sector.get("Slaves"@) {
            Some(JsonView::Array(rs)) => {
                let i = first_where(rs, rental_matches(renter, role, private_index));
                if i < 0 {
                    None
                } else {
                    Some((prison_with_rentals(prison, s as int, rs.remove(i)), rs[i]))
                }
            },
            _ => None,
        },
    }
}

/// Index of the sector `s`, if the prison has it.
fn sector_position(prison: &Json, s: i64) -> (r: Option<usize>)
    ensures
        match r {
            Some(i) => i == s && prison_sector(prison@, s as int) is Some,
            None => prison_sector(prison@, s as int) is None,
        },
{
    match prison.get("Sectors") {
        Some(sectors) => match sectors.as_array() {
            Some(v) => {
                proof {
                    lemma_view_items(v@);
                }
                if s >= 0 && (s as u64) < (v.len() as u64) {
                    Some(s as usize)
                } else {
                    None
                }
            },
            None => None,
        },
        None => None,
    }
}

/// Position of the first rental that matches renter, role and (for a
/// private character) private index.
fn find_rental(rs: &Vec<Json>, renter: i64, role: &str, private_index: i64) -> (r: Option<usize>)
    ensures
        match r {
            Some(i) => i == first_where(view_items(rs@), rental_matches(renter, role@, private_index)) && i < rs.len(),
            None => first_where(view_items(rs@), rental_matches(renter, role@, private_index)) == -1,
        },
{
    let ghost rv = view_items(rs@);
    let ghost p = rental_matches(renter, role@, private_index);
    proof {
        lemma_view_items(rs@);
    }
    let mut i: usize = 0;
    while i < rs.len()
        invariant
            i <= rs.len(),
            rv == view_items(rs@),
            p == rental_matches(renter, role@, private_index),
            rv.len() == rs.len(),
            forall|k: int| 0 <= k < rs.len() ==> #[trigger] rv[k] == rs@[k]@,
            forall|j: int| 0 <= j < i ==> !p(#[trigger] rv[j]),
        decreases rs.len() - i,
    {
        let r = &rs[i];
        proof {
            assert(rv[i as int] == r@);
        }
        let hit = match r.get_i64("RenterMemberNumber") {
            Some(m) => m == renter && crate::text::str_eq(rental_role(r), role) && (crate::text::str_eq(
                role,
                "Self",
            ) || value_i64(r.get("RenterPrivateIndex")) == private_index),
            None => false,
        };
        assert(hit == p(rv[i as int]));
        if hit {
            proof {
                lemma_first_where_at(rv, p, i as int);
            }
            return Some(i);
        }
        i += 1;
    }
    proof {
        lemma_first_where_none(rv, p);
    }
    None
}

/// Takes the first rental of sector `s` that matches renter, role and (for a
/// private character) private index out of the prison, and returns it.
pub fn remove_prison_rental(
    prison: &mut Json,
    sector_index: i64,
    renter_member_number: i64,
    role: &str,
    renter_private_index: i64,
) -> (r: Option<Json>)
    ensures
        match spec_remove_prison_rental(old(prison)@, sector_index, renter_member_number, role@, renter_private_index) {
            Some((p, removed)) => r matches Some(x) && x@ == removed && final(prison)@ == p,
            None => r is None && final(prison)@ == old(prison)@,
        },
{
    let s = match sector_position(prison, sector_index) {
        Some(s) => s,
        None => return None,
    };
    let sectors = prison.get("Sectors").unwrap();
    let sv = sectors.as_array().unwrap();
    proof {
        lemma_view_items(sv@);
    }
    let sector = &sv[s];
    let slaves = match sector.get("Slaves") {
        Some(v) => v,
        None => return None,
    };
    let rs = match slaves.as_array() {
        Some(rs) => rs,
        None => return None,
    };
    match find_rental(rs, renter_member_number, role, renter_private_index) {
        Some(i) => {
            proof {
                lemma_view_items(rs@);
            }
            let removed = rs[i].deep_clone();
            let new_rentals = without_item(slaves, i);
            let new_items = items_copy(&new_rentals);
            let new_prison = set_sector_rentals(prison, s, new_items);
            *prison = new_prison;
            Some(removed)
        },
        None => None,
    }
}

// ---------------------------------------------------------------------------
// Renting
// ---------------------------------------------------------------------------

/// A prison takes renters when it is owned and public.
pub open spec fn prison_is_public(p: JsonView) -> bool {
    p.get_bool("Owned"@) == Some(true) && p.get_str("Permission"@) == Some("Public"@)
}

/// The request rents the renter's own place rather than a private character's.
pub open spec fn request_is_self(request: JsonView) -> bool {
    request.get_str("Role"@) == Some("Self"@)
}

pub open spec fn str_or(o: Option<Seq<char>>, d: Seq<char>) -> Seq<char> {
    match o {
        Some(s) => s,
        None => d,
    }
}

/// At most the first `n` characters.
pub open spec fn take_upto(s: Seq<char>, n: int) -> Seq<char> {
    s.take(
        if n < s.len() {
            n
        } else {
            s.len() as int
        },
    )
}

pub open spec fn value_or_empty_array(v: Option<JsonView>) -> JsonView {
    match v {
        Some(x) => x,
        None => JsonView::Array(Seq::empty()),
    }
}

/// The private index a request names (`RenterPrivateIndex`, else `PrivateIndex`).
pub open spec fn requested_private_index(request: JsonView) -> i64 {
    spec_value_i64(first_present(request.get("RenterPrivateIndex"@), request.get("PrivateIndex"@)))
}

/// The renter's private character with (1-based) index `i`.
pub open spec fn private_character(renter: OnlineAccount, i: i64) -> Option<JsonView> {
    match renter.spec_extra("PrivateCharacter"@) {
        Some(JsonView::Array(cs)) => if 1 <= i && i - 1 < cs.len() {
            Some(cs[i - 1])
        } else {
            None
        },
        _ => None,
    }
}

/// Who is rented: name, private index, asset family and appearance; none
/// when the private character asked for does not exist.
pub open spec fn rent_identity(request: JsonView, renter: OnlineAccount) -> Option<(Seq<char>, i64, Seq<char>, JsonView)> {
    if request_is_self(request) {
        let family = match renter.spec_extra("AssetFamily"@) {
            Some(v) => v.as_str(),
            None => None,
        };
        let appearance = match renter.appearance {
            Some(a) => a@,
            None => value_or_empty_array(request.get("Appearance"@)),
        };
        Some((renter.name@, -1i64, str_or(family, "Female3DCG"@), appearance))
    } else {
        let pi = requested_private_index(request);
        match private_character(renter, pi) {
            None => None,
            Some(npc) => Some(
                (
                    take_upto(str_or(npc.get_str("Name"@), "Worker"@), 40),
                    pi,
                    str_or(npc.get_str("AssetFamily"@), "Female3DCG"@),
                    value_or_empty_array(npc.get("Appearance"@)),
                ),
            ),
        }
    }
}

/// How many rentals a sector holds: its base capacity (at least 5) plus its
/// extra capacity (if positive).
pub open spec fn sector_capacity(sector: JsonView) -> int {
    let base = spec_value_i64(sector.get("BaseSlaveCapacity"@));
    let extra = spec_value_i64(sector.get("ExtraCapacity"@));
    (if base < 5 {
        5
    } else {
        base as int
    }) + (if extra < 0 {
        0
    } else {
        extra as int
    })
}

/// The sector has at least one overseer.
pub open spec fn sector_has_overseer(sector: JsonView) -> bool {
    match sector.get("Overseers"@) {
        Some(JsonView::Array(a)) => a.len() > 0,
        _ => false,
    }
}

/// Rentals active at `now`.
pub open spec fn active_at(now: i64) -> spec_fn(JsonView) -> bool {
    |r: JsonView| spec_rental_is_active(r, now)
}

/// A stat asked for, within 1..=100.
pub open spec fn clamp_stat(n: i64) -> i64 {
    if n < 1 {
        1
    } else if n > 100 {
        100
    } else {
        n
    }
}

/// The record of a new rental.
pub open spec fn rental_record(
    identity: (Seq<char>, i64, Seq<char>, JsonView),
    now: i64,
    strength: i64,
    willpower: i64,
    renter: i64,
    renter_name: Seq<char>,
    until: i64,
    role: Seq<char>,
) -> JsonView {
    JsonView::Object(
        seq![
            ("Name"@, JsonView::Str(identity.0)),
            ("PrivateIndex"@, JsonView::Number(JsonNumber::Int(-1i64))),
            ("CharacterID"@, JsonView::Str(""@)),
            ("AssetFamily"@, JsonView::Str(identity.2)),
            ("Appearance"@, identity.3),
            ("AssignedTime"@, JsonView::Number(JsonNumber::Int(now))),
            ("Strength"@, JsonView::Number(JsonNumber::Int(strength))),
            ("Willpower"@, JsonView::Number(JsonNumber::Int(willpower))),
            ("RenterMemberNumber"@, JsonView::Number(JsonNumber::Int(renter))),
            ("RenterName"@, JsonView::Str(renter_name)),
            ("RenterPrivateIndex"@, JsonView::Number(JsonNumber::Int(identity.1))),
            ("Until"@, JsonView::Number(JsonNumber::Int(until))),
            ("RentRole"@, JsonView::Str(role)),
        ],
    )
}

/// The outcome of a rent request for sector `s` of the prison in the host's
/// extension settings (none: the host was not found): the prison after the
/// rental (the vault credit aside), the role, the private index, the end of
/// the rental and the renter's money after the fee.
pub open spec fn spec_prison_rent(
    request: JsonView,
    renter: OnlineAccount,
    s: i64,
    host_extension: Option<JsonView>,
    now: i64,
) -> Result<(JsonView, Seq<char>, i64, i64, i64), PrisonError> {
    match host_extension {
        None => Err(PrisonError::NotFound),
        Some(ext) => {
            let money = spec_value_i64(renter.spec_extra("Money"@));
            if money < PRISON_RENT_FEE {
                Err(PrisonError::InsufficientFunds)
            } else {
                match ext.get("UndergroundPrison"@) {
                    None => Err(PrisonError::Private),
                    Some(prison) => if !prison_is_public(prison) {
                        Err(PrisonError::Private)
                    } else {
                        let role = if request_is_self(request) {
                            "Self"@
                        } else {
                            "Slave"@
                        };
                        match rent_identity(request, renter) {
                            None => Err(PrisonError::BadSlave),
                            Some(identity) => match prison_sector(prison, s as int) {
                                None => Err(PrisonError::Full),
                                Some(sector) => if sector.get_bool("Unlocked"@) != Some(true)
                                    || !sector_has_overseer(sector) {
                                    Err(PrisonError::Full)
                                } else {
                                    let kept = sector_rentals(sector).filter(active_at(now));
                                    if kept.len() >= sector_capacity(sector) {
                                        Err(PrisonError::Full)
                                    } else {
                                        let until = (now + PRISON_RENT_DURATION_MS) as i64;
                                        let record = rental_record(
                                            identity,
                                            now,
                                            clamp_stat(spec_value_i64(request.get("Strength"@))),
                                            clamp_stat(spec_value_i64(request.get("Willpower"@))),
                                            renter.member_number,
                                            renter.name@,
                                            until,
                                            role,
                                        );
                                        Ok(
                                            (
                                                prison_with_rentals(prison, s as int, kept.push(record)),
                                                role,
                                                identity.1,
                                                until,
                                                (money - PRISON_RENT_FEE) as i64,
                                            ),
                                        )
                                    }
                                }
                            },
                        }
                    },
                }
            }
        },
    }
}

/// A granted rental.
pub struct RentGrant {
    /// The host's prison with the rental, before the fee is credited to its vault.
    pub prison: Json,
    pub rent_role: String,
    pub renter_private_index: i64,
    pub until: i64,
    /// The renter's money once the fee is paid.
    pub money_after: i64,
}

fn str_or_default<'a>(o: Option<&'a str>, d: &'a str) -> (r: &'a str)
    ensures
        r@ == str_or(
            match o {
                Some(s) => Some(s@),
                None => None,
            },
            d@,
        ),
{
    match o {
        Some(s) => s,
        None => d,
    }
}

fn json_or_empty_array(v: Option<&Json>) -> (r: Json)
    ensures
        r@ == value_or_empty_array(opt_view(v)),
{
    match v {
        Some(x) => x.deep_clone(),
        None => {
            let e: Vec<Json> = Vec::new();
            proof {
                assert(view_items(e@) =~= Seq::<JsonView>::empty());
            }
            Json::Array(e)
        },
    }
}

fn first_present_ref<'a>(a: Option<&'a Json>, b: Option<&'a Json>) -> (r: Option<&'a Json>)
    ensures
        opt_view(r) == first_present(opt_view(a), opt_view(b)),
{
    match a {
        Some(v) => Some(v),
        None => b,
    }
}

/// The rented identity, see [`rent_identity`].
fn rent_identity_of(request: &Json, renter: &OnlineAccount) -> (r: Option<(String, i64, String, Json)>)
    ensures
        match rent_identity(request@, *renter) {
            Some(id) => r matches Some(x) && x.0@ == id.0 && x.1 == id.1 && x.2@ == id.2 && x.3@ == id.3,
            None => r is None,
        },
{
    let is_self = match request.get_str("Role") {
        Some(role) => crate::text::str_eq(role, "Self"),
        None => false,
    };
    if is_self {
        let family = match renter.extra_get("AssetFamily") {
            Some(v) => v.as_str(),
            None => None,
        };
        let family = crate::text::to_owned_string(str_or_default(family, "Female3DCG"));
        let appearance = match &renter.appearance {
            Some(a) => a.deep_clone(),
            None => json_or_empty_array(request.get("Appearance")),
        };
        Some((renter.name.clone(), -1, family, appearance))
    } else {
        let pi = value_i64(first_present_ref(request.get("RenterPrivateIndex"), request.get("PrivateIndex")));
        let characters = match renter.extra_get("PrivateCharacter") {
            Some(v) => v.as_array(),
            None => None,
        };
        let cs = match characters {
            Some(cs) => cs,
            None => return None,
        };
        proof {
            lemma_view_items(cs@);
        }
        if pi < 1 || ((pi - 1) as u64) >= (cs.len() as u64) {
            return None;
        }
        let npc = &cs[(pi - 1) as usize];
        let name = crate::text::take_chars(str_or_default(npc.get_str("Name"), "Worker"), 40);
        let family = crate::text::to_owned_string(str_or_default(npc.get_str("AssetFamily"), "Female3DCG"));
        let appearance = json_or_empty_array(npc.get("Appearance"));
        Some((name, pi, family, appearance))
    }
}

/// The rentals active at `now`, in their order.
fn active_rentals(rs: &Vec<Json>, now: i64) -> (r: Vec<Json>)
    ensures
        view_items(r@) == view_items(rs@).filter(active_at(now)),
{
    let ghost rv = view_items(rs@);
    proof {
        lemma_view_items(rs@);
    }
    let mut out: Vec<Json> = Vec::new();
    let mut i: usize = 0;
    while i < rs.len()
        invariant
            i <= rs.len(),
            rv == view_items(rs@),
            rv.len() == rs.len(),
            forall|k: int| 0 <= k < rs.len() ==> #[trigger] rv[k] == rs@[k]@,
            view_items(out@) == rv.take(i as int).filter(active_at(now)),
        decreases rs.len() - i,
    {
        proof {
            lemma_filter_take_step(rv, active_at(now), i as int);
            lemma_view_items(out@);
        }
        if rental_is_active(&rs[i], now) {
            let c = rs[i].deep_clone();
            let ghost before = out@;
            out.push(c);
            proof {
                lemma_view_items(before);
                lemma_view_items(out@);
                assert(view_items(out@) =~= view_items(before).push(rv[i as int]));
            }
        }
        i += 1;
    }
    proof {
        assert(rv.take(rs.len() as int) =~= rv);
    }
    out
}

/// The record of a new rental, see [`rental_record`].
fn make_rental_record(
    identity: (String, i64, String, Json),
    now: i64,
    strength: i64,
    willpower: i64,
    renter: i64,
    renter_name: &str,
    until: i64,
    role: &str,
) -> (r: Json)
    ensures
        r@ == rental_record(
            (identity.0@, identity.1, identity.2@, identity.3@),
            now,
            strength,
            willpower,
            renter,
            renter_name@,
            until,
            role@,
        ),
{
    let (name, pi, family, appearance) = identity;
    let ghost av = appearance@;
    let mut e: Vec<(String, Json)> = Vec::new();
    e.push((crate::text::to_owned_string("Name"), Json::Str(name)));
    e.push((crate::text::to_owned_string("PrivateIndex"), int_value(-1)));
    e.push((crate::text::to_owned_string("CharacterID"), str_value("")));
    e.push((crate::text::to_owned_string("AssetFamily"), Json::Str(family)));
    e.push((crate::text::to_owned_string("Appearance"), appearance));
    e.push((crate::text::to_owned_string("AssignedTime"), int_value(now)));
    e.push((crate::text::to_owned_string("Strength"), int_value(strength)));
    e.push((crate::text::to_owned_string("Willpower"), int_value(willpower)));
    e.push((crate::text::to_owned_string("RenterMemberNumber"), int_value(renter)));
    e.push((crate::text::to_owned_string("RenterName"), str_value(renter_name)));
    e.push((crate::text::to_owned_string("RenterPrivateIndex"), int_value(pi)));
    e.push((crate::text::to_owned_string("Until"), int_value(until)));
    e.push((crate::text::to_owned_string("RentRole"), str_value(role)));
    proof {
        lemma_view_entries(e@);
        assert(view_entries(e@) =~= object_entries(
            rental_record((name@, pi, family@, av), now, strength, willpower, renter, renter_name@, until, role@),
        ));
    }
    Json::Object(e)
}

fn clamp_stat_exec(n: i64) -> (r: i64)
    ensures
        r == clamp_stat(n),
{
    if n < 1 {
        1
    } else if n > 100 {
        100
    } else {
        n
    }
}

/// Decides a rent request for sector `sector_index` once the host is looked
/// up (`host_extension`: the host's extension settings, none when the host
/// was not found).
pub fn prison_rent(
    request: &Json,
    renter: &OnlineAccount,
    sector_index: i64,
    host_extension: Option<&Json>,
    now: i64,
) -> (r: Result<RentGrant, PrisonError>)
    requires
        now <= i64::MAX - PRISON_RENT_DURATION_MS,
    ensures
        match r {
            Ok(g) => spec_prison_rent(request@, *renter, sector_index, opt_view(host_extension), now) == Ok::<
                (JsonView, Seq<char>, i64, i64, i64),
                PrisonError,
            >((g.prison@, g.rent_role@, g.renter_private_index, g.until, g.money_after)),
            Err(e) => spec_prison_rent(request@, *renter, sector_index, opt_view(host_extension), now) == Err::<
                (JsonView, Seq<char>, i64, i64, i64),
                PrisonError,
            >(e),
        },
{
    let ext = match host_extension {
        Some(e) => e,
        None => return Err(PrisonError::NotFound),
    };
    let money = value_i64(renter.extra_get("Money"));
    if money < PRISON_RENT_FEE {
        return Err(PrisonError::InsufficientFunds);
    }
    let prison = match ext.get("UndergroundPrison") {
        Some(p) => p,
        None => return Err(PrisonError::Private),
    };
    let owned = prison.get_bool("Owned");
    let public = match prison.get_str("Permission") {
        Some(p) => crate::text::str_eq(p, "Public"),
        None => false,
    };
    if !(owned == Some(true) && public) {
        return Err(PrisonError::Private);
    }
    let is_self = match request.get_str("Role") {
        Some(role) => crate::text::str_eq(role, "Self"),
        None => false,
    };
    let role = if is_self {
        "Self"
    } else {
        "Slave"
    };
    let strength = clamp_stat_exec(value_i64(request.get("Strength")));
    let willpower = clamp_stat_exec(value_i64(request.get("Willpower")));
    let identity = match rent_identity_of(request, renter) {
        Some(id) => id,
        None => return Err(PrisonError::BadSlave),
    };
    let s = match sector_position(prison, sector_index) {
        Some(s) => s,
        None => return Err(PrisonError::Full),
    };
    let sectors = prison.get("Sectors").unwrap();
    let sv = sectors.as_array().unwrap();
    proof {
        lemma_view_items(sv@);
    }
    let sector = &sv[s];
    let has_overseer = match sector.get("Overseers") {
        Some(o) => match o.as_array() {
            Some(a) => a.len() > 0,
            None => false,
        },
        None => false,
    };
    if sector.get_bool("Unlocked") != Some(true) || !has_overseer {
        return Err(PrisonError::Full);
    }
    let mut kept = match sector.get("Slaves") {
        Some(v) => match v.as_array() {
            Some(rs) => active_rentals(rs, now),
            None => Vec::new(),
        },
        None => Vec::new(),
    };
    proof {
        lemma_view_items(kept@);
        if !(sector@.get("Slaves"@) matches Some(JsonView::Array(_))) {
            assert(view_items(kept@) =~= sector_rentals(sector@).filter(active_at(now)));
        }
    }
    let base = value_i64(sector.get("BaseSlaveCapacity"));
    let extra = value_i64(sector.get("ExtraCapacity"));
    let capacity: i128 = (if base < 5 {
        5
    } else {
        base as i128
    }) + (if extra < 0 {
        0
    } else {
        extra as i128
    });
    if (kept.len() as i128) >= capacity {
        return Err(PrisonError::Full);
    }
    let until = now + PRISON_RENT_DURATION_MS;
    let pi = identity.1;
    let record = make_rental_record(
        identity,
        now,
        strength,
        willpower,
        renter.member_number,
        renter.name.as_str(),
        until,
        role,
    );
    let ghost kv = view_items(kept@);
    let ghost rec = record@;
    kept.push(record);
    proof {
        lemma_view_items(kept@);
        assert(view_items(kept@) =~= kv.push(rec));
    }
    let new_prison = set_sector_rentals(prison, s, kept);
    Ok(
        RentGrant {
            prison: new_prison,
            rent_role: crate::text::to_owned_string(role),
            renter_private_index: pi,
            until,
            money_after: money - PRISON_RENT_FEE,
        },
    )
}

// ---------------------------------------------------------------------------
// Release and ransom
// ---------------------------------------------------------------------------

/// The renter a release names: `TargetMemberNumber`, else
/// `RenterMemberNumber`, when that is an integer; else the requester.
pub open spec fn release_target(request: JsonView, requester: i64) -> i64 {
    match first_present(request.get("TargetMemberNumber"@), request.get("RenterMemberNumber"@)) {
        Some(v) => match v.as_i64() {
            Some(t) => t,
            None => requester,
        },
        None => requester,
    }
}

/// The role a release names: "Slave" if asked for, else "Self".
pub open spec fn release_role(request: JsonView) -> Seq<char> {
    if request.get_str("Role"@) == Some("Slave"@) {
        "Slave"@
    } else {
        "Self"@
    }
}

/// The private index a release names.
pub open spec fn release_private_index(request: JsonView) -> i64 {
    spec_value_i64(
        first_present(
            request.get("TargetPrivateIndex"@),
            first_present(request.get("RenterPrivateIndex"@), request.get("PrivateIndex"@)),
        ),
    )
}

/// The outcome of a release request on sector `s` of host `host`'s prison
/// (none: the host was not found): an "OwnerDismiss" by the host frees a
/// rental for nothing, a "SelfRansom" buys the requester's own rental free
/// for the ransom. On success: the prison after, the rental taken out, its
/// renter, the fee, the requester's money after it, and whether it was a
/// dismissal.
pub open spec fn spec_prison_release(
    request: JsonView,
    requester: OnlineAccount,
    host: i64,
    s: i64,
    host_extension: Option<JsonView>,
    now: i64,
) -> Result<(JsonView, JsonView, i64, int, int, bool), PrisonError> {
    let action = str_or(request.get_str("Action"@), ""@);
    let role = release_role(request);
    let pi = release_private_index(request);
    match host_extension {
        None => Err(PrisonError::NotFound),
        Some(ext) => match ext.get("UndergroundPrison"@) {
            None => Err(PrisonError::NotFound),
            Some(prison) => {
                let me = requester.member_number;
                let target = release_target(request, me);
                if action == "OwnerDismiss"@ && me != host {
                    Err(PrisonError::NotOwner)
                } else if action != "OwnerDismiss"@ && action != "SelfRansom"@ {
                    Err(PrisonError::BadRequest)
                } else if action == "SelfRansom"@ && (role != "Self"@ || target != me) {
                    Err(PrisonError::NotRenter)
                } else {
                    match spec_remove_prison_rental(prison, s, target, role, pi) {
                        None => Err(PrisonError::NotFound),
                        Some((after, removed)) => {
                            let until = spec_value_i64(removed.get("Until"@));
                            let fee = if action == "SelfRansom"@ {
                                spec_ransom_fee(until as int, now as int)
                            } else {
                                0
                            };
                            let money = spec_value_i64(requester.spec_extra("Money"@));
                            if fee > money {
                                Err(PrisonError::InsufficientFunds)
                            } else {
                                Ok((after, removed, target, fee, money - fee, action == "OwnerDismiss"@))
                            }
                        },
                    }
                }
            },
        },
    }
}

/// A granted release.
pub struct ReleaseGrant {
    /// The host's prison without the rental.
    pub prison: Json,
    /// The rental taken out.
    pub removed: Json,
    /// Its renter.
    pub target_renter: i64,
    /// The ransom paid (0 for a dismissal).
    pub fee: i64,
    /// The requester's money after the ransom.
    pub money_after: i64,
    /// An owner's dismissal rather than a ransom.
    pub dismissed: bool,
}

/// Decides a release request on sector `sector_index` of host `host`'s prison
/// once the host is looked up (`host_extension`: none when not found).
pub fn prison_release(
    request: &Json,
    requester: &OnlineAccount,
    host: i64,
    sector_index: i64,
    host_extension: Option<&Json>,
    now: i64,
) -> (r: Result<ReleaseGrant, PrisonError>)
    ensures
        match r {
            Ok(g) => spec_prison_release(request@, *requester, host, sector_index, opt_view(host_extension), now)
                == Ok::<(JsonView, JsonView, i64, int, int, bool), PrisonError>(
                (g.prison@, g.removed@, g.target_renter, g.fee as int, g.money_after as int, g.dismissed),
            ),
            Err(e) => spec_prison_release(request@, *requester, host, sector_index, opt_view(host_extension), now)
                == Err::<(JsonView, JsonView, i64, int, int, bool), PrisonError>(e),
        },
{
    let action = str_or_default(request.get_str("Action"), "");
    let role = match request.get_str("Role") {
        Some(r) => if crate::text::str_eq(r, "Slave") {
            "Slave"
        } else {
            "Self"
        },
        None => "Self",
    };
    let pi = value_i64(
        first_present_ref(
            request.get("TargetPrivateIndex"),
            first_present_ref(request.get("RenterPrivateIndex"), request.get("PrivateIndex")),
        ),
    );
    let ext = match host_extension {
        Some(e) => e,
        None => return Err(PrisonError::NotFound),
    };
    let mut prison = match ext.get("UndergroundPrison") {
        Some(p) => p.deep_clone(),
        None => return Err(PrisonError::NotFound),
    };
    let me = requester.member_number;
    let target = match first_present_ref(request.get("TargetMemberNumber"), request.get("RenterMemberNumber")) {
        Some(v) => match v.as_i64() {
            Some(t) => t,
            None => me,
        },
        None => me,
    };
    let dismiss = crate::text::str_eq(action, "OwnerDismiss");
    let ransom = crate::text::str_eq(action, "SelfRansom");
    if dismiss && me != host {
        return Err(PrisonError::NotOwner);
    }
    if !dismiss && !ransom {
        return Err(PrisonError::BadRequest);
    }
    if ransom && (!crate::text::str_eq(role, "Self") || target != me) {
        return Err(PrisonError::NotRenter);
    }
    let removed = match remove_prison_rental(&mut prison, sector_index, target, role, pi) {
        Some(x) => x,
        None => return Err(PrisonError::NotFound),
    };
    let until = value_i64(removed.get("Until"));
    let fee: i128 = if ransom {
        ransom_fee_wide(until, now)
    } else {
        0
    };
    let money = value_i64(requester.extra_get("Money"));
    if fee > money as i128 {
        return Err(PrisonError::InsufficientFunds);
    }
    Ok(
        ReleaseGrant {
            prison,
            removed,
            target_renter: target,
            fee: fee as i64,
            money_after: (money as i128 - fee) as i64,
            dismissed: dismiss,
        },
    )
}

// ---------------------------------------------------------------------------
// Work rooms
// ---------------------------------------------------------------------------

/// What a work-room request asks for.
#[derive(Clone, Copy, PartialEq, Eq, Structural, Debug)]
pub enum WorkRoomAction {
    Join,
    Leave,
    Sync,
}

/// A work-room request: its `Action` ("Join", "Leave" or "Sync"), then its
/// target, else a bad request.
pub open spec fn spec_work_room_request(request: JsonView) -> Result<(WorkRoomAction, i64, i64), PrisonError> {
    let action = request.get_str("Action"@);
    let a = if action == Some("Join"@) {
        Some(WorkRoomAction::Join)
    } else if action == Some("Leave"@) {
        Some(WorkRoomAction::Leave)
    } else if action == Some("Sync"@) {
        Some(WorkRoomAction::Sync)
    } else {
        None
    };
    match a {
        None => Err(PrisonError::BadRequest),
        Some(a) => match spec_request_target(request) {
            None => Err(PrisonError::BadRequest),
            Some((h, s)) => Ok((a, h, s)),
        },
    }
}

pub fn work_room_request(request: &Json) -> (r: Result<(WorkRoomAction, i64, i64), PrisonError>)
    ensures
        r == spec_work_room_request(request@),
{
    let a = match request.get_str("Action") {
        Some(x) => if crate::text::str_eq(x, "Join") {
            WorkRoomAction::Join
        } else if crate::text::str_eq(x, "Leave") {
            WorkRoomAction::Leave
        } else if crate::text::str_eq(x, "Sync") {
            WorkRoomAction::Sync
        } else {
            return Err(PrisonError::BadRequest);
        },
        None => return Err(PrisonError::BadRequest),
    };
    match request_target(request) {
        None => Err(PrisonError::BadRequest),
        Some((h, s)) => Ok((a, h, s)),
    }
}

/// An active rental of `m` for their own place.
pub open spec fn self_rental_of(m: i64, now: i64) -> spec_fn(JsonView) -> bool {
    |r: JsonView| r.get_i64("RenterMemberNumber"@) == Some(m) && spec_rental_role(r) == "Self"@ && spec_rental_is_active(r, now)
}

/// The sector holds an active rental of `m` for their own place.
pub open spec fn has_active_self_rental(sector: JsonView, m: i64, now: i64) -> bool {
    match sector.get("Slaves"@) {
        Some(JsonView::Array(rs)) => exists|i: int| 0 <= i < rs.len() && #[trigger] self_rental_of(m, now)(rs[i]),
        _ => false,
    }
}

/// Who may enter the screen of sector `s` of host `host`'s prison (none:
/// the host was not found): the host, or a member with an active rental of
/// their own place there, in an unlocked sector that exists.
pub open spec fn spec_work_room_access(requester: i64, host: i64, s: i64, host_extension: Option<JsonView>, now: i64) -> Result<(), PrisonError> {
    match host_extension {
        None => Err(PrisonError::NotFound),
        Some(ext) => match ext.get("UndergroundPrison"@) {
            None => Err(PrisonError::NotFound),
            Some(prison) => match prison_sector(prison, s as int) {
                None => Err(PrisonError::NotFound),
                Some(sector) => if sector.get_bool("Unlocked"@) != Some(true) {
                    Err(PrisonError::NotFound)
                } else if requester != host && !has_active_self_rental(sector, requester, now) {
                    Err(PrisonError::NotRented)
                } else {
                    Ok(())
                },
            },
        },
    }
}

#[verifier::loop_isolation(false)]
#[verifier::spinoff_prover]
pub fn work_room_access(
    requester: i64,
    host: i64,
    sector_index: i64,
    host_extension: Option<&Json>,
    now: i64,
) -> (r: Result<(), PrisonError>)
    ensures
        r == spec_work_room_access(requester, host, sector_index, opt_view(host_extension), now),
{
    let ext = match host_extension {
        Some(e) => e,
        None => return Err(PrisonError::NotFound),
    };
    let prison = match ext.get("UndergroundPrison") {
        Some(p) => p,
        None => return Err(PrisonError::NotFound),
    };
    let s = match sector_position(prison, sector_index) {
        Some(s) => s,
        None => return Err(PrisonError::NotFound),
    };
    let sectors = prison.get("Sectors").unwrap();
    let sv = sectors.as_array().unwrap();
    proof {
        lemma_view_items(sv@);
    }
    let sector = &sv[s];
    if sector.get_bool("Unlocked") != Some(true) {
        return Err(PrisonError::NotFound);
    }
    if requester == host {
        return Ok(());
    }
    let rs = match sector.get("Slaves") {
        Some(v) => match v.as_array() {
            Some(rs) => rs,
            None => return Err(PrisonError::NotRented),
        },
        None => return Err(PrisonError::NotRented),
    };
    proof {
        lemma_view_items(rs@);
    }
    let ghost p = self_rental_of(requester, now);
    let ghost rv = view_items(rs@);
    let mut i: usize = 0;
    while i < rs.len()
        invariant
            i <= rs.len(),
            forall|j: int| 0 <= j < i ==> !p(#[trigger] rv[j]),
        decreases rs.len() - i,
    {
        let r = &rs[i];
        assert(rv[i as int] == r@);
        let hit = match r.get_i64("RenterMemberNumber") {
            Some(m) => m == requester && crate::text::str_eq(rental_role(r), "Self") && rental_is_active(r, now),
            None => false,
        };
        assert(hit == p(rv[i as int]));
        if hit {
            return Ok(());
        }
        i += 1;
    }
    Err(PrisonError::NotRented)
}


// ---------------------------------------------------------------------------
// Expiry
// ---------------------------------------------------------------------------

/// Rentals run out at `now`.
pub open spec fn expired_at(now: i64) -> spec_fn(JsonView) -> bool {
    |r: JsonView| !spec_rental_is_active(r, now)
}

/// A sector's rentals after expiry at `now`: the prison with only the
/// active rentals of sector `s` kept, and the expired ones, in order. None
/// when the prison has no such sector or the sector no rental list.
pub open spec fn spec_expire_sector(prison: JsonView, s: i64, now: i64) -> Option<(JsonView, Seq<JsonView>)> {
    match prison_sector(prison, s as int) {
        None => None,
        Some(sec) => match sec.get("Slaves"@) {
            Some(JsonView::Array(rs)) => Some(
                (prison_with_rentals(prison, s as int, rs.filter(active_at(now))), rs.filter(expired_at(now))),
            ),
            _ => None,
        },
    }
}

/// Drops the rentals of sector `s` that ran out at `now`; returns the
/// prison after it and the rentals dropped.
pub fn expire_sector_rentals(prison: &Json, sector_index: i64, now: i64) -> (r: Option<(Json, Vec<Json>)>)
    ensures
        match spec_expire_sector(prison@, sector_index, now) {
            None => r is None,
            Some(e) => r matches Some(x) && x.0@ == e.0 && view_items(x.1@) == e.1,
        },
{
    let s = match sector_position(prison, sector_index) {
        Some(s) => s,
        None => return None,
    };
    let sectors = prison.get("Sectors").unwrap();
    let sv = sectors.as_array().unwrap();
    proof {
        lemma_view_items(sv@);
    }
    let rs = match sv[s].get("Slaves") {
        Some(v) => match v.as_array() {
            Some(rs) => rs,
            None => return None,
        },
        None => return None,
    };
    let ghost items = view_items(rs@);
    let ghost p = active_at(now);
    let ghost q = expired_at(now);
    proof {
        lemma_view_items(rs@);
    }
    let mut kept: Vec<Json> = Vec::new();
    let mut gone: Vec<Json> = Vec::new();
    let mut i: usize = 0;
    while i < rs.len()
        invariant
            i <= rs@.len(),
            items == view_items(rs@),
            items.len() == rs@.len(),
            forall|j: int| 0 <= j < items.len() ==> #[trigger] items[j] == rs@[j]@,
            p == active_at(now),
            q == expired_at(now),
            view_items(kept@) == items.take(i as int).filter(p),
            view_items(gone@) == items.take(i as int).filter(q),
        decreases rs@.len() - i,
    {
        proof {
            lemma_filter_take_step(items, p, i as int);
            lemma_filter_take_step(items, q, i as int);
        }
        let c = rs[i].deep_clone();
        if rental_is_active(&rs[i], now) {
            proof {
                lemma_view_items_push(kept@, c);
            }
            kept.push(c);
        } else {
            proof {
                lemma_view_items_push(gone@, c);
            }
            gone.push(c);
        }
        i += 1;
    }
    proof {
        assert(items.take(items.len() as int) =~= items);
    }
    let new_prison = set_sector_rentals(prison, s, kept);
    Some((new_prison, gone))
}

/// The notice of an expired rental: to its renter and the host, for a
/// rental of the renter's own place or of a slave; none for other roles or
/// without an integer renter.
pub open spec fn spec_expiry_notice(host: i64, s: i64, rental: JsonView) -> Option<(i64, JsonView)> {
    match rental.get_i64("RenterMemberNumber"@) {
        None => None,
        Some(renter) => {
            let role = spec_rental_role(rental);
            if role != "Self"@ && role != "Slave"@ {
                None
            } else {
                Some(
                    (
                        renter,
                        JsonView::Object(
                            seq![
                                ("Action"@, JsonView::Str("Expired"@)),
                                ("HostMemberNumber"@, JsonView::Number(JsonNumber::Int(host))),
                                ("SectorIndex"@, JsonView::Number(JsonNumber::Int(s))),
                                ("RenterMemberNumber"@, JsonView::Number(JsonNumber::Int(renter))),
                                ("RentRole"@, JsonView::Str(role)),
                                ("RenterPrivateIndex"@, JsonView::Number(JsonNumber::Int(spec_value_i64(rental.get("RenterPrivateIndex"@))))),
                                ("Until"@, JsonView::Number(JsonNumber::Int(spec_value_i64(rental.get("Until"@))))),
                            ],
                        ),
                    ),
                )
            }
        },
    }
}

pub fn expiry_notice(host_member_number: i64, sector_index: i64, rental: &Json) -> (r: Option<(i64, Json)>)
    ensures
        match spec_expiry_notice(host_member_number, sector_index, rental@) {
            None => r is None,
            Some(n) => r matches Some(x) && x.0 == n.0 && x.1@ == n.1,
        },
{
    let renter = match rental.get_i64("RenterMemberNumber") {
        Some(m) => m,
        None => return None,
    };
    let role = rental_role(rental);
    if !str_eq(role, "Self") && !str_eq(role, "Slave") {
        return None;
    }
    let mut e: Vec<(String, Json)> = Vec::new();
    e.push((to_owned_string("Action"), str_value("Expired")));
    e.push((to_owned_string("HostMemberNumber"), int_value(host_member_number)));
    e.push((to_owned_string("SectorIndex"), int_value(sector_index)));
    e.push((to_owned_string("RenterMemberNumber"), int_value(renter)));
    e.push((to_owned_string("RentRole"), str_value(role)));
    e.push((to_owned_string("RenterPrivateIndex"), int_value(value_i64(rental.get("RenterPrivateIndex")))));
    e.push((to_owned_string("Until"), int_value(value_i64(rental.get("Until")))));
    proof {
        lemma_view_entries(e@);
        assert(view_entries(e@) =~= object_entries(spec_expiry_notice(host_member_number, sector_index, rental@).unwrap().1));
    }
    Some((renter, Json::Object(e)))
}

/// Expiry splits a sector's rentals: every rental is either kept or
/// dropped, the kept are all active at `now` and the dropped all ran out.
pub proof fn law_expiry_splits_rentals(rs: Seq<JsonView>, now: i64)
    ensures
        rs.filter(active_at(now)).len() + rs.filter(expired_at(now)).len() == rs.len(),
        forall|i: int|
            0 <= i < rs.filter(active_at(now)).len() ==> spec_rental_is_active(
                #[trigger] rs.filter(active_at(now))[i],
                now,
            ),
        forall|i: int|
            0 <= i < rs.filter(expired_at(now)).len() ==> !spec_rental_is_active(
                #[trigger] rs.filter(expired_at(now))[i],
                now,
            ),
    decreases rs.len(),
{
    reveal(Seq::filter);
    if rs.len() > 0 {
        law_expiry_splits_rentals(rs.drop_last(), now);
    }
    assert forall|i: int| 0 <= i < rs.filter(active_at(now)).len() implies spec_rental_is_active(
        #[trigger] rs.filter(active_at(now))[i],
        now,
    ) by {
        rs.lemma_filter_pred(active_at(now), i);
    }
    assert forall|i: int| 0 <= i < rs.filter(expired_at(now)).len() implies !spec_rental_is_active(
        #[trigger] rs.filter(expired_at(now))[i],
        now,
    ) by {
        rs.lemma_filter_pred(expired_at(now), i);
    }
}

} // verus!
