//! What the account stores need besides their drivers: partial updates,
//! value readings, escaping and the SQLite connection address.

use vstd::prelude::*;
use crate::json::{Json, JsonView, JsonNumber, object_entries, view_entries, lemma_view_entries_push, EntriesView,
    entries_get, entries_set, entries_lookup, entries_insert};
use crate::json_path::{merge_set, merge_set_into_object};
use crate::lists::lemma_filter_take_step;
use crate::text::{str_eq, to_owned_string, push_char, push_str, spec_to_lowercase, to_lowercase, spec_parse_i64,
    parse_i64, has_prefix, starts_with, spec_trim, trim, chars_of, string_from_range};
use crate::search::{contains_text, str_contains};

verus! {

/// An update was not given as an object.
#[derive(Debug, Clone, Copy, PartialEq, Eq, Structural)]
pub struct NotAnObject;

/// Fields a partial update never writes: the store's own id and the map
/// data, which is not persisted.
pub open spec fn persisted_field() -> spec_fn((Seq<char>, JsonView)) -> bool {
    |e: (Seq<char>, JsonView)| e.0 != "_id"@ && e.0 != "MapData"@
}

/// The fields a partial update sets: those of the object, `_id` and
/// `MapData` left out.
pub fn json_object_to_set_map(value: &Json) -> (r: Result<Vec<(String, Json)>, NotAnObject>)
    ensures
        match value@ {
            JsonView::Object(e) => r matches Ok(x) && view_entries(x@) == e.filter(persisted_field()),
            _ => r is Err,
        },
{
    let entries = match value {
        Json::Object(e) => e,
        _ => return Err(NotAnObject),
    };
    let ghost v = view_entries(entries@);
    let ghost p = persisted_field();
    proof {
        crate::json::lemma_view_entries(entries@);
    }
    let mut out: Vec<(String, Json)> = Vec::new();
    let mut i: usize = 0;
    while i < entries.len()
        invariant
            i <= entries@.len(),
            v == view_entries(entries@),
            v.len() == entries@.len(),
            forall|j: int| 0 <= j < v.len() ==> #[trigger] v[j] == (entries@[j].0@, entries@[j].1@),
            p == persisted_field(),
            view_entries(out@) == v.take(i as int).filter(p),
        decreases entries@.len() - i,
    {
        proof {
            lemma_filter_take_step(v, p, i as int);
        }
        let k = entries[i].0.as_str();
        if !str_eq(k, "_id") && !str_eq(k, "MapData") {
            let x = (to_owned_string(k), entries[i].1.deep_clone());
            proof {
                lemma_view_entries_push(out@, x);
            }
            out.push(x);
        }
        i += 1;
    }
    proof {
        assert(v.take(v.len() as int) =~= v);
    }
    Ok(out)
}

/// Characters with a meaning in a regular expression.
pub open spec fn regex_special(c: char) -> bool {
    c == '.' || c == '+' || c == '*' || c == '?' || c == '^' || c == '$' || c == '(' || c == ')' || c == '['
        || c == ']' || c == '{' || c == '}' || c == '|' || c == '\\'
}

/// A text with each special character preceded by a backslash.
pub open spec fn regex_escaped(s: Seq<char>) -> Seq<char>
    decreases s.len(),
{
    if s.len() == 0 {
        Seq::empty()
    } else {
        let c = s.last();
        regex_escaped(s.drop_last()) + if regex_special(c) {
            seq!['\\', c]
        } else {
            seq![c]
        }
    }
}

/// Escapes a text for a regular expression that matches it literally.
pub fn regex_escape(s: &str) -> (r: String)
    ensures
        r@ == regex_escaped(s@),
{
    let v = chars_of(s);
    let mut out = String::new();
    let mut i: usize = 0;
    while i < v.len()
        invariant
            i <= v@.len(),
            v@ == s@,
            out@ == regex_escaped(s@.take(i as int)),
        decreases v@.len() - i,
    {
        let c = v[i];
        proof {
            assert(s@.take(i + 1).drop_last() =~= s@.take(i as int));
        }
        let ghost before = out@;
        if c == '.' || c == '+' || c == '*' || c == '?' || c == '^' || c == '$' || c == '(' || c == ')' || c
            == '[' || c == ']' || c == '{' || c == '}' || c == '|' || c == '\\' {
            push_char(&mut out, '\\');
            push_char(&mut out, c);
            assert(out@ =~= before + seq!['\\', c]);
        } else {
            push_char(&mut out, c);
            assert(out@ =~= before + seq![c]);
        }
        i += 1;
    }
    assert(s@.take(v@.len() as int) =~= s@);
    out
}

/// The error texts by which SQLite reports a busy or locked database.
pub open spec fn busy_marker(m: Seq<char>) -> bool {
    ||| contains_text(m, "database is locked"@)
    ||| contains_text(m, "database is busy"@)
    ||| contains_text(m, "busy_snapshot"@)
    ||| contains_text(m, "(code: 5)"@)
    ||| contains_text(m, "(code: 6)"@)
    ||| contains_text(m, "(code: 517)"@)
}

/// An error, by its full message, says the database was busy or locked
/// (worth another try).
pub fn is_sqlite_busy(message: &str) -> (r: bool)
    ensures
        r == busy_marker(spec_to_lowercase(message@)),
{
    let m = to_lowercase(message);
    let s = m.as_str();
    str_contains(s, "database is locked") || str_contains(s, "database is busy") || str_contains(s, "busy_snapshot")
        || str_contains(s, "(code: 5)") || str_contains(s, "(code: 6)") || str_contains(s, "(code: 517)")
}

/// A stored value read as an integer: an integer as it is, a larger one
/// wrapped into the `i64` range, another number truncated (saturated), a
/// text parsed as a decimal integer; nothing else.
pub open spec fn spec_json_to_i64(v: JsonView) -> Option<i64> {
    match v {
        JsonView::Number(JsonNumber::Int(i)) => Some(i),
        JsonView::Number(JsonNumber::Big(u)) => Some(
            if u <= i64::MAX {
                u as i64
            } else {
                (u - 18446744073709551616int) as i64
            },
        ),
        JsonView::Number(JsonNumber::Float(f)) => Some(f.trunc),
        JsonView::Str(s) => spec_parse_i64(s),
        _ => None,
    }
}

pub fn json_to_i64(v: &Json) -> (r: Option<i64>)
    ensures
        r == spec_json_to_i64(v@),
{
    match v {
        Json::Number(JsonNumber::Int(i)) => Some(*i),
        Json::Number(JsonNumber::Big(u)) => {
            let u = *u;
            if u <= 9223372036854775807 {
                Some(u as i64)
            } else {
                Some(((u - 9223372036854775808u64) as i64) + i64::MIN)
            }
        },
        Json::Number(JsonNumber::Float(f)) => Some(f.trunc),
        Json::Str(s) => parse_i64(s.as_str()),
        _ => None,
    }
}

/// The password hash stored in a document: its `Password` text, "" for
/// anything else.
pub open spec fn spec_password_from_json(doc: JsonView) -> Seq<char> {
    match doc.get("Password"@) {
        Some(JsonView::Str(s)) => s,
        _ => ""@,
    }
}

pub fn password_from_json(doc: &Json) -> (r: String)
    ensures
        r@ == spec_password_from_json(doc@),
{
    match doc.get("Password") {
        Some(Json::Str(s)) => to_owned_string(s.as_str()),
        _ => to_owned_string(""),
    }
}

/// `DATABASE_URL` is empty.
#[derive(Debug, Clone, Copy, PartialEq, Eq, Structural)]
pub struct EmptyDatabaseUrl;

/// The connection address for a SQLite `DATABASE_URL` (trimmed): in-memory
/// forms become `sqlite::memory:`; `sqlite:///abs` keeps its absolute path
/// as `sqlite:/abs`; `sqlite://path` and `sqlite:path` become
/// `sqlite:path`; a bare path gets the `sqlite:` prefix.
pub open spec fn spec_sqlite_url(url: Seq<char>) -> Result<Seq<char>, EmptyDatabaseUrl> {
    let t = spec_trim(url);
    if t.len() == 0 {
        Err(EmptyDatabaseUrl)
    } else if t == "sqlite::memory:"@ || t == ":memory:"@ || t == "sqlite://:memory:"@ {
        Ok("sqlite::memory:"@)
    } else if has_prefix(t, "sqlite://"@) {
        let rest = t.subrange(9, t.len() as int);
        if rest.len() > 0 && rest[0] == '/' {
            Ok("sqlite:/"@ + rest)
        } else {
            Ok("sqlite:"@ + rest)
        }
    } else if has_prefix(t, "sqlite:"@) {
        Ok(t)
    } else {
        Ok("sqlite:"@ + t)
    }
}

pub fn normalize_sqlite_url(url: &str) -> (r: Result<String, EmptyDatabaseUrl>)
    ensures
        match spec_sqlite_url(url@) {
            Ok(u) => r matches Ok(x) && x@ == u,
            Err(e) => r == Err::<String, EmptyDatabaseUrl>(e),
        },
{
    let t = trim(url);
    let tv = chars_of(t.as_str());
    if tv.len() == 0 {
        return Err(EmptyDatabaseUrl);
    }
    if str_eq(t.as_str(), "sqlite::memory:") || str_eq(t.as_str(), ":memory:") || str_eq(
        t.as_str(),
        "sqlite://:memory:",
    ) {
        return Ok(to_owned_string("sqlite::memory:"));
    }
    proof {
        reveal_strlit("sqlite://");
        reveal_strlit("sqlite:/");
        reveal_strlit("sqlite:");
    }
    if starts_with(t.as_str(), "sqlite://") {
        let rest = string_from_range(&tv, 9, tv.len());
        let rv = chars_of(rest.as_str());
        if rv.len() > 0 && rv[0] == '/' {
            let mut out = to_owned_string("sqlite:/");
            push_str(&mut out, rest.as_str());
            return Ok(out);
        }
        let mut out = to_owned_string("sqlite:");
        push_str(&mut out, rest.as_str());
        return Ok(out);
    }
    if starts_with(t.as_str(), "sqlite:") {
        return Ok(t);
    }
    let mut out = to_owned_string("sqlite:");
    push_str(&mut out, t.as_str());
    Ok(out)
}


/// The kind of account store.
#[derive(Debug, Clone, Copy, PartialEq, Eq, Structural)]
pub enum DbBackend {
    Mongo,
    Sqlite,
}

/// The store a `DATABASE_URL` names: MongoDB for a `mongodb` scheme
/// (`mongodb://` or `mongodb+srv://`), SQLite for any other address.
pub fn db_backend(url: &str) -> (r: DbBackend)
    ensures
        r == if has_prefix(spec_trim(url@), "mongodb"@) {
            DbBackend::Mongo
        } else {
            DbBackend::Sqlite
        },
{
    let t = trim(url);
    if starts_with(t.as_str(), "mongodb") {
        DbBackend::Mongo
    } else {
        DbBackend::Sqlite
    }
}


/// The columns an account row keeps beside its document.
pub struct AccountColumns {
    pub account_name: String,
    pub email: Option<String>,
    pub password: String,
    pub member_number: Option<i64>,
    pub name: Option<String>,
    pub last_login: Option<i64>,
    pub creation: Option<i64>,
}

/// Why a partial update of a stored account was refused.
#[derive(Debug, Clone, Copy, PartialEq, Eq, Structural)]
pub enum MergeRefusal {
    /// The document has no text `AccountName`.
    NoAccountName,
    /// The update would leave an empty password over a stored one.
    EmptyPasswordOverwrite,
}

/// A text field of a document's entries.
pub open spec fn text_field(e: EntriesView, k: Seq<char>) -> Option<Seq<char>> {
    JsonView::Object(e).get_str(k)
}

/// A field of a document's entries read as an integer (see
/// [`spec_json_to_i64`]).
pub open spec fn int_field(e: EntriesView, k: Seq<char>) -> Option<i64> {
    match entries_get(e, k) {
        Some(v) => spec_json_to_i64(v),
        None => None,
    }
}

/// The entries with `k` set to the text `v`, unless the update names `k` or
/// there is no `v`.
pub open spec fn restore_text(e: EntriesView, set: EntriesView, k: Seq<char>, v: Option<Seq<char>>) -> EntriesView {
    if entries_get(set, k) is None && v is Some {
        entries_set(e, k, JsonView::Str(v.unwrap()))
    } else {
        e
    }
}

/// The entries with `k` set to the integer `v`, unless the update names `k`
/// or there is no `v`.
pub open spec fn restore_int(e: EntriesView, set: EntriesView, k: Seq<char>, v: Option<i64>) -> EntriesView {
    if entries_get(set, k) is None && v is Some {
        entries_set(e, k, JsonView::Number(JsonNumber::Int(v.unwrap())))
    } else {
        e
    }
}

/// A stored account document after a partial update: the update merged in
/// (see [`merge_set`]), then the key columns that the update does not name
/// put back as the document had them: `AccountName`, `Password` (its text,
/// "" for none), `MemberNumber`, `LastLogin`, `Creation` (read as integers),
/// `Name` and `Email` (texts).
pub open spec fn merged_account(doc: EntriesView, set: EntriesView) -> EntriesView {
    let m0 = merge_set(doc, set);
    let m1 = restore_text(m0, set, "AccountName"@, text_field(doc, "AccountName"@));
    let m2 = restore_text(m1, set, "Password"@, Some(spec_password_from_json(JsonView::Object(doc))));
    let m3 = restore_int(m2, set, "MemberNumber"@, int_field(doc, "MemberNumber"@));
    let m4 = restore_int(m3, set, "LastLogin"@, int_field(doc, "LastLogin"@));
    let m5 = restore_int(m4, set, "Creation"@, int_field(doc, "Creation"@));
    let m6 = restore_text(m5, set, "Name"@, text_field(doc, "Name"@));
    restore_text(m6, set, "Email"@, text_field(doc, "Email"@))
}

/// The columns read from an account document.
pub open spec fn columns_match(c: AccountColumns, e: EntriesView) -> bool {
    &&& text_field(e, "AccountName"@) == Some(c.account_name@)
    &&& match text_field(e, "Email"@) {
        Some(x) => c.email matches Some(y) && y@ == x,
        None => c.email is None,
    }
    &&& c.password@ == spec_password_from_json(JsonView::Object(e))
    &&& c.member_number == int_field(e, "MemberNumber"@)
    &&& match text_field(e, "Name"@) {
        Some(x) => c.name matches Some(y) && y@ == x,
        None => c.name is None,
    }
    &&& c.last_login == int_field(e, "LastLogin"@)
    &&& c.creation == int_field(e, "Creation"@)
}

fn text_of(e: &Vec<(String, Json)>, k: &str) -> (r: Option<String>)
    ensures
        match text_field(view_entries(e@), k@) {
            Some(x) => r matches Some(y) && y@ == x,
            None => r is None,
        },
{
    match entries_lookup(e, k) {
        Some(Json::Str(s)) => Some(to_owned_string(s.as_str())),
        _ => None,
    }
}

fn int_of(e: &Vec<(String, Json)>, k: &str) -> (r: Option<i64>)
    ensures
        r == int_field(view_entries(e@), k@),
{
    match entries_lookup(e, k) {
        Some(v) => json_to_i64(v),
        None => None,
    }
}

fn password_of(e: &Vec<(String, Json)>) -> (r: String)
    ensures
        r@ == spec_password_from_json(JsonView::Object(view_entries(e@))),
{
    match entries_lookup(e, "Password") {
        Some(Json::Str(s)) => to_owned_string(s.as_str()),
        _ => to_owned_string(""),
    }
}

fn put_back_text(e: &mut Vec<(String, Json)>, set: &Vec<(String, Json)>, k: &str, v: &Option<String>)
    ensures
        view_entries(final(e)@) == restore_text(
            view_entries(old(e)@),
            view_entries(set@),
            k@,
            match v {
                Some(s) => Some(s@),
                None => None,
            },
        ),
{
    if entries_lookup(set, k).is_none() {
        match v {
            Some(s) => entries_insert(e, to_owned_string(k), Json::Str(to_owned_string(s.as_str()))),
            None => {},
        }
    }
}

fn put_back_int(e: &mut Vec<(String, Json)>, set: &Vec<(String, Json)>, k: &str, v: Option<i64>)
    ensures
        view_entries(final(e)@) == restore_int(view_entries(old(e)@), view_entries(set@), k@, v),
{
    if entries_lookup(set, k).is_none() {
        match v {
            Some(n) => entries_insert(e, to_owned_string(k), Json::Number(JsonNumber::Int(n))),
            None => {},
        }
    }
}

/// A partial update of a stored account document: the document after it
/// (see [`merged_account`]) and the key columns read from that. Refused when
/// the document has no text `AccountName`, before or after, or when the
/// password after is empty while the stored one is not.
pub fn merge_account_update(doc: Vec<(String, Json)>, set: &Vec<(String, Json)>) -> (r: Result<
    (Vec<(String, Json)>, AccountColumns),
    MergeRefusal,
>)
    ensures
        ({
            let d = view_entries(doc@);
            let m = merged_account(d, view_entries(set@));
            if text_field(d, "AccountName"@) is None || text_field(m, "AccountName"@) is None {
                r == Err::<(Vec<(String, Json)>, AccountColumns), MergeRefusal>(MergeRefusal::NoAccountName)
            } else if spec_password_from_json(JsonView::Object(m)).len() == 0
                && spec_password_from_json(JsonView::Object(d)).len() > 0 {
                r == Err::<(Vec<(String, Json)>, AccountColumns), MergeRefusal>(MergeRefusal::EmptyPasswordOverwrite)
            } else {
                r matches Ok(x) && view_entries(x.0@) == m && columns_match(x.1, m)
            }
        }),
{
    let account_name = match text_of(&doc, "AccountName") {
        Some(n) => n,
        None => return Err(MergeRefusal::NoAccountName),
    };
    let password = password_of(&doc);
    let had_password = crate::text::char_count(password.as_str()) > 0;
    let member_number = int_of(&doc, "MemberNumber");
    let last_login = int_of(&doc, "LastLogin");
    let creation = int_of(&doc, "Creation");
    let name = text_of(&doc, "Name");
    let email = text_of(&doc, "Email");
    let mut m = doc;
    merge_set_into_object(&mut m, set);
    put_back_text(&mut m, set, "AccountName", &Some(account_name));
    put_back_text(&mut m, set, "Password", &Some(password));
    put_back_int(&mut m, set, "MemberNumber", member_number);
    put_back_int(&mut m, set, "LastLogin", last_login);
    put_back_int(&mut m, set, "Creation", creation);
    put_back_text(&mut m, set, "Name", &name);
    put_back_text(&mut m, set, "Email", &email);
    let account_name = match text_of(&m, "AccountName") {
        Some(n) => n,
        None => return Err(MergeRefusal::NoAccountName),
    };
    let new_password = password_of(&m);
    if crate::text::char_count(new_password.as_str()) == 0 && had_password {
        return Err(MergeRefusal::EmptyPasswordOverwrite);
    }
    let cols = AccountColumns {
        account_name,
        email: text_of(&m, "Email"),
        password: new_password,
        member_number: int_of(&m, "MemberNumber"),
        name: text_of(&m, "Name"),
        last_login: int_of(&m, "LastLogin"),
        creation: int_of(&m, "Creation"),
    };
    Ok((m, cols))
}

} // verus!
