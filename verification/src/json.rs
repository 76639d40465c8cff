//! A JSON document model for account records and wire payloads.
//!
//! Objects are association lists whose value for a key is the one of the
//! first entry holding that key; the documents the server reads carry each
//! key at most once, and every update here keeps it that way.

use vstd::prelude::*;

verus! {

/// A float as the account documents may carry it: its IEEE-754 bits and the
/// three integer readings the server makes of it (`floor`, truncation and
/// rounding, each saturated to the `i64` range as Rust's `as` casts do).
#[derive(Clone, Copy, PartialEq, Eq, Structural, Debug)]
pub struct FloatNumber {
    pub bits: u64,
    pub floor: i64,
    pub trunc: i64,
    pub round: i64,
}

/// A JSON number: an integer in the `i64` range, a larger unsigned integer,
/// or any other number.
#[derive(Clone, Copy, PartialEq, Eq, Structural, Debug)]
pub enum JsonNumber {
    Int(i64),
    Big(u64),
    Float(FloatNumber),
}

#[derive(Debug, PartialEq)]
pub enum Json {
    Null,
    Bool(bool),
    Number(JsonNumber),
    Str(String),
    Array(Vec<Json>),
    Object(Vec<(String, Json)>),
}

/// The mathematical value of a [`Json`] document.
#[verifier::ext_equal]
pub enum JsonView {
    Null,
    Bool(bool),
    Number(JsonNumber),
    Str(Seq<char>),
    Array(Seq<JsonView>),
    Object(Seq<(Seq<char>, JsonView)>),
}

pub open spec fn view_items(items: Seq<Json>) -> Seq<JsonView>
    decreases items, 0int,
{
    if items.len() == 0 {
        Seq::empty()
    } else {
        view_items(items.subrange(0, items.len() - 1)).push(json_view(items[items.len() - 1]))
    }
}

pub open spec fn view_entries(entries: Seq<(String, Json)>) -> Seq<(Seq<char>, JsonView)>
    decreases entries, 0int,
{
    if entries.len() == 0 {
        Seq::empty()
    } else {
        let last = entries[entries.len() - 1];
        view_entries(entries.subrange(0, entries.len() - 1)).push((last.0@, json_view(last.1)))
    }
}

pub open spec fn json_view(j: Json) -> JsonView
    decreases j, 1int,
{
    match j {
        Json::Null => JsonView::Null,
        Json::Bool(b) => JsonView::Bool(b),
        Json::Number(n) => JsonView::Number(n),
        Json::Str(s) => JsonView::Str(s@),
        Json::Array(v) => JsonView::Array(view_items(v@)),
        Json::Object(v) => JsonView::Object(view_entries(v@)),
    }
}

pub proof fn lemma_view_items(items: Seq<Json>)
    ensures
        view_items(items).len() == items.len(),
        forall|i: int| 0 <= i < items.len() ==> #[trigger] view_items(items)[i] == json_view(items[i]),
    decreases items.len(),
{
    if items.len() > 0 {
        lemma_view_items(items.subrange(0, items.len() - 1));
    }
}

pub proof fn lemma_view_items_push(items: Seq<Json>, x: Json)
    ensures
        view_items(items.push(x)) == view_items(items).push(json_view(x)),
{
    assert(items.push(x).subrange(0, items.len() as int) =~= items);
}

pub proof fn lemma_view_entries(entries: Seq<(String, Json)>)
    ensures
        view_entries(entries).len() == entries.len(),
        forall|i: int|
            0 <= i < entries.len() ==> #[trigger] view_entries(entries)[i] == (
                entries[i].0@,
                json_view(entries[i].1),
            ),
    decreases entries.len(),
{
    if entries.len() > 0 {
        lemma_view_entries(entries.subrange(0, entries.len() - 1));
    }
}

impl View for Json {
    type V = JsonView;

    open spec fn view(&self) -> JsonView {
        json_view(*self)
    }
}

// ---------------------------------------------------------------------------
// Object entries
// ---------------------------------------------------------------------------

/// The entries of an object document, by key and value.
pub type EntriesView = Seq<(Seq<char>, JsonView)>;

/// Index of the first entry whose key is `k`, or -1.
pub open spec fn first_index(e: EntriesView, k: Seq<char>) -> int
    decreases e.len(),
{
    if e.len() == 0 {
        -1
    } else if e[0].0 == k {
        0
    } else {
        let r = first_index(e.drop_first(), k);
        if r < 0 {
            -1
        } else {
            r + 1
        }
    }
}

pub proof fn lemma_first_index(e: EntriesView, k: Seq<char>)
    ensures
        -1 <= first_index(e, k) < e.len(),
        first_index(e, k) >= 0 ==> e[first_index(e, k)].0 == k,
        forall|j: int| 0 <= j < first_index(e, k) ==> #[trigger] e[j].0 != k,
        first_index(e, k) < 0 ==> forall|j: int| 0 <= j < e.len() ==> #[trigger] e[j].0 != k,
    decreases e.len(),
{
    if e.len() > 0 {
        lemma_first_index(e.drop_first(), k);
        if e[0].0 != k {
            assert forall|j: int| 0 < j < e.len() implies e[j] == e.drop_first()[j - 1] by {}
        }
    }
}

/// The index found by a scan: `i` holds key `k` and no earlier entry does.
pub proof fn lemma_first_index_at(e: EntriesView, k: Seq<char>, i: int)
    requires
        0 <= i < e.len(),
        e[i].0 == k,
        forall|j: int| 0 <= j < i ==> #[trigger] e[j].0 != k,
    ensures
        first_index(e, k) == i,
{
    lemma_first_index(e, k);
    if first_index(e, k) < 0 {
        assert(e[i].0 != k);
    }
}

/// No entry holds key `k`.
pub proof fn lemma_first_index_none(e: EntriesView, k: Seq<char>)
    requires
        forall|j: int| 0 <= j < e.len() ==> #[trigger] e[j].0 != k,
    ensures
        first_index(e, k) == -1,
{
    lemma_first_index(e, k);
    if first_index(e, k) >= 0 {
        assert(e[first_index(e, k)].0 != k);
    }
}

/// The value of key `k`: that of its first entry.
pub open spec fn entries_get(e: EntriesView, k: Seq<char>) -> Option<JsonView> {
    let i = first_index(e, k);
    if i >= 0 {
        Some(e[i].1)
    } else {
        None
    }
}

/// The entries after setting key `k` to `v`: the first entry holding `k` gets
/// the new value, or a new entry is appended.
pub open spec fn entries_set(e: EntriesView, k: Seq<char>, v: JsonView) -> EntriesView {
    let i = first_index(e, k);
    if i >= 0 {
        e.update(i, (k, v))
    } else {
        e.push((k, v))
    }
}

/// The entries after removing the first entry holding key `k`.
pub open spec fn entries_remove(e: EntriesView, k: Seq<char>) -> EntriesView {
    let i = first_index(e, k);
    if i >= 0 {
        e.remove(i)
    } else {
        e
    }
}

/// A read of key `k` after it was set gives what was set.
pub proof fn law_entries_get_set_same(e: EntriesView, k: Seq<char>, v: JsonView)
    ensures
        entries_get(entries_set(e, k, v), k) == Some(v),
{
    lemma_first_index(e, k);
    let i = first_index(e, k);
    let e2 = entries_set(e, k, v);
    if i >= 0 {
        assert forall|j: int| 0 <= j < i implies #[trigger] e2[j].0 != k by {
            assert(e2[j] == e[j]);
        }
        lemma_first_index_at(e2, k, i);
    } else {
        assert forall|j: int| 0 <= j < e.len() implies #[trigger] e2[j].0 != k by {
            assert(e2[j] == e[j]);
        }
        lemma_first_index_at(e2, k, e.len() as int);
    }
}

/// Setting key `k` leaves the value of every other key as it was.
pub proof fn law_entries_get_set_other(e: EntriesView, k: Seq<char>, v: JsonView, k2: Seq<char>)
    requires
        k2 != k,
    ensures
        entries_get(entries_set(e, k, v), k2) == entries_get(e, k2),
{
    lemma_first_index(e, k);
    lemma_first_index(e, k2);
    let e2 = entries_set(e, k, v);
    let i2 = first_index(e, k2);
    assert forall|j: int| 0 <= j < e2.len() && e2[j].0 == k2 implies j < e.len() && e2[j] == e[j] by {
        if j == first_index(e, k) {
            assert(e2[j].0 == k);
        }
        if j == e.len() {
            assert(e2[j].0 == k);
        }
    }
    if i2 >= 0 {
        assert forall|j: int| 0 <= j < i2 implies #[trigger] e2[j].0 != k2 by {
            if e2[j].0 == k2 {
                assert(e2[j] == e[j]);
            }
        }
        assert(e2[i2] == e[i2]);
        lemma_first_index_at(e2, k2, i2);
    } else {
        assert forall|j: int| 0 <= j < e2.len() implies #[trigger] e2[j].0 != k2 by {
            if e2[j].0 == k2 {
                assert(e2[j] == e[j]);
            }
        }
        lemma_first_index_none(e2, k2);
    }
}

impl JsonView {
    pub open spec fn get(self, k: Seq<char>) -> Option<JsonView> {
        match self {
            JsonView::Object(e) => entries_get(e, k),
            _ => None,
        }
    }

    pub open spec fn as_i64(self) -> Option<i64> {
        match self {
            JsonView::Number(JsonNumber::Int(n)) => Some(n),
            _ => None,
        }
    }

    pub open spec fn as_str(self) -> Option<Seq<char>> {
        match self {
            JsonView::Str(s) => Some(s),
            _ => None,
        }
    }

    pub open spec fn as_bool(self) -> Option<bool> {
        match self {
            JsonView::Bool(b) => Some(b),
            _ => None,
        }
    }

    /// `value.get(k).and_then(as_i64)`.
    pub open spec fn get_i64(self, k: Seq<char>) -> Option<i64> {
        match self.get(k) {
            Some(v) => v.as_i64(),
            None => None,
        }
    }

    /// `value.get(k).and_then(as_str)`.
    pub open spec fn get_str(self, k: Seq<char>) -> Option<Seq<char>> {
        match self.get(k) {
            Some(v) => v.as_str(),
            None => None,
        }
    }

    /// `value.get(k).and_then(as_bool)`.
    pub open spec fn get_bool(self, k: Seq<char>) -> Option<bool> {
        match self.get(k) {
            Some(v) => v.as_bool(),
            None => None,
        }
    }
}

/// The integer reading `floor(as_f64)` of a number, saturated to `i64`.
pub open spec fn number_floor(n: JsonNumber) -> i64 {
    match n {
        JsonNumber::Int(i) => i,
        JsonNumber::Big(_) => i64::MAX,
        JsonNumber::Float(f) => f.floor,
    }
}

/// The integer reading `as_f64() as i64` of a number (truncation, saturated).
pub open spec fn number_trunc(n: JsonNumber) -> i64 {
    match n {
        JsonNumber::Int(i) => i,
        JsonNumber::Big(_) => i64::MAX,
        JsonNumber::Float(f) => f.trunc,
    }
}

/// The integer reading `as_f64().round() as i64` of a number (saturated).
pub open spec fn number_round(n: JsonNumber) -> i64 {
    match n {
        JsonNumber::Int(i) => i,
        JsonNumber::Big(_) => i64::MAX,
        JsonNumber::Float(f) => f.round,
    }
}

pub proof fn lemma_view_entries_update(e: Seq<(String, Json)>, i: int, x: (String, Json))
    requires
        0 <= i < e.len(),
    ensures
        view_entries(e.update(i, x)) == view_entries(e).update(i, (x.0@, json_view(x.1))),
{
    lemma_view_entries(e);
    lemma_view_entries(e.update(i, x));
    assert(view_entries(e.update(i, x)) =~= view_entries(e).update(i, (x.0@, json_view(x.1))));
}

pub proof fn lemma_view_entries_push(e: Seq<(String, Json)>, x: (String, Json))
    ensures
        view_entries(e.push(x)) == view_entries(e).push((x.0@, json_view(x.1))),
{
    lemma_view_entries(e);
    lemma_view_entries(e.push(x));
    assert(view_entries(e.push(x)) =~= view_entries(e).push((x.0@, json_view(x.1))));
}

pub proof fn lemma_view_entries_remove(e: Seq<(String, Json)>, i: int)
    requires
        0 <= i < e.len(),
    ensures
        view_entries(e.remove(i)) == view_entries(e).remove(i),
{
    lemma_view_entries(e);
    lemma_view_entries(e.remove(i));
    assert(view_entries(e.remove(i)) =~= view_entries(e).remove(i));
}

/// Position of the first entry holding `key`.
pub fn entries_position(e: &Vec<(String, Json)>, key: &str) -> (r: Option<usize>)
    ensures
        match r {
            Some(i) => i == first_index(view_entries(e@), key@) && i < e.len(),
            None => first_index(view_entries(e@), key@) == -1,
        },
{
    proof {
        lemma_view_entries(e@);
    }
    let mut i: usize = 0;
    while i < e.len()
        invariant
            i <= e.len(),
            view_entries(e@).len() == e@.len(),
            forall|j: int| 0 <= j < e@.len() ==> #[trigger] view_entries(e@)[j].0 == e@[j].0@,
            forall|j: int| 0 <= j < i ==> #[trigger] view_entries(e@)[j].0 != key@,
        decreases e.len() - i,
    {
        if crate::text::str_eq(e[i].0.as_str(), key) {
            proof {
                lemma_first_index_at(view_entries(e@), key@, i as int);
            }
            return Some(i);
        }
        i += 1;
    }
    proof {
        lemma_first_index_none(view_entries(e@), key@);
    }
    None
}

/// Looks up the value of `key` among object entries.
pub fn entries_lookup<'a>(e: &'a Vec<(String, Json)>, key: &str) -> (r: Option<&'a Json>)
    ensures
        match r {
            Some(v) => entries_get(view_entries(e@), key@) == Some(v@),
            None => entries_get(view_entries(e@), key@) is None,
        },
{
    proof {
        lemma_view_entries(e@);
    }
    match entries_position(e, key) {
        Some(i) => Some(&e[i].1),
        None => None,
    }
}

/// Sets `key` to `value`: replaces the value of the first entry holding the
/// key, or appends an entry.
pub fn entries_insert(e: &mut Vec<(String, Json)>, key: String, value: Json)
    ensures
        view_entries(final(e)@) == entries_set(view_entries(old(e)@), key@, value@),
{
    proof {
        lemma_view_entries(e@);
    }
    match entries_position(e, key.as_str()) {
        Some(i) => {
            proof {
                lemma_view_entries_update(e@, i as int, (key, value));
            }
            e.set(i, (key, value));
        },
        None => {
            proof {
                lemma_view_entries_push(e@, (key, value));
            }
            e.push((key, value));
        },
    }
}

/// Removes the first entry holding `key` and returns its value.
pub fn entries_take(e: &mut Vec<(String, Json)>, key: &str) -> (r: Option<Json>)
    ensures
        view_entries(final(e)@) == entries_remove(view_entries(old(e)@), key@),
        match r {
            Some(v) => entries_get(view_entries(old(e)@), key@) == Some(v@),
            None => entries_get(view_entries(old(e)@), key@) is None,
        },
{
    proof {
        lemma_view_entries(e@);
    }
    match entries_position(e, key) {
        Some(i) => {
            proof {
                lemma_view_entries_remove(e@, i as int);
            }
            Some(e.remove(i).1)
        },
        None => None,
    }
}

impl Json {
    /// `Value::get` with a string key.
    pub fn get(&self, key: &str) -> (r: Option<&Json>)
        ensures
            match r {
                Some(v) => self@.get(key@) == Some(v@),
                None => self@.get(key@) is None,
            },
    {
        match self {
            Json::Object(e) => entries_lookup(e, key),
            _ => None,
        }
    }

    pub fn as_i64(&self) -> (r: Option<i64>)
        ensures
            r == self@.as_i64(),
    {
        match self {
            Json::Number(JsonNumber::Int(n)) => Some(*n),
            _ => None,
        }
    }

    pub fn as_str(&self) -> (r: Option<&str>)
        ensures
            match r {
                Some(s) => self@.as_str() == Some(s@),
                None => self@.as_str() is None,
            },
    {
        match self {
            Json::Str(s) => Some(s.as_str()),
            _ => None,
        }
    }

    pub fn as_bool(&self) -> (r: Option<bool>)
        ensures
            r == self@.as_bool(),
    {
        match self {
            Json::Bool(b) => Some(*b),
            _ => None,
        }
    }

    pub fn as_array(&self) -> (r: Option<&Vec<Json>>)
        ensures
            match r {
                Some(v) => self@ == JsonView::Array(view_items(v@)),
                None => !(self@ is Array),
            },
    {
        match self {
            Json::Array(v) => Some(v),
            _ => None,
        }
    }

    pub fn as_object(&self) -> (r: Option<&Vec<(String, Json)>>)
        ensures
            match r {
                Some(v) => self@ == JsonView::Object(view_entries(v@)),
                None => !(self@ is Object),
            },
    {
        match self {
            Json::Object(v) => Some(v),
            _ => None,
        }
    }

    pub fn is_object(&self) -> (r: bool)
        ensures
            r == (self@ is Object),
    {
        match self {
            Json::Object(_) => true,
            _ => false,
        }
    }

    pub fn is_array(&self) -> (r: bool)
        ensures
            r == (self@ is Array),
    {
        match self {
            Json::Array(_) => true,
            _ => false,
        }
    }

    pub fn is_string(&self) -> (r: bool)
        ensures
            r == (self@ is Str),
    {
        match self {
            Json::Str(_) => true,
            _ => false,
        }
    }

    pub fn is_boolean(&self) -> (r: bool)
        ensures
            r == (self@ is Bool),
    {
        match self {
            Json::Bool(_) => true,
            _ => false,
        }
    }

    pub fn is_null(&self) -> (r: bool)
        ensures
            r == (self@ is Null),
    {
        match self {
            Json::Null => true,
            _ => false,
        }
    }

    /// `Value::is_i64`.
    pub fn is_i64(&self) -> (r: bool)
        ensures
            r == (self@.as_i64() is Some),
    {
        match self {
            Json::Number(JsonNumber::Int(_)) => true,
            _ => false,
        }
    }

    pub fn get_i64(&self, key: &str) -> (r: Option<i64>)
        ensures
            r == self@.get_i64(key@),
    {
        match self.get(key) {
            Some(v) => v.as_i64(),
            None => None,
        }
    }

    pub fn get_str(&self, key: &str) -> (r: Option<&str>)
        ensures
            match r {
                Some(s) => self@.get_str(key@) == Some(s@),
                None => self@.get_str(key@) is None,
            },
    {
        match self.get(key) {
            Some(v) => v.as_str(),
            None => None,
        }
    }

    pub fn get_bool(&self, key: &str) -> (r: Option<bool>)
        ensures
            r == self@.get_bool(key@),
    {
        match self.get(key) {
            Some(v) => v.as_bool(),
            None => None,
        }
    }

    /// A copy of the document.
    #[verifier::loop_isolation(false)]
    pub fn deep_clone(&self) -> (r: Json)
        ensures
            r@ == self@,
        decreases self,
    {
        match self {
            Json::Null => Json::Null,
            Json::Bool(b) => Json::Bool(*b),
            Json::Number(n) => Json::Number(*n),
            Json::Str(s) => Json::Str(s.clone()),
            Json::Array(v) => {
                let mut out: Vec<Json> = Vec::new();
                let mut i: usize = 0;
                while i < v.len()
                    invariant
                        i <= v.len(),
                        out.len() == i,
                        forall|j: int| 0 <= j < i ==> json_view(#[trigger] out@[j]) == json_view(v@[j]),
                    decreases v.len() - i,
                {
                    proof {
                        assert(decreases_to!(*v => v[i as int]));
                    }
                    out.push(v[i].deep_clone());
                    i += 1;
                }
                let ghost ov = out@;
                let r = Json::Array(out);
                proof {
                    lemma_view_items(ov);
                    lemma_view_items(v@);
                    assert(view_items(ov) =~= view_items(v@));
                }
                r
            },
            Json::Object(v) => {
                let mut out: Vec<(String, Json)> = Vec::new();
                let mut i: usize = 0;
                while i < v.len()
                    invariant
                        i <= v.len(),
                        out.len() == i,
                        forall|j: int|
                            0 <= j < i ==> #[trigger] out@[j].0@ == v@[j].0@ && json_view(out@[j].1)
                                == json_view(v@[j].1),
                    decreases v.len() - i,
                {
                    let entry = &v[i];
                    proof {
                        assert(decreases_to!(*v => v[i as int]));
                        assert(decreases_to!(v[i as int] => v[i as int].1));
                    }
                    let k = entry.0.clone();
                    out.push((k, entry.1.deep_clone()));
                    i += 1;
                }
                proof {
                    lemma_view_entries(out@);
                    lemma_view_entries(v@);
                    assert(view_entries(out@) =~= view_entries(v@));
                }
                Json::Object(out)
            },
        }
    }
}


/// The entries of an object document; none for any other document.
pub open spec fn object_entries(j: JsonView) -> EntriesView {
    match j {
        JsonView::Object(e) => e,
        _ => Seq::empty(),
    }
}

/// The items of an array document; none for any other document.
pub open spec fn array_items(j: JsonView) -> Seq<JsonView> {
    match j {
        JsonView::Array(a) => a,
        _ => Seq::empty(),
    }
}

/// The value of an optional document reference.
pub open spec fn opt_view(o: Option<&Json>) -> Option<JsonView> {
    match o {
        Some(v) => Some(v@),
        None => None,
    }
}

/// A copy of a list of documents.
pub fn clone_items(v: &Vec<Json>) -> (r: Vec<Json>)
    ensures
        view_items(r@) == view_items(v@),
{
    let mut out: Vec<Json> = Vec::new();
    let mut i: usize = 0;
    while i < v.len()
        invariant
            i <= v.len(),
            out.len() == i,
            forall|j: int| 0 <= j < i ==> json_view(#[trigger] out@[j]) == json_view(v@[j]),
        decreases v.len() - i,
    {
        out.push(v[i].deep_clone());
        i += 1;
    }
    proof {
        lemma_view_items(out@);
        lemma_view_items(v@);
        assert(view_items(out@) =~= view_items(v@));
    }
    out
}

/// The entries of a copy of an object document, or none for another document.
pub fn entries_copy(obj: &Json) -> (r: Vec<(String, Json)>)
    ensures
        view_entries(r@) == object_entries(obj@),
{
    let c = obj.deep_clone();
    match c {
        Json::Object(e) => e,
        _ => {
            let r: Vec<(String, Json)> = Vec::new();
            assert(view_entries(r@) =~= Seq::<(Seq<char>, JsonView)>::empty());
            r
        },
    }
}

/// The items of a copy of an array document, or none for another document.
pub fn items_copy(arr: &Json) -> (r: Vec<Json>)
    ensures
        view_items(r@) == array_items(arr@),
{
    let c = arr.deep_clone();
    match c {
        Json::Array(v) => v,
        _ => {
            let r: Vec<Json> = Vec::new();
            assert(view_items(r@) =~= Seq::<JsonView>::empty());
            r
        },
    }
}

/// A copy of `obj` (taken as an empty object when it is no object) with
/// `key` set to `value`, as `obj[key] = value` does on an object.
pub fn with_entry(obj: &Json, key: &str, value: Json) -> (r: Json)
    ensures
        r@ == JsonView::Object(entries_set(object_entries(obj@), key@, value@)),
{
    let mut e = entries_copy(obj);
    entries_insert(&mut e, crate::text::to_owned_string(key), value);
    Json::Object(e)
}

/// A copy of the array `arr` with item `i` replaced by `value`.
pub fn with_item(arr: &Json, i: usize, value: Json) -> (r: Json)
    requires
        i < array_items(arr@).len(),
    ensures
        r@ == JsonView::Array(array_items(arr@).update(i as int, value@)),
{
    let mut v = items_copy(arr);
    proof {
        lemma_view_items(v@);
    }
    let ghost vv = value@;
    v.set(i, value);
    proof {
        lemma_view_items(v@);
        assert(view_items(v@) =~= array_items(arr@).update(i as int, vv));
    }
    Json::Array(v)
}

/// A copy of the array `arr` without item `i`.
pub fn without_item(arr: &Json, i: usize) -> (r: Json)
    requires
        i < array_items(arr@).len(),
    ensures
        r@ == JsonView::Array(array_items(arr@).remove(i as int)),
{
    let mut v = items_copy(arr);
    proof {
        lemma_view_items(v@);
    }
    let ghost old_v = v@;
    v.remove(i);
    proof {
        lemma_view_items(v@);
        assert(view_items(v@) =~= array_items(arr@).remove(i as int));
    }
    Json::Array(v)
}

/// A text document.
pub fn str_value(s: &str) -> (r: Json)
    ensures
        r@ == JsonView::Str(s@),
{
    Json::Str(crate::text::to_owned_string(s))
}

/// An integer document.
pub fn int_value(n: i64) -> (r: Json)
    ensures
        r@ == JsonView::Number(JsonNumber::Int(n)),
{
    Json::Number(JsonNumber::Int(n))
}

} // verus!
