//! Field updates with dotted paths (`ExtensionSettings.UndergroundPrison`)
//! applied to account documents.

use vstd::prelude::*;
use crate::json::{
    Json, JsonView, EntriesView, entries_get, entries_set, entries_insert, entries_lookup, entries_copy,
    object_entries, view_entries, lemma_view_entries, law_entries_get_set_same,
    law_entries_get_set_other,
};
use crate::lists::texts;
use crate::text::has_char;

verus! {

/// The non-empty segments of a path split at dots, the segment in progress
/// being `cur`.
pub open spec fn segments_from(s: Seq<char>, cur: Seq<char>) -> Seq<Seq<char>>
    decreases s.len(),
{
    if s.len() == 0 {
        if cur.len() > 0 {
            seq![cur]
        } else {
            Seq::empty()
        }
    } else if s[0] == '.' {
        let rest = segments_from(s.drop_first(), Seq::empty());
        if cur.len() > 0 {
            seq![cur] + rest
        } else {
            rest
        }
    } else {
        segments_from(s.drop_first(), cur.push(s[0]))
    }
}

/// The non-empty segments of a dotted path.
pub open spec fn path_segments(path: Seq<char>) -> Seq<Seq<char>> {
    segments_from(path, Seq::empty())
}

/// The entries after setting the value at the path `segs`: each segment
/// but the last names an object, created (or put in place of what is not an
/// object) where needed.
pub open spec fn set_path(e: EntriesView, segs: Seq<Seq<char>>, v: JsonView) -> EntriesView
    decreases segs.len(),
{
    if segs.len() == 0 {
        e
    } else if segs.len() == 1 {
        entries_set(e, segs[0], v)
    } else {
        let child = match entries_get(e, segs[0]) {
            Some(JsonView::Object(c)) => c,
            _ => Seq::empty(),
        };
        entries_set(e, segs[0], JsonView::Object(set_path(child, segs.drop_first(), v)))
    }
}

/// The value at the path `segs`, following objects.
pub open spec fn get_path(e: EntriesView, segs: Seq<Seq<char>>) -> Option<JsonView>
    decreases segs.len(),
{
    if segs.len() == 0 {
        None
    } else if segs.len() == 1 {
        entries_get(e, segs[0])
    } else {
        match entries_get(e, segs[0]) {
            Some(JsonView::Object(c)) => get_path(c, segs.drop_first()),
            _ => None,
        }
    }
}

/// The segments of a path, see [`path_segments`].
pub fn split_path(path: &str) -> (r: Vec<String>)
    ensures
        texts(r@) == path_segments(path@),
{
    let v = crate::text::chars_of(path);
    let ghost s = path@;
    let mut out: Vec<String> = Vec::new();
    let mut cur = String::new();
    let mut i: usize = 0;
    proof {
        assert(s.subrange(0, s.len() as int) =~= s);
        assert(texts(out@) =~= Seq::<Seq<char>>::empty());
        assert(texts(out@) + segments_from(s, cur@) =~= segments_from(s, cur@));
    }
    while i < v.len()
        invariant
            i <= v.len(),
            v@ == s,
            texts(out@) + segments_from(s.subrange(i as int, s.len() as int), cur@) == segments_from(s, Seq::empty()),
        decreases v.len() - i,
    {
        let ghost rest = s.subrange(i as int, s.len() as int);
        proof {
            assert(rest.drop_first() =~= s.subrange(i + 1, s.len() as int));
            assert(rest[0] == v@[i as int]);
        }
        if v[i] == '.' {
            if crate::text::char_count(cur.as_str()) > 0 {
                let ghost before = texts(out@);
                let ghost c = cur@;
                out.push(cur);
                proof {
                    assert(texts(out@) =~= before.push(c));
                    assert(before.push(c) + segments_from(s.subrange(i + 1, s.len() as int), Seq::empty()) =~= before + (seq![c] + segments_from(s.subrange(i + 1, s.len() as int), Seq::empty())));
                }
            }
            cur = String::new();
        } else {
            crate::text::push_char(&mut cur, v[i]);
        }
        i += 1;
    }
    proof {
        assert(s.subrange(s.len() as int, s.len() as int) =~= Seq::<char>::empty());
    }
    if crate::text::char_count(cur.as_str()) > 0 {
        let ghost before = texts(out@);
        let ghost c = cur@;
        out.push(cur);
        proof {
            assert(texts(out@) =~= before.push(c));
            assert(before.push(c) =~= before + seq![c]);
        }
    } else {
        proof {
            assert(texts(out@) =~= texts(out@) + Seq::<Seq<char>>::empty());
        }
    }
    out
}

/// Sets the value at the path `segs[k..]` in the entries.
fn set_path_from(e: &mut Vec<(String, Json)>, segs: &Vec<String>, k: usize, value: Json)
    requires
        k < segs.len(),
    ensures
        view_entries(final(e)@) == set_path(view_entries(old(e)@), texts(segs@).skip(k as int), value@),
    decreases segs.len() - k,
{
    let ghost ts = texts(segs@).skip(k as int);
    proof {
        assert(ts[0] == segs@[k as int]@);
        assert(ts.drop_first() =~= texts(segs@).skip(k + 1));
    }
    if k + 1 == segs.len() {
        entries_insert(e, segs[k].clone(), value);
        return;
    }
    let mut child = match entries_lookup(e, segs[k].as_str()) {
        Some(j) => entries_copy(j),
        None => {
            let c: Vec<(String, Json)> = Vec::new();
            proof {
                assert(view_entries(c@) =~= Seq::<(Seq<char>, JsonView)>::empty());
            }
            c
        },
    };
    set_path_from(&mut child, segs, k + 1, value);
    let ghost cv = view_entries(child@);
    entries_insert(e, segs[k].clone(), Json::Object(child));
}

/// Sets the value at a dotted path of an object's entries: `"Money"` sets
/// `Money`; `"ExtensionSettings.UndergroundPrison"` sets `UndergroundPrison`
/// inside the `ExtensionSettings` object, which is created (or put in place
/// of what is not an object) where needed. A path without segments changes
/// nothing.
pub fn apply_dotted_path(root: &mut Vec<(String, Json)>, path: &str, value: Json)
    ensures
        view_entries(final(root)@) == set_path(view_entries(old(root)@), path_segments(path@), value@),
{
    let segs = split_path(path);
    if segs.len() == 0 {
        return;
    }
    proof {
        assert(texts(segs@).skip(0) =~= texts(segs@));
    }
    set_path_from(root, &segs, 0, value);
}

/// One field of an update merged into a document: the identity and map
/// fields are skipped, a dotted key is a path, any other key is set.
pub open spec fn merge_field(root: EntriesView, k: Seq<char>, v: JsonView) -> EntriesView {
    if k == "_id"@ || k == "MapData"@ || k == "AccountName"@ {
        root
    } else if has_char(k, '.') {
        set_path(root, path_segments(k), v)
    } else {
        entries_set(root, k, v)
    }
}

/// The fields of an update merged into a document, in order.
pub open spec fn merge_set(root: EntriesView, set: EntriesView) -> EntriesView
    decreases set.len(),
{
    if set.len() == 0 {
        root
    } else {
        let last = set.last();
        merge_field(merge_set(root, set.drop_last()), last.0, last.1)
    }
}

/// Merges a set of field updates (dotted keys are paths) into a document's
/// entries; `_id`, `MapData` and `AccountName` are never taken over.
pub fn merge_set_into_object(root: &mut Vec<(String, Json)>, set: &Vec<(String, Json)>)
    ensures
        view_entries(final(root)@) == merge_set(view_entries(old(root)@), view_entries(set@)),
{
    let ghost r0 = view_entries(root@);
    let ghost sv = view_entries(set@);
    proof {
        lemma_view_entries(set@);
    }
    let mut i: usize = 0;
    while i < set.len()
        invariant
            i <= set.len(),
            sv == view_entries(set@),
            sv.len() == set.len(),
            forall|j: int| 0 <= j < set.len() ==> #[trigger] sv[j] == (set@[j].0@, set@[j].1@),
            view_entries(root@) == merge_set(r0, sv.take(i as int)),
        decreases set.len() - i,
    {
        proof {
            assert(sv.take(i + 1).drop_last() =~= sv.take(i as int));
            assert(sv.take(i + 1).last() == sv[i as int]);
        }
        let k = set[i].0.as_str();
        let skip = crate::text::str_eq(k, "_id") || crate::text::str_eq(k, "MapData") || crate::text::str_eq(
            k,
            "AccountName",
        );
        if !skip {
            if crate::text::contains_char(k, '.') {
                apply_dotted_path(root, k, set[i].1.deep_clone());
            } else {
                entries_insert(root, set[i].0.clone(), set[i].1.deep_clone());
            }
        }
        i += 1;
    }
    proof {
        assert(sv.take(set.len() as int) =~= sv);
    }
}

/// A read at a path after a write there gives what was written.
pub proof fn law_get_path_after_set_path(e: EntriesView, segs: Seq<Seq<char>>, v: JsonView)
    requires
        segs.len() > 0,
    ensures
        get_path(set_path(e, segs, v), segs) == Some(v),
    decreases segs.len(),
{
    if segs.len() == 1 {
        law_entries_get_set_same(e, segs[0], v);
    } else {
        let child = match entries_get(e, segs[0]) {
            Some(JsonView::Object(c)) => c,
            _ => Seq::empty(),
        };
        law_entries_get_set_same(e, segs[0], JsonView::Object(set_path(child, segs.drop_first(), v)));
        law_get_path_after_set_path(child, segs.drop_first(), v);
    }
}

/// A write at a path leaves every top-level field but the path's first
/// segment as it was.
pub proof fn law_set_path_keeps_other_fields(e: EntriesView, segs: Seq<Seq<char>>, v: JsonView, k: Seq<char>)
    requires
        segs.len() > 0,
        k != segs[0],
    ensures
        entries_get(set_path(e, segs, v), k) == entries_get(e, k),
{
    if segs.len() == 1 {
        law_entries_get_set_other(e, segs[0], v, k);
    } else {
        let child = match entries_get(e, segs[0]) {
            Some(JsonView::Object(c)) => c,
            _ => Seq::empty(),
        };
        law_entries_get_set_other(e, segs[0], JsonView::Object(set_path(child, segs.drop_first(), v)), k);
    }
}

/// A write at a path of two or more segments sets an object under the first
/// segment, so no field named by the whole dotted path appears where none was.
pub proof fn law_dotted_path_leaves_no_dotted_key(e: EntriesView, path: Seq<char>, v: JsonView)
    requires
        path_segments(path).len() > 1,
        entries_get(e, path) is None,
        path != path_segments(path)[0],
    ensures
        entries_get(set_path(e, path_segments(path), v), path) is None,
{
    law_set_path_keeps_other_fields(e, path_segments(path), v, path);
}

} // verus!
