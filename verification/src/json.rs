//! JSON values of the `serde_json` crate, which the library carries as
//! opaque properties of graph nodes and edges and of agent tasks.
use vstd::prelude::*;

verus! {

#[verifier::external_type_specification]
#[verifier::external_body]
pub struct ExJsonValue(serde_json::Value);

/// `<serde_json::Value as Clone>::clone`: a deep copy, which is equal to
/// the value copied.
pub assume_specification[ <serde_json::Value as Clone>::clone ](v: &serde_json::Value) -> (r:
    serde_json::Value)
    ensures
        r == *v,
;

/// A JSON scalar that the library writes into property objects.
pub enum JsonScalar {
    Text(String),
    Count(u64),
}

/// No two entries share a key.
pub open spec fn entry_keys_distinct(entries: Seq<(String, JsonScalar)>) -> bool {
    forall|i: int, j: int| 0 <= i < j < entries.len() ==> entries[i].0@ != entries[j].0@
}

/// The text under `key` among the entries: that of the entry with the key
/// when it is a text; `None` when the entry is a count, or when no entry
/// has the key.
pub open spec fn entries_text(entries: Seq<(String, JsonScalar)>, key: Seq<char>) -> Option<Seq<char>>
    decreases entries.len(),
{
    if entries.len() == 0 {
        None
    } else if entries.last().0@ == key {
        match entries.last().1 {
            JsonScalar::Text(t) => Some(t@),
            JsonScalar::Count(_) => None,
        }
    } else {
        entries_text(entries.drop_last(), key)
    }
}

/// `serde_json::Value::Object` collected from `(key, scalar)` entries:
/// text as `serde_json::Value::String`, counts as JSON numbers made by
/// `serde_json::Value::from`. When no two entries share a key, each key's
/// member is its entry's value, so reading a member as text (see
/// [`json_text_member`]) gives the entry's text, `None` for a count, and
/// `None` for a key no entry has. Nothing is stated of numbers, nor of
/// which entry wins when keys repeat.
#[verifier::external_body]
pub fn json_object(entries: Vec<(String, JsonScalar)>) -> (r: serde_json::Value)
    ensures
        entry_keys_distinct(entries@) ==> forall|key: Seq<char>|
            #[trigger] json_text_member(r, key) == entries_text(entries@, key),
{
    serde_json::Value::Object(
        entries.into_iter().map(
            |(k, v)|
                match v {
                    JsonScalar::Text(t) => (k, serde_json::Value::String(t)),
                    JsonScalar::Count(n) => (k, serde_json::Value::from(n)),
                },
        ).collect(),
    )
}

/// What `serde_json::Value::get` with `key` followed by `as_str` gives:
/// the text of the member `key` when `v` is an object whose member `key`
/// is a string.
pub uninterp spec fn json_text_member(v: serde_json::Value, key: Seq<char>) -> Option<Seq<char>>;

/// Reads member `key` of `v` as text (see [`json_text_member`]).
#[verifier::external_body]
pub fn text_member(v: &serde_json::Value, key: &str) -> (r: Option<String>)
    ensures
        match r {
            Some(t) => json_text_member(*v, key@) == Some(t@),
            None => json_text_member(*v, key@) is None,
        },
{
    v.get(key).and_then(|x| x.as_str()).map(|t| t.to_string())
}

/// What `serde_json::Value::get` with `key` followed by `as_array` gives,
/// each element read with `as_str`: `None` unless member `key` is an
/// array; for each element its text when it is a string.
pub uninterp spec fn json_text_items(v: serde_json::Value, key: Seq<char>) -> Option<Seq<Option<Seq<char>>>>;

/// Reads member `key` of `v` as an array of texts (see
/// [`json_text_items`]).
#[verifier::external_body]
pub fn text_items(v: &serde_json::Value, key: &str) -> (r: Option<Vec<Option<String>>>)
    ensures
        r.deep_view() == json_text_items(*v, key@),
{
    v.get(key).and_then(|x| x.as_array()).map(
        |items| items.iter().map(|i| i.as_str().map(|t| t.to_string())).collect(),
    )
}

/// A JSON document as the library reads it: objects keep their members
/// in order, and a number is kept as the `u64` it equals, if any.
#[derive(Debug)]
pub enum JsonDoc {
    Null,
    Bool(bool),
    Number(Option<u64>),
    Text(String),
    Array(Vec<JsonDoc>),
    Object(Vec<(String, JsonDoc)>),
}

/// The value of the first member named `key` among `entries`.
pub open spec fn first_with_key(entries: Seq<(String, JsonDoc)>, key: Seq<char>) -> Option<JsonDoc>
    decreases entries.len(),
{
    if entries.len() == 0 {
        None
    } else if entries[0].0@ == key {
        Some(entries[0].1)
    } else {
        first_with_key(entries.drop_first(), key)
    }
}

/// Member `key` of a document, when it is an object that has one.
pub open spec fn doc_member(d: Option<JsonDoc>, key: Seq<char>) -> Option<JsonDoc> {
    match d {
        Some(JsonDoc::Object(entries)) => first_with_key(entries@, key),
        _ => None,
    }
}

/// Element `i` of a document, when it is an array that long.
pub open spec fn doc_item(d: Option<JsonDoc>, i: int) -> Option<JsonDoc> {
    match d {
        Some(JsonDoc::Array(items)) => if 0 <= i < items@.len() {
            Some(items@[i])
        } else {
            None
        },
        _ => None,
    }
}

/// The text of a document that is a string.
pub open spec fn doc_text(d: Option<JsonDoc>) -> Option<Seq<char>> {
    match d {
        Some(JsonDoc::Text(t)) => Some(t@),
        _ => None,
    }
}

/// The number a document holds, when it is a `u64`.
pub open spec fn doc_count(d: Option<JsonDoc>) -> Option<u64> {
    match d {
        Some(JsonDoc::Number(n)) => n,
        _ => None,
    }
}

/// Skipping members named otherwise than `key` does not change which
/// member named `key` comes first.
proof fn lemma_first_with_key_skip(entries: Seq<(String, JsonDoc)>, key: Seq<char>, i: int)
    requires
        0 <= i <= entries.len(),
        forall|j: int| 0 <= j < i ==> entries[j].0@ != key,
    ensures
        first_with_key(entries, key) == first_with_key(entries.skip(i), key),
    decreases i,
{
    if i > 0 {
        assert(entries.skip(1) =~= entries.drop_first());
        lemma_first_with_key_skip(entries.drop_first(), key, i - 1);
        assert(entries.drop_first().skip(i - 1) =~= entries.skip(i));
    } else {
        assert(entries.skip(0) =~= entries);
    }
}

/// A borrowed document, as the document itself.
pub open spec fn opt_doc(d: Option<&JsonDoc>) -> Option<JsonDoc> {
    match d {
        Some(x) => Some(*x),
        None => None,
    }
}

/// Member `key` of `d` (see [`doc_member`]).
pub fn member<'a>(d: Option<&'a JsonDoc>, key: &str) -> (r: Option<&'a JsonDoc>)
    ensures
        opt_doc(r) == doc_member(opt_doc(d), key@),
{
    let x = match d {
        Some(x) => x,
        None => {
            return None;
        },
    };
    match x {
        JsonDoc::Object(entries) => {
            assert(opt_doc(d) == Some(JsonDoc::Object(*entries)));
            let mut i: usize = 0;
            while i < entries.len()
                invariant
                    opt_doc(d) == Some(JsonDoc::Object(*entries)),
                    i <= entries@.len(),
                    forall|j: int| 0 <= j < i ==> entries@[j].0@ != key@,
                decreases entries@.len() - i,
            {
                if crate::text::str_eq(entries[i].0.as_str(), key) {
                    proof {
                        lemma_first_with_key_skip(entries@, key@, i as int);
                        assert(entries@.skip(i as int)[0] == entries@[i as int]);
                    }
                    return Some(&entries[i].1);
                }
                i = i + 1;
            }
            proof {
                lemma_first_with_key_skip(entries@, key@, i as int);
                assert(entries@.skip(i as int).len() == 0);
            }
            None
        },
        _ => None,
    }
}

} // verus!

verus! {

/// Element `i` of `d` (see [`doc_item`]).
pub fn item<'a>(d: Option<&'a JsonDoc>, i: usize) -> (r: Option<&'a JsonDoc>)
    ensures
        opt_doc(r) == doc_item(opt_doc(d), i as int),
{
    match d {
        Some(JsonDoc::Array(items)) => if i < items.len() {
            Some(&items[i])
        } else {
            None
        },
        _ => None,
    }
}

/// The text of `d` (see [`doc_text`]).
pub fn text_of(d: Option<&JsonDoc>) -> (r: Option<String>)
    ensures
        match r {
            Some(t) => doc_text(opt_doc(d)) == Some(t@),
            None => doc_text(opt_doc(d)) is None,
        },
{
    match d {
        Some(JsonDoc::Text(t)) => Some(t.clone()),
        _ => None,
    }
}

/// The `u64` that `d` holds (see [`doc_count`]).
pub fn count_of(d: Option<&JsonDoc>) -> (r: Option<u64>)
    ensures
        r == doc_count(opt_doc(d)),
{
    match d {
        Some(JsonDoc::Number(n)) => *n,
        _ => None,
    }
}

} // verus!
