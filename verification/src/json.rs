use vstd::prelude::*;

use crate::assoc::{
    find_string_key, insert_entry, insert_string_key, is_first_key_at, key_index, lemma_key_index_at,
    lookup,
};

verus! {

/// A JSON document as the library reads and builds it. Numbers are kept as
/// the text they are written with; an object keeps its fields in order.
pub enum JsonValue {
    Null,
    Bool(bool),
    Number(String),
    Str(String),
    Array(Vec<JsonValue>),
    Object(Vec<(String, JsonValue)>),
}

/// The mathematical value of a JSON document.
pub enum JsonView {
    Null,
    Bool(bool),
    Number(Seq<char>),
    Str(Seq<char>),
    Array(Seq<JsonView>),
    Object(Seq<(Seq<char>, JsonView)>),
}

impl JsonValue {
    /// The mathematical value of this document.
    pub open spec fn deep(&self) -> JsonView
        decreases self,
    {
        match self {
            JsonValue::Null => JsonView::Null,
            JsonValue::Bool(b) => JsonView::Bool(*b),
            JsonValue::Number(n) => JsonView::Number(n@),
            JsonValue::Str(s) => JsonView::Str(s@),
            JsonValue::Array(items) => JsonView::Array(
                Self::deep_items(items@, items@.len() as int),
            ),
            JsonValue::Object(entries) => JsonView::Object(
                Self::deep_entries(entries@, entries@.len() as int),
            ),
        }
    }

    /// The values of the first `n` items.
    pub open spec fn deep_items(items: Seq<JsonValue>, n: int) -> Seq<JsonView>
        decreases items, n,
    {
        if n <= 0 || n > items.len() {
            Seq::empty()
        } else {
            Self::deep_items(items, n - 1).push(items[n - 1].deep())
        }
    }

    /// The keys and values of the first `n` fields.
    pub open spec fn deep_entries(entries: Seq<(String, JsonValue)>, n: int) -> Seq<
        (Seq<char>, JsonView),
    >
        decreases entries, n,
    {
        if n <= 0 || n > entries.len() {
            Seq::empty()
        } else {
            Self::deep_entries(entries, n - 1).push((entries[n - 1].0@, entries[n - 1].1.deep()))
        }
    }
}

} // verus!

verus! {

/// The entries of a JSON object; nothing for any other value.
pub open spec fn object_entries(v: JsonValue) -> Seq<(String, JsonValue)> {
    match v {
        JsonValue::Object(entries) => entries@,
        _ => Seq::empty(),
    }
}

/// What serde_json's `Value::get` with a string key finds: the value stored
/// under `key` in an object, nothing in any other value.
pub open spec fn json_get(v: JsonValue, key: Seq<char>) -> Option<JsonValue> {
    match v {
        JsonValue::Object(entries) => lookup(entries@, key),
        _ => None,
    }
}

/// The text of a JSON string, nothing for any other value.
pub open spec fn json_str(v: JsonValue) -> Option<Seq<char>> {
    match v {
        JsonValue::Str(s) => Some(s@),
        _ => None,
    }
}

/// The text found at `v[key]`, if that is a JSON string.
pub open spec fn json_str_field(v: JsonValue, key: Seq<char>) -> Option<Seq<char>> {
    match json_get(v, key) {
        Some(f) => json_str(f),
        None => None,
    }
}

impl View for JsonValue {
    type V = JsonView;

    open spec fn view(&self) -> JsonView {
        self.deep()
    }
}

/// Entries whose keys read alike and whose values are alike have alike views.
proof fn lemma_deep_entries_alike(a: Seq<(String, JsonValue)>, b: Seq<(String, JsonValue)>, n: int)
    requires
        0 <= n <= a.len(),
        n <= b.len(),
        forall|j: int| 0 <= j < n ==> a[j].0@ == b[j].0@ && a[j].1.deep() == b[j].1.deep(),
    ensures
        JsonValue::deep_entries(a, n) == JsonValue::deep_entries(b, n),
    decreases n,
{
    if n > 0 {
        lemma_deep_entries_alike(a, b, n - 1);
    }
}

/// Items whose values are alike have alike views.
proof fn lemma_deep_items_alike(a: Seq<JsonValue>, b: Seq<JsonValue>, n: int)
    requires
        0 <= n <= a.len(),
        n <= b.len(),
        forall|j: int| 0 <= j < n ==> a[j].deep() == b[j].deep(),
    ensures
        JsonValue::deep_items(a, n) == JsonValue::deep_items(b, n),
    decreases n,
{
    if n > 0 {
        lemma_deep_items_alike(a, b, n - 1);
    }
}

impl JsonValue {
    /// A copy of this value, alike in every part.
    pub fn deep_clone(&self) -> (r: JsonValue)
        ensures
            r@ == self@,
        decreases self,
    {
        match self {
            JsonValue::Null => JsonValue::Null,
            JsonValue::Bool(b) => JsonValue::Bool(*b),
            JsonValue::Number(n) => JsonValue::Number(n.clone()),
            JsonValue::Str(s) => JsonValue::Str(s.clone()),
            JsonValue::Array(items) => {
                let mut out: Vec<JsonValue> = Vec::new();
                let n = items.len();
                let mut i: usize = 0;
                while i < n
                    invariant
                        n == items@.len(),
                        i <= n,
                        out@.len() == i,
                        *self == JsonValue::Array(*items),
                        forall|j: int| 0 <= j < i ==> out@[j].deep() == items@[j].deep(),
                    decreases n - i,
                {
                    proof {
                        assert(decreases_to!(*self => (*self)->Array_0));
                        assert(decreases_to!(*items => items@[i as int]));
                    }
                    let c = items[i].deep_clone();
                    out.push(c);
                    i = i + 1;
                }
                proof {
                    lemma_deep_items_alike(out@, items@, n as int);
                }
                JsonValue::Array(out)
            },
            JsonValue::Object(entries) => {
                let mut out: Vec<(String, JsonValue)> = Vec::new();
                let n = entries.len();
                let mut i: usize = 0;
                while i < n
                    invariant
                        n == entries@.len(),
                        i <= n,
                        out@.len() == i,
                        *self == JsonValue::Object(*entries),
                        forall|j: int|
                            0 <= j < i ==> out@[j].0@ == entries@[j].0@ && out@[j].1.deep()
                                == entries@[j].1.deep(),
                    decreases n - i,
                {
                    proof {
                        assert(decreases_to!(*self => (*self)->Object_0));
                        assert(decreases_to!(*entries => entries@[i as int]));
                        assert(decreases_to!(entries@[i as int] => entries@[i as int].1));
                    }
                    let k = entries[i].0.clone();
                    let v = entries[i].1.deep_clone();
                    out.push((k, v));
                    i = i + 1;
                }
                proof {
                    lemma_deep_entries_alike(out@, entries@, n as int);
                }
                JsonValue::Object(out)
            },
        }
    }

    /// serde_json's `Value::get` with a string key.
    pub fn get(&self, key: &str) -> (r: Option<&JsonValue>)
        ensures
            match r {
                Some(f) => json_get(*self, key@) == Some(*f),
                None => json_get(*self, key@) is None,
            },
    {
        match self {
            JsonValue::Object(entries) => match find_string_key(entries, key) {
                Some(i) => Some(&entries[i].1),
                None => None,
            },
            _ => None,
        }
    }

    /// serde_json's `Value::as_str`: the text of a JSON string.
    pub fn as_str(&self) -> (r: Option<&str>)
        ensures
            match r {
                Some(s) => json_str(*self) == Some(s@),
                None => json_str(*self) is None,
            },
    {
        match self {
            JsonValue::Str(s) => Some(s.as_str()),
            _ => None,
        }
    }

    /// Stores `value` under `key` in this object, as serde_json's
    /// `Map::insert` does.
    pub fn insert(&mut self, key: String, value: JsonValue)
        requires
            *old(self) is Object,
        ensures
            *final(self) is Object,
            object_entries(*final(self)) == insert_entry(object_entries(*old(self)), key, value),
    {
        match self {
            JsonValue::Object(entries) => {
                insert_string_key(entries, key, value);
            },
            _ => {},
        }
    }
}

} // verus!

verus! {

/// The view of an object's entries has one entry per entry.
proof fn lemma_deep_entries_len(e: Seq<(String, JsonValue)>, n: int)
    requires
        0 <= n <= e.len(),
    ensures
        JsonValue::deep_entries(e, n).len() == n,
    decreases n,
{
    if n > 0 {
        lemma_deep_entries_len(e, n - 1);
    }
}

/// Each entry of an object's view is the view of that entry.
proof fn lemma_deep_entries_index(e: Seq<(String, JsonValue)>, n: int, i: int)
    requires
        0 <= i < n <= e.len(),
    ensures
        JsonValue::deep_entries(e, n)[i] == (e[i].0@, e[i].1.deep()),
    decreases n,
{
    lemma_deep_entries_len(e, n - 1);
    if i < n - 1 {
        lemma_deep_entries_index(e, n - 1, i);
    }
}

/// Two values with the same view have the same fields, with the same views.
pub proof fn lemma_json_get_alike(a: JsonValue, b: JsonValue, key: Seq<char>)
    requires
        a@ == b@,
    ensures
        json_get(a, key) is Some <==> json_get(b, key) is Some,
        json_get(a, key) matches Some(x) ==> json_get(b, key)->0@ == x@,
{
    match (a, b) {
        (JsonValue::Object(ea), JsonValue::Object(eb)) => {
            let (sa, sb) = (ea@, eb@);
            lemma_deep_entries_len(sa, sa.len() as int);
            lemma_deep_entries_len(sb, sb.len() as int);
            assert forall|i: int| 0 <= i < sa.len() implies sa[i].0@ == sb[i].0@ && sa[i].1@
                == sb[i].1@ by {
                lemma_deep_entries_index(sa, sa.len() as int, i);
                lemma_deep_entries_index(sb, sb.len() as int, i);
            }
            if key_index(sa, key) is Some {
                let i = key_index(sa, key)->0;
                assert(is_first_key_at(sa, key, i));
                assert(is_first_key_at(sb, key, i));
                lemma_key_index_at(sb, key, i);
            } else if key_index(sb, key) is Some {
                let i = key_index(sb, key)->0;
                assert(is_first_key_at(sb, key, i));
                assert(is_first_key_at(sa, key, i));
                lemma_key_index_at(sa, key, i);
            }
        },
        (JsonValue::Object(_), _) => {},
        (_, JsonValue::Object(_)) => {},
        _ => {},
    }
}

} // verus!

verus! {

#[verifier::external_type_specification]
#[verifier::external_body]
pub struct ExJsonDocument(serde_json::Value);

/// The JSON document that serde_json's `from_str` reads from `text` into
/// its `Value`, if `text` is JSON.
pub uninterp spec fn json_document(text: Seq<char>) -> Option<JsonView>;

/// `i` is the first field of `fields` named `key`.
pub open spec fn is_first_field_at(fields: Seq<(Seq<char>, JsonView)>, key: Seq<char>, i: int) -> bool {
    &&& 0 <= i < fields.len()
    &&& fields[i].0 == key
    &&& forall|j: int| 0 <= j < i ==> fields[j].0 != key
}

/// The position of the first field of `fields` named `key`, where there is
/// one.
pub open spec fn first_field_index(fields: Seq<(Seq<char>, JsonView)>, key: Seq<char>) -> int {
    choose|i: int| is_first_field_at(fields, key, i)
}

/// The value stored under `key` in a JSON object (its first field of that
/// name); nothing in any other value.
pub open spec fn view_get(v: JsonView, key: Seq<char>) -> Option<JsonView> {
    match v {
        JsonView::Object(fields) => if exists|i: int| is_first_field_at(fields, key, i) {
            Some(fields[first_field_index(fields, key)].1)
        } else {
            None
        },
        _ => None,
    }
}

/// A field found in a JSON value is the field found in its view.
pub proof fn lemma_json_get_view(v: JsonValue, key: Seq<char>)
    ensures
        json_get(v, key) is Some <==> view_get(v@, key) is Some,
        json_get(v, key) matches Some(x) ==> view_get(v@, key) == Some(x@),
{
    match v {
        JsonValue::Object(e) => {
            let s = e@;
            let d = JsonValue::deep_entries(s, s.len() as int);
            lemma_deep_entries_len(s, s.len() as int);
            assert forall|i: int| 0 <= i < s.len() implies d[i] == (s[i].0@, s[i].1@) by {
                lemma_deep_entries_index(s, s.len() as int, i);
            }
            assert(v@ == JsonView::Object(d));
            if key_index(s, key) is Some {
                let i = key_index(s, key)->0;
                assert(is_first_key_at(s, key, i));
                assert(is_first_field_at(d, key, i));
                let c = first_field_index(d, key);
                assert(is_first_field_at(d, key, c));
                if c < i {
                    assert(d[c] == (s[c].0@, s[c].1@));
                    assert(s[c].0@ != key);
                } else if i < c {
                    assert(d[i].0 != key);
                }
                assert(c == i);
                assert(d[i] == (s[i].0@, s[i].1@));
                assert(exists|k: int| is_first_field_at(d, key, k));
                assert(first_field_index(d, key) == i);
                let vd = JsonView::Object(d);
                assert(vd matches JsonView::Object(f) && f == d);
                assert(view_get(vd, key) == Some(d[i].1));
            } else if exists|i: int| is_first_field_at(d, key, i) {
                let i = choose|i: int| is_first_field_at(d, key, i);
                assert(is_first_field_at(d, key, i));
                assert(d[i] == (s[i].0@, s[i].1@));
                assert forall|j: int| 0 <= j < i implies s[j].0@ != key by {
                    assert(d[j] == (s[j].0@, s[j].1@));
                }
                assert(is_first_key_at(s, key, i));
                lemma_key_index_at(s, key, i);
            } else {
                assert(view_get(v@, key) is None);
            }
        },
        _ => {},
    }
}

/// serde_json's `Value`, converted variant for variant into the library's
/// JSON value: a number as the text serde_json writes for it, an object's
/// fields in serde_json's order.
#[verifier::external_body]
fn json_from_serde(v: &serde_json::Value) -> JsonValue {
    match v {
        serde_json::Value::Null => JsonValue::Null,
        serde_json::Value::Bool(b) => JsonValue::Bool(*b),
        serde_json::Value::Number(n) => JsonValue::Number(n.to_string()),
        serde_json::Value::String(s) => JsonValue::Str(s.clone()),
        serde_json::Value::Array(items) => JsonValue::Array(items.iter().map(json_from_serde).collect()),
        serde_json::Value::Object(map) => JsonValue::Object(
            map.iter().map(|(k, v)| (k.clone(), json_from_serde(v))).collect(),
        ),
    }
}

/// serde_json's `from_str` into its `Value`, converted to the library's
/// JSON value. The contract names what it reads, which depends on `text`
/// alone.
#[verifier::external_body]
pub(crate) fn parse_json(text: &str) -> (r: Option<JsonValue>)
    ensures
        r is Some <==> json_document(text@) is Some,
        r matches Some(v) ==> json_document(text@) == Some(v@),
{
    match serde_json::from_str::<serde_json::Value>(text) {
        Ok(v) => Some(json_from_serde(&v)),
        Err(_) => None,
    }
}

} // verus!
