//! A JSON document tree, the form in which Kubernetes manifests are built.
//!
//! Objects keep their entries in a list; the keys of every object built by
//! this crate are distinct, so the list reads as a map.

use vstd::prelude::*;

use crate::text::{chars_eq, chars_of, owned};

verus! {

/// A JSON value.
#[derive(Debug)]
pub enum Json {
    Bool(bool),
    Int(i64),
    Str(String),
    Array(Vec<Json>),
    Object(Vec<(String, Json)>),
}

/// A JSON value with its texts seen as character sequences.
pub enum JsonView {
    Bool(bool),
    Int(int),
    Str(Seq<char>),
    Array(Seq<JsonView>),
    Object(Seq<(Seq<char>, JsonView)>),
}

/// The view of a JSON value.
pub open spec fn jv(j: Json) -> JsonView
    decreases j,
{
    match j {
        Json::Bool(b) => JsonView::Bool(b),
        Json::Int(i) => JsonView::Int(i as int),
        Json::Str(s) => JsonView::Str(s@),
        Json::Array(v) => JsonView::Array(
            Seq::new(
                v@.len(),
                |i: int|
                    if 0 <= i < v@.len() {
                        jv(v@[i])
                    } else {
                        JsonView::Bool(false)
                    },
            ),
        ),
        Json::Object(v) => JsonView::Object(
            Seq::new(
                v@.len(),
                |i: int|
                    if 0 <= i < v@.len() {
                        (v@[i].0@, jv(v@[i].1))
                    } else {
                        (Seq::empty(), JsonView::Bool(false))
                    },
            ),
        ),
    }
}

impl View for Json {
    type V = JsonView;

    open spec fn view(&self) -> JsonView {
        jv(*self)
    }
}

/// The views of a list of values.
pub open spec fn items_view(v: Seq<Json>) -> Seq<JsonView> {
    v.map_values(|j: Json| jv(j))
}

/// The views of a list of object entries.
pub open spec fn entries_view(v: Seq<(String, Json)>) -> Seq<(Seq<char>, JsonView)> {
    v.map_values(|e: (String, Json)| (e.0@, jv(e.1)))
}

/// The value of the first entry of `entries` with key `key`.
pub open spec fn lookup(entries: Seq<(Seq<char>, JsonView)>, key: Seq<char>) -> Option<JsonView>
    decreases entries.len(),
{
    if entries.len() == 0 {
        None
    } else if entries[0].0 == key {
        Some(entries[0].1)
    } else {
        lookup(entries.drop_first(), key)
    }
}

/// The value under `key` when `j` is an object that has it.
pub open spec fn field_of(j: JsonView, key: Seq<char>) -> Option<JsonView> {
    match j {
        JsonView::Object(entries) => lookup(entries, key),
        _ => None,
    }
}

/// The value reached from `j` by following the object keys `keys` in turn.
pub open spec fn at_path(j: JsonView, keys: Seq<Seq<char>>) -> Option<JsonView>
    decreases keys.len(),
{
    if keys.len() == 0 {
        Some(j)
    } else {
        match field_of(j, keys[0]) {
            Some(v) => at_path(v, keys.drop_first()),
            None => None,
        }
    }
}

/// Lemma: an entry whose key no earlier entry has is the one a lookup finds.
pub proof fn lemma_lookup_at(entries: Seq<(Seq<char>, JsonView)>, key: Seq<char>, i: int)
    requires
        0 <= i < entries.len(),
        entries[i].0 == key,
        forall|j: int| 0 <= j < i ==> entries[j].0 != key,
    ensures
        lookup(entries, key) == Some(entries[i].1),
    decreases i,
{
    if i > 0 {
        let rest = entries.drop_first();
        assert forall|j: int| 0 <= j < i - 1 implies rest[j].0 != key by {
            assert(rest[j] == entries[j + 1]);
        }
        assert(rest[i - 1] == entries[i]);
        lemma_lookup_at(rest, key, i - 1);
    }
}

/// The `i`-th element when `j` is an array that long.
pub open spec fn item_of(j: JsonView, i: int) -> Option<JsonView> {
    match j {
        JsonView::Array(items) => if 0 <= i < items.len() {
            Some(items[i])
        } else {
            None
        },
        _ => None,
    }
}

/// Lemma: the view of an array is the views of its elements.
pub proof fn lemma_array_view(v: Vec<Json>)
    ensures
        jv(Json::Array(v)) == JsonView::Array(items_view(v@)),
{
    let s = items_view(v@);
    let t = match jv(Json::Array(v)) {
        JsonView::Array(t) => t,
        _ => Seq::empty(),
    };
    assert(t.len() == s.len());
    assert forall|i: int| 0 <= i < s.len() implies s[i] == t[i] by {}
    assert(s =~= t);
}

/// Lemma: the view of an object is the views of its entries.
pub proof fn lemma_object_view(v: Vec<(String, Json)>)
    ensures
        jv(Json::Object(v)) == JsonView::Object(entries_view(v@)),
{
    let s = entries_view(v@);
    let t = match jv(Json::Object(v)) {
        JsonView::Object(t) => t,
        _ => Seq::empty(),
    };
    assert(t.len() == s.len());
    assert forall|i: int| 0 <= i < s.len() implies s[i] == t[i] by {}
    assert(s =~= t);
}

/// Appends a `key: value` entry to an object under construction.
pub fn put(o: &mut Vec<(String, Json)>, key: &str, value: Json)
    ensures
        entries_view(final(o)@) == entries_view(old(o)@).push((key@, value@)),
{
    let ghost v = value@;
    o.push((owned(key), value));
    assert(entries_view(o@) =~= entries_view(old(o)@).push((key@, v)));
}

/// Appends a `key: value` entry whose key is an owned string.
pub fn put_owned(o: &mut Vec<(String, Json)>, key: String, value: Json)
    ensures
        entries_view(final(o)@) == entries_view(old(o)@).push((key@, value@)),
{
    let ghost v = value@;
    let ghost k = key@;
    o.push((key, value));
    assert(entries_view(o@) =~= entries_view(old(o)@).push((k, v)));
}

/// Appends an element to an array under construction.
pub fn push_item(a: &mut Vec<Json>, value: Json)
    ensures
        items_view(final(a)@) == items_view(old(a)@).push(value@),
{
    let ghost v = value@;
    a.push(value);
    assert(items_view(a@) =~= items_view(old(a)@).push(v));
}

/// An object with 1 entry, in the given order.
pub fn obj1(k1: &str, v1: Json) -> (j: Json)
    ensures
        j@ == JsonView::Object(seq![(k1@, v1@)]),
{
    let ghost g1 = v1@;
    let mut o: Vec<(String, Json)> = Vec::new();
    put(&mut o, k1, v1);
    assert(entries_view(o@) =~= seq![(k1@, g1)]);
    Json::object(o)
}

/// An object with 2 entries, in the given order.
pub fn obj2(k1: &str, v1: Json, k2: &str, v2: Json) -> (j: Json)
    ensures
        j@ == JsonView::Object(seq![(k1@, v1@), (k2@, v2@)]),
{
    let ghost g1 = v1@;
    let ghost g2 = v2@;
    let mut o: Vec<(String, Json)> = Vec::new();
    put(&mut o, k1, v1);
    put(&mut o, k2, v2);
    assert(entries_view(o@) =~= seq![(k1@, g1), (k2@, g2)]);
    Json::object(o)
}

/// An object with 3 entries, in the given order.
pub fn obj3(k1: &str, v1: Json, k2: &str, v2: Json, k3: &str, v3: Json) -> (j: Json)
    ensures
        j@ == JsonView::Object(seq![(k1@, v1@), (k2@, v2@), (k3@, v3@)]),
{
    let ghost g1 = v1@;
    let ghost g2 = v2@;
    let ghost g3 = v3@;
    let mut o: Vec<(String, Json)> = Vec::new();
    put(&mut o, k1, v1);
    put(&mut o, k2, v2);
    put(&mut o, k3, v3);
    assert(entries_view(o@) =~= seq![(k1@, g1), (k2@, g2), (k3@, g3)]);
    Json::object(o)
}

/// An object with 4 entries, in the given order.
pub fn obj4(
    k1: &str, v1: Json,
    k2: &str, v2: Json,
    k3: &str, v3: Json,
    k4: &str, v4: Json,
) -> (j: Json)
    ensures
        j@ == JsonView::Object(seq![(k1@, v1@), (k2@, v2@), (k3@, v3@), (k4@, v4@)]),
{
    let ghost g1 = v1@;
    let ghost g2 = v2@;
    let ghost g3 = v3@;
    let ghost g4 = v4@;
    let mut o: Vec<(String, Json)> = Vec::new();
    put(&mut o, k1, v1);
    put(&mut o, k2, v2);
    put(&mut o, k3, v3);
    put(&mut o, k4, v4);
    assert(entries_view(o@) =~= seq![(k1@, g1), (k2@, g2), (k3@, g3), (k4@, g4)]);
    Json::object(o)
}

/// An object with 5 entries, in the given order.
pub fn obj5(
    k1: &str, v1: Json,
    k2: &str, v2: Json,
    k3: &str, v3: Json,
    k4: &str, v4: Json,
    k5: &str, v5: Json,
) -> (j: Json)
    ensures
        j@ == JsonView::Object(seq![(k1@, v1@), (k2@, v2@), (k3@, v3@), (k4@, v4@), (k5@, v5@)]),
{
    let ghost g1 = v1@;
    let ghost g2 = v2@;
    let ghost g3 = v3@;
    let ghost g4 = v4@;
    let ghost g5 = v5@;
    let mut o: Vec<(String, Json)> = Vec::new();
    put(&mut o, k1, v1);
    put(&mut o, k2, v2);
    put(&mut o, k3, v3);
    put(&mut o, k4, v4);
    put(&mut o, k5, v5);
    assert(entries_view(o@) =~= seq![(k1@, g1), (k2@, g2), (k3@, g3), (k4@, g4), (k5@, g5)]);
    Json::object(o)
}

/// An object with 8 entries, in the given order.
pub fn obj8(
    k1: &str, v1: Json,
    k2: &str, v2: Json,
    k3: &str, v3: Json,
    k4: &str, v4: Json,
    k5: &str, v5: Json,
    k6: &str, v6: Json,
    k7: &str, v7: Json,
    k8: &str, v8: Json,
) -> (j: Json)
    ensures
        j@ == JsonView::Object(seq![
            (k1@, v1@),
            (k2@, v2@),
            (k3@, v3@),
            (k4@, v4@),
            (k5@, v5@),
            (k6@, v6@),
            (k7@, v7@),
            (k8@, v8@),
        ]),
{
    let ghost g1 = v1@;
    let ghost g2 = v2@;
    let ghost g3 = v3@;
    let ghost g4 = v4@;
    let ghost g5 = v5@;
    let ghost g6 = v6@;
    let ghost g7 = v7@;
    let ghost g8 = v8@;
    let mut o: Vec<(String, Json)> = Vec::new();
    put(&mut o, k1, v1);
    put(&mut o, k2, v2);
    put(&mut o, k3, v3);
    put(&mut o, k4, v4);
    put(&mut o, k5, v5);
    put(&mut o, k6, v6);
    put(&mut o, k7, v7);
    put(&mut o, k8, v8);
    assert(entries_view(o@) =~= seq![
        (k1@, g1),
        (k2@, g2),
        (k3@, g3),
        (k4@, g4),
        (k5@, g5),
        (k6@, g6),
        (k7@, g7),
        (k8@, g8),
    ]);
    Json::object(o)
}

/// An object with 9 entries, in the given order.
pub fn obj9(
    k1: &str, v1: Json,
    k2: &str, v2: Json,
    k3: &str, v3: Json,
    k4: &str, v4: Json,
    k5: &str, v5: Json,
    k6: &str, v6: Json,
    k7: &str, v7: Json,
    k8: &str, v8: Json,
    k9: &str, v9: Json,
) -> (j: Json)
    ensures
        j@ == JsonView::Object(seq![
            (k1@, v1@),
            (k2@, v2@),
            (k3@, v3@),
            (k4@, v4@),
            (k5@, v5@),
            (k6@, v6@),
            (k7@, v7@),
            (k8@, v8@),
            (k9@, v9@),
        ]),
{
    let ghost g1 = v1@;
    let ghost g2 = v2@;
    let ghost g3 = v3@;
    let ghost g4 = v4@;
    let ghost g5 = v5@;
    let ghost g6 = v6@;
    let ghost g7 = v7@;
    let ghost g8 = v8@;
    let ghost g9 = v9@;
    let mut o: Vec<(String, Json)> = Vec::new();
    put(&mut o, k1, v1);
    put(&mut o, k2, v2);
    put(&mut o, k3, v3);
    put(&mut o, k4, v4);
    put(&mut o, k5, v5);
    put(&mut o, k6, v6);
    put(&mut o, k7, v7);
    put(&mut o, k8, v8);
    put(&mut o, k9, v9);
    assert(entries_view(o@) =~= seq![
        (k1@, g1),
        (k2@, g2),
        (k3@, g3),
        (k4@, g4),
        (k5@, g5),
        (k6@, g6),
        (k7@, g7),
        (k8@, g8),
        (k9@, g9),
    ]);
    Json::object(o)
}

/// An array of 1 element, in the given order.
pub fn arr1(v1: Json) -> (j: Json)
    ensures
        j@ == JsonView::Array(seq![v1@]),
{
    let ghost g1 = v1@;
    let mut a: Vec<Json> = Vec::new();
    push_item(&mut a, v1);
    assert(items_view(a@) =~= seq![g1]);
    Json::array(a)
}

/// An array of 2 elements, in the given order.
pub fn arr2(v1: Json, v2: Json) -> (j: Json)
    ensures
        j@ == JsonView::Array(seq![v1@, v2@]),
{
    let ghost g1 = v1@;
    let ghost g2 = v2@;
    let mut a: Vec<Json> = Vec::new();
    push_item(&mut a, v1);
    push_item(&mut a, v2);
    assert(items_view(a@) =~= seq![g1, g2]);
    Json::array(a)
}

/// An array of 4 elements, in the given order.
pub fn arr4(v1: Json, v2: Json, v3: Json, v4: Json) -> (j: Json)
    ensures
        j@ == JsonView::Array(seq![v1@, v2@, v3@, v4@]),
{
    let ghost g1 = v1@;
    let ghost g2 = v2@;
    let ghost g3 = v3@;
    let ghost g4 = v4@;
    let mut a: Vec<Json> = Vec::new();
    push_item(&mut a, v1);
    push_item(&mut a, v2);
    push_item(&mut a, v3);
    push_item(&mut a, v4);
    assert(items_view(a@) =~= seq![g1, g2, g3, g4]);
    Json::array(a)
}

/// The string values of a list of texts.
pub open spec fn texts_view(v: Seq<Seq<char>>) -> Seq<JsonView> {
    v.map_values(|s: Seq<char>| JsonView::Str(s))
}

/// An array of the given strings, in order.
pub fn text_array(v: Vec<String>) -> (j: Json)
    ensures
        j@ == JsonView::Array(texts_view(v@.map_values(|s: String| s@))),
{
    let mut a: Vec<Json> = Vec::new();
    let mut i: usize = 0;
    while i < v.len()
        invariant
            i <= v@.len(),
            items_view(a@) == texts_view(v@.subrange(0, i as int).map_values(|s: String| s@)),
        decreases v@.len() - i,
    {
        let ghost before = items_view(a@);
        push_item(&mut a, Json::string(v[i].clone()));
        i = i + 1;
        assert(texts_view(v@.subrange(0, i as int).map_values(|s: String| s@)) =~= before.push(
            JsonView::Str(v@[i - 1]@),
        ));
    }
    assert(v@.subrange(0, v@.len() as int) =~= v@);
    Json::array(a)
}

impl Json {
    /// A string value.
    pub fn text(s: &str) -> (j: Json)
        ensures
            j@ == JsonView::Str(s@),
    {
        Json::Str(owned(s))
    }

    /// A string value holding `s`.
    pub fn string(s: String) -> (j: Json)
        ensures
            j@ == JsonView::Str(s@),
    {
        Json::Str(s)
    }

    /// An integer value.
    pub fn number(i: i64) -> (j: Json)
        ensures
            j@ == JsonView::Int(i as int),
    {
        Json::Int(i)
    }

    /// A boolean value.
    pub fn boolean(b: bool) -> (j: Json)
        ensures
            j@ == JsonView::Bool(b),
    {
        Json::Bool(b)
    }

    /// An array of the given values.
    pub fn array(v: Vec<Json>) -> (j: Json)
        ensures
            j@ == JsonView::Array(items_view(v@)),
    {
        proof {
            lemma_array_view(v);
        }
        let j = Json::Array(v);
        j
    }

    /// An object with the given entries.
    pub fn object(v: Vec<(String, Json)>) -> (j: Json)
        ensures
            j@ == JsonView::Object(entries_view(v@)),
    {
        proof {
            lemma_object_view(v);
        }
        let j = Json::Object(v);
        j
    }

    /// The value under `key`, when this is an object that has it.
    pub fn field(&self, key: &str) -> (r: Option<&Json>)
        ensures
            match field_of(self@, key@) {
                Some(v) => r matches Some(x) && x@ == v,
                None => r is None,
            },
    {
        match self {
            Json::Object(entries) => {
                proof {
                    lemma_object_view(*entries);
                }
                let k = chars_of(key);
                let mut i: usize = 0;
                assert(entries_view(entries@).subrange(0, entries@.len() as int) =~= entries_view(
                    entries@,
                ));
                while i < entries.len()
                    invariant
                        i <= entries@.len(),
                        k@ == key@,
                        self@ == JsonView::Object(entries_view(entries@)),
                        lookup(entries_view(entries@), key@) == lookup(
                            entries_view(entries@).subrange(i as int, entries@.len() as int),
                            key@,
                        ),
                    decreases entries@.len() - i,
                {
                    let ghost rest = entries_view(entries@).subrange(i as int, entries@.len() as int);
                    assert(rest[0] == (entries@[i as int].0@, entries@[i as int].1@));
                    if chars_eq(&chars_of(entries[i].0.as_str()), &k) {
                        return Some(&entries[i].1);
                    }
                    assert(rest.drop_first() =~= entries_view(entries@).subrange(
                        i + 1,
                        entries@.len() as int,
                    ));
                    i = i + 1;
                }
                None
            },
            _ => None,
        }
    }

    /// The `i`-th element, when this is an array that long.
    pub fn item(&self, i: usize) -> (r: Option<&Json>)
        ensures
            match item_of(self@, i as int) {
                Some(v) => r matches Some(x) && x@ == v,
                None => r is None,
            },
    {
        match self {
            Json::Array(items) => {
                if i < items.len() {
                    Some(&items[i])
                } else {
                    None
                }
            },
            _ => None,
        }
    }

    /// The text, when this is a string.
    pub fn as_str(&self) -> (r: Option<&str>)
        ensures
            match self@ {
                JsonView::Str(s) => r matches Some(x) && x@ == s,
                _ => r is None,
            },
    {
        match self {
            Json::Str(s) => Some(s.as_str()),
            _ => None,
        }
    }

    /// The number, when this is an integer.
    pub fn as_int(&self) -> (r: Option<i64>)
        ensures
            match self@ {
                JsonView::Int(n) => r matches Some(x) && x as int == n,
                _ => r is None,
            },
    {
        match self {
            Json::Int(n) => Some(*n),
            _ => None,
        }
    }

    /// The number of elements, when this is an array.
    pub fn len(&self) -> (r: Option<usize>)
        ensures
            match self@ {
                JsonView::Array(items) => r matches Some(n) && n as int == items.len(),
                _ => r is None,
            },
    {
        match self {
            Json::Array(items) => Some(items.len()),
            _ => None,
        }
    }
}

} // verus!
