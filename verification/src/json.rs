//! The library's model of a JSON document: what request bodies, API
//! responses and the OpenAPI spec are read and built as.
//!
//! Numbers are kept as their JSON text, so a value renders exactly as it was
//! received. Object members keep their order.

use vstd::prelude::*;
use crate::text::{chars_eq, chars_lt, chars_of, seq_lt};

verus! {

/// A JSON value.
#[derive(Debug)]
pub enum Json {
    Null,
    Bool(bool),
    /// A number, as its JSON text (e.g. `42`, `-1.5e3`).
    Number(String),
    Str(String),
    Array(Vec<Json>),
    /// Object members in order; a key that occurs twice is read at its first
    /// occurrence.
    Object(Vec<(String, Json)>),
}

/// The mathematical value of a JSON document.
pub enum JsonV {
    Null,
    Bool(bool),
    Number(Seq<char>),
    Str(Seq<char>),
    Array(Seq<JsonV>),
    Object(Seq<(Seq<char>, JsonV)>),
}

/// The value a JSON document denotes.
pub open spec fn json_view(j: Json) -> JsonV
    decreases j,
{
    match j {
        Json::Null => JsonV::Null,
        Json::Bool(b) => JsonV::Bool(b),
        Json::Number(n) => JsonV::Number(n@),
        Json::Str(s) => JsonV::Str(s@),
        Json::Array(v) => JsonV::Array(items_view(v@)),
        Json::Object(f) => JsonV::Object(fields_view(f@)),
    }
}

/// The values of a list of documents.
pub open spec fn items_view(s: Seq<Json>) -> Seq<JsonV>
    decreases s,
{
    if s.len() == 0 {
        Seq::empty()
    } else {
        items_view(s.drop_last()).push(json_view(s.last()))
    }
}

/// The values of a list of object members.
pub open spec fn fields_view(s: Seq<(String, Json)>) -> Seq<(Seq<char>, JsonV)>
    decreases s,
{
    if s.len() == 0 {
        Seq::empty()
    } else {
        fields_view(s.drop_last()).push((s.last().0@, json_view(s.last().1)))
    }
}

impl View for Json {
    type V = JsonV;

    open spec fn view(&self) -> JsonV {
        json_view(*self)
    }
}

/// The member named `key` among `fields` (its first occurrence).
pub open spec fn field_of(fields: Seq<(Seq<char>, JsonV)>, key: Seq<char>) -> Option<JsonV>
    decreases fields.len(),
{
    if fields.len() == 0 {
        None
    } else if fields[0].0 == key {
        Some(fields[0].1)
    } else {
        field_of(fields.drop_first(), key)
    }
}

/// The member `key` of `j` when `j` is an object that has one.
pub open spec fn member(j: JsonV, key: Seq<char>) -> Option<JsonV> {
    match j {
        JsonV::Object(fields) => field_of(fields, key),
        _ => None,
    }
}

/// The member `key` of `j` when it exists and is a string.
pub open spec fn member_str(j: JsonV, key: Seq<char>) -> Option<Seq<char>> {
    match member(j, key) {
        Some(JsonV::Str(s)) => Some(s),
        _ => None,
    }
}

/// The member `key` of `j` when it exists and is an array.
pub open spec fn member_array(j: JsonV, key: Seq<char>) -> Option<Seq<JsonV>> {
    match member(j, key) {
        Some(JsonV::Array(v)) => Some(v),
        _ => None,
    }
}

/// `items_view` is taken element by element.
pub proof fn lemma_items_view(s: Seq<Json>)
    ensures
        items_view(s).len() == s.len(),
        forall|i: int| 0 <= i < s.len() ==> #[trigger] items_view(s)[i] == json_view(s[i]),
    decreases s.len(),
{
    if s.len() > 0 {
        lemma_items_view(s.drop_last());
    }
}

/// `fields_view` is taken member by member.
pub proof fn lemma_fields_view(s: Seq<(String, Json)>)
    ensures
        fields_view(s).len() == s.len(),
        forall|i: int|
            0 <= i < s.len() ==> #[trigger] fields_view(s)[i] == (s[i].0@, json_view(s[i].1)),
    decreases s.len(),
{
    if s.len() > 0 {
        lemma_fields_view(s.drop_last());
    }
}

/// Whether two string slices hold the same characters.
pub(crate) fn str_eq(a: &str, b: &str) -> (r: bool)
    ensures
        r == (a@ == b@),
{
    let ca = chars_of(a);
    let cb = chars_of(b);
    chars_eq(ca.as_slice(), cb.as_slice())
}

impl Json {
    /// Looks up the member `key` of an object; `None` for a missing member
    /// or a value that is not an object.
    pub fn get(&self, key: &str) -> (r: Option<&Json>)
        ensures
            r is Some == member(self@, key@) is Some,
            r matches Some(v) ==> member(self@, key@) == Some(v@),
    {
        match self {
            Json::Object(fields) => {
                let ghost fv = fields_view(fields@);
                proof {
                    lemma_fields_view(fields@);
                    assert(fv.subrange(0, fv.len() as int) == fv);
                }
                let mut i: usize = 0;
                while i < fields.len()
                    invariant
                        i <= fields@.len(),
                        *self == Json::Object(*fields),
                        fv == fields_view(fields@),
                        fv.len() == fields@.len(),
                        forall|k: int| 0 <= k < fields@.len() ==> #[trigger] fv[k] == (fields@[k].0@, json_view(fields@[k].1)),
                        field_of(fv, key@) == field_of(fv.subrange(i as int, fv.len() as int), key@),
                    decreases fields.len() - i,
                {
                    let ghost rest = fv.subrange(i as int, fv.len() as int);
                    assert(rest.drop_first() =~= fv.subrange(i + 1, fv.len() as int));
                    if str_eq(fields[i].0.as_str(), key) {
                        assert(rest[0] == fv[i as int]);
                        assert(self@ == JsonV::Object(fv));
                        assert(field_of(rest, key@) == Some(fv[i as int].1));
                        return Some(&fields[i].1);
                    }
                    i = i + 1;
                }
                assert(fv.subrange(i as int, fv.len() as int).len() == 0);
                None
            },
            _ => None,
        }
    }

    /// The text of a string value.
    pub fn as_str(&self) -> (r: Option<&str>)
        ensures
            r is Some == self@ is Str,
            r matches Some(s) ==> self@ == JsonV::Str(s@),
    {
        match self {
            Json::Str(s) => Some(s.as_str()),
            _ => None,
        }
    }

    /// The elements of an array value.
    pub fn as_array(&self) -> (r: Option<&Vec<Json>>)
        ensures
            r is Some == self@ is Array,
            r matches Some(v) ==> self@ == JsonV::Array(items_view(v@)),
    {
        match self {
            Json::Array(v) => Some(v),
            _ => None,
        }
    }

    /// The value of a boolean.
    pub fn as_bool(&self) -> (r: Option<bool>)
        ensures
            r is Some == self@ is Bool,
            r matches Some(b) ==> self@ == JsonV::Bool(b),
    {
        match self {
            Json::Bool(b) => Some(*b),
            _ => None,
        }
    }

    /// Whether the value is an object.
    pub fn is_object(&self) -> (r: bool)
        ensures
            r == self@ is Object,
    {
        match self {
            Json::Object(_) => true,
            _ => false,
        }
    }

    /// A copy of the value, equal to it.
    pub fn copy(&self) -> (r: Json)
        ensures
            r@ == self@,
        decreases self,
    {
        match self {
            Json::Null => Json::Null,
            Json::Bool(b) => Json::Bool(*b),
            Json::Number(n) => Json::Number(n.clone()),
            Json::Str(s) => Json::Str(s.clone()),
            Json::Array(v) => {
                let mut out: Vec<Json> = Vec::new();
                let mut i: usize = 0;
                while i < v.len()
                    invariant
                        i <= v@.len(),
                        *self == Json::Array(*v),
                        items_view(out@) == items_view(v@.subrange(0, i as int)),
                    decreases v.len() - i,
                {
                    proof {
                        broadcast use vstd::std_specs::vec::axiom_vec_index_decreases;
                        assert(decreases_to!(v => v[i as int]));
                        assert(decreases_to!(*self => (*self)->Array_0));
                        assert(decreases_to!(*self => v[i as int]));
                    }
                    let c = v[i].copy();
                    let ghost before = out@;
                    out.push(c);
                    proof {
                        assert(out@.drop_last() == before);
                        assert(v@.subrange(0, i + 1).drop_last() =~= v@.subrange(0, i as int));
                    }
                    i = i + 1;
                }
                assert(v@.subrange(0, v@.len() as int) == v@);
                Json::Array(out)
            },
            Json::Object(fields) => {
                let mut out: Vec<(String, Json)> = Vec::new();
                let mut i: usize = 0;
                while i < fields.len()
                    invariant
                        i <= fields@.len(),
                        *self == Json::Object(*fields),
                        fields_view(out@) == fields_view(fields@.subrange(0, i as int)),
                    decreases fields.len() - i,
                {
                    let k = fields[i].0.clone();
                    proof {
                        broadcast use vstd::std_specs::vec::axiom_vec_index_decreases;
                        assert(decreases_to!(fields => fields[i as int]));
                        assert(decreases_to!(fields[i as int] => fields[i as int].1));
                        assert(decreases_to!(*self => (*self)->Object_0));
                        assert(decreases_to!(*self => fields[i as int].1));
                    }
                    let val = fields[i].1.copy();
                    let ghost before = out@;
                    out.push((k, val));
                    proof {
                        assert(out@.drop_last() == before);
                        assert(fields@.subrange(0, i + 1).drop_last() =~= fields@.subrange(0, i as int));
                    }
                    i = i + 1;
                }
                assert(fields@.subrange(0, fields@.len() as int) == fields@);
                Json::Object(out)
            },
        }
    }
}

/// Inserts `k: v` into an object whose members are in key order, as a
/// sorted map does: an existing key keeps its place and takes the new value.
pub open spec fn map_insert(m: Seq<(Seq<char>, JsonV)>, k: Seq<char>, v: JsonV) -> Seq<(Seq<char>, JsonV)>
    decreases m.len(),
{
    if m.len() == 0 {
        seq![(k, v)]
    } else if m[0].0 == k {
        seq![(k, v)] + m.drop_first()
    } else if seq_lt(k, m[0].0) {
        seq![(k, v)] + m
    } else {
        seq![m[0]] + map_insert(m.drop_first(), k, v)
    }
}

/// After inserting `k: v`, the member `k` is `v` and every other member is
/// what it was.
pub proof fn lemma_field_of_insert(m: Seq<(Seq<char>, JsonV)>, k: Seq<char>, v: JsonV, q: Seq<char>)
    ensures
        field_of(map_insert(m, k, v), q) == (if q == k {
            Some(v)
        } else {
            field_of(m, q)
        }),
    decreases m.len(),
{
    let r = map_insert(m, k, v);
    if m.len() == 0 {
        assert(r[0] == (k, v));
        assert(r.drop_first() =~= Seq::<(Seq<char>, JsonV)>::empty());
        assert(field_of(r.drop_first(), q) is None);
    } else if m[0].0 == k {
        assert(r[0] == (k, v));
        assert(r.drop_first() =~= m.drop_first());
    } else if seq_lt(k, m[0].0) {
        assert(r[0] == (k, v));
        assert(r.drop_first() =~= m);
    } else {
        lemma_field_of_insert(m.drop_first(), k, v, q);
        assert(r[0] == m[0]);
        assert(r.drop_first() =~= map_insert(m.drop_first(), k, v));
    }
}

/// Inserts `k: v` into a key-ordered object (see `map_insert`).
pub fn insert_member(m: &mut Vec<(String, Json)>, k: String, v: Json)
    ensures
        fields_view(final(m)@) == map_insert(fields_view(old(m)@), k@, v@),
{
    let ghost fv = fields_view(m@);
    proof {
        lemma_fields_view(m@);
    }
    let kc = chars_of(k.as_str());
    let mut i: usize = 0;
    assert(fv.skip(0) =~= fv);
    assert(fv.take(0) =~= Seq::<(Seq<char>, JsonV)>::empty());
    while i < m.len()
        invariant
            i <= m@.len(),
            m@ == old(m)@,
            fv == fields_view(m@),
            fv.len() == m@.len(),
            forall|j: int| 0 <= j < m@.len() ==> #[trigger] fv[j] == (m@[j].0@, m@[j].1@),
            kc@ == k@,
            map_insert(fv, k@, v@) == fv.take(i as int) + map_insert(fv.skip(i as int), k@, v@),
        decreases m.len() - i,
    {
        let ghost rest = fv.skip(i as int);
        proof {
            assert(rest[0] == fv[i as int]);
            assert(rest.drop_first() =~= fv.skip(i + 1));
        }
        if str_eq(m[i].0.as_str(), k.as_str()) {
            let ghost kv = (k@, v@);
            m.set(i, (k, v));
            proof {
                lemma_fields_view(m@);
                assert(fields_view(m@) =~= fv.take(i as int) + (seq![kv] + rest.drop_first()));
            }
            return;
        }
        let cur = chars_of(m[i].0.as_str());
        if chars_lt(kc.as_slice(), cur.as_slice()) {
            let ghost kv = (k@, v@);
            m.insert(i, (k, v));
            proof {
                lemma_fields_view(m@);
                assert(fields_view(m@) =~= fv.take(i as int) + (seq![kv] + rest));
            }
            return;
        }
        proof {
            assert(fv.take(i + 1) =~= fv.take(i as int).push(fv[i as int]));
            assert(fv.take(i as int) + map_insert(rest, k@, v@) =~= fv.take(i + 1) + map_insert(
                fv.skip(i + 1),
                k@,
                v@,
            ));
        }
        i = i + 1;
    }
    let ghost kv = (k@, v@);
    m.push((k, v));
    proof {
        lemma_fields_view(m@);
        assert(fv.take(i as int) =~= fv);
        assert(fields_view(m@) =~= fv + seq![kv]);
    }
}

} // verus!
