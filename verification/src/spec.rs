//! The OpenAPI document of the Drata API: enumerating its operations
//! (method, path template, operationId, operation-level tags, whether the
//! body is a multipart upload) and generating `--example` request-body
//! skeletons from an operation's JSON schema.
//!
//! The document is handed in as the library's JSON model; its object members
//! are expected in key order, as the JSON reader produces them.

use vstd::prelude::*;
use crate::json::{field_of, lemma_field_of_insert, Json, JsonV, member, member_str, member_array, str_eq, items_view, fields_view, lemma_items_view, lemma_fields_view, map_insert, insert_member};
use crate::pointer::{pointer, resolve_pointer};
use crate::text::{
    chars_lt, chars_of, lemma_seq_lt_total, lemma_seq_lt_trans, lowercase_of,
    push_str, seq_lt, to_lowercase, to_uppercase, uppercase_of,
};

verus! {

/// One OpenAPI operation: one HTTP method on one path template.
#[derive(Debug, Clone)]
pub struct Operation {
    /// Upper-cased HTTP method (`GET`, `POST`, `PUT`, `DELETE`).
    pub method: String,
    /// Path template as written in the spec, e.g. `/vendors/{id}`.
    pub path: String,
    /// The operation's `operationId` (empty when it has none).
    pub operation_id: String,
    /// The operation-level tags.
    pub tags: Vec<String>,
    /// True when the request body is `multipart/form-data`.
    pub multipart: bool,
}

/// The abstract value of an operation.
pub struct OpV {
    pub method: Seq<char>,
    pub path: Seq<char>,
    pub operation_id: Seq<char>,
    pub tags: Seq<Seq<char>>,
    pub multipart: bool,
}

/// The characters of each string.
pub open spec fn strs(v: Seq<String>) -> Seq<Seq<char>> {
    v.map_values(|s: String| s@)
}

impl View for Operation {
    type V = OpV;

    open spec fn view(&self) -> OpV {
        OpV {
            method: self.method@,
            path: self.path@,
            operation_id: self.operation_id@,
            tags: strs(self.tags@),
            multipart: self.multipart,
        }
    }
}

impl Operation {
    /// A copy of the operation, equal to it.
    pub fn copy(&self) -> (r: Operation)
        ensures
            r@ == self@,
    {
        let mut tags: Vec<String> = Vec::new();
        let mut i: usize = 0;
        while i < self.tags.len()
            invariant
                i <= self.tags@.len(),
                tags@.len() == i,
                strs(tags@) == strs(self.tags@).subrange(0, i as int),
            decreases self.tags.len() - i,
        {
            let ghost before = tags@;
            let c = self.tags[i].clone();
            assert(c@ == self.tags@[i as int]@);
            tags.push(c);
            assert(tags@ == before.push(c));
            assert forall|k: int| 0 <= k < i + 1 implies #[trigger] strs(tags@)[k] == strs(self.tags@).subrange(
                0,
                i + 1,
            )[k] by {
                if k < i {
                    assert(strs(before)[k] == strs(self.tags@).subrange(0, i as int)[k]);
                    assert(tags@[k] == before[k]);
                }
            }
            assert(strs(tags@) =~= strs(self.tags@).subrange(0, i + 1));
            i = i + 1;
        }
        assert(strs(self.tags@).subrange(0, self.tags@.len() as int) =~= strs(self.tags@));
        Operation {
            method: self.method.clone(),
            path: self.path.clone(),
            operation_id: self.operation_id.clone(),
            tags,
            multipart: self.multipart,
        }
    }
}

/// The keys of a path item that name operations.
pub open spec fn is_http_method(m: Seq<char>) -> bool {
    ||| m == "get"@
    ||| m == "post"@
    ||| m == "put"@
    ||| m == "patch"@
    ||| m == "delete"@
    ||| m == "head"@
    ||| m == "options"@
}

/// The string elements of an array, in order (others are skipped).
pub open spec fn string_items(v: Seq<JsonV>) -> Seq<Seq<char>>
    decreases v.len(),
{
    if v.len() == 0 {
        Seq::empty()
    } else {
        string_items(v.drop_last()) + match v.last() {
            JsonV::Str(s) => seq![s],
            _ => Seq::empty(),
        }
    }
}

/// Whether the operation's request body is `multipart/form-data`.
pub open spec fn is_multipart(op: JsonV) -> bool {
    match member(op, "requestBody"@) {
        Some(rb) => match member(rb, "content"@) {
            Some(c) => c is Object && member(c, "multipart/form-data"@) is Some,
            None => false,
        },
        None => false,
    }
}

/// The operation `method` on `path`, described by `op`.
pub open spec fn operation_of(path: Seq<char>, method: Seq<char>, op: JsonV) -> OpV {
    OpV {
        method: uppercase_of(method),
        path: path,
        operation_id: match member_str(op, "operationId"@) {
            Some(id) => id,
            None => Seq::empty(),
        },
        tags: match member_array(op, "tags"@) {
            Some(a) => string_items(a),
            None => Seq::empty(),
        },
        multipart: is_multipart(op),
    }
}

/// The operations of one path item, in member order.
pub open spec fn item_operations(path: Seq<char>, ms: Seq<(Seq<char>, JsonV)>) -> Seq<OpV>
    decreases ms.len(),
{
    if ms.len() == 0 {
        Seq::empty()
    } else {
        item_operations(path, ms.drop_last()) + if is_http_method(lowercase_of(ms.last().0)) {
            seq![operation_of(path, ms.last().0, ms.last().1)]
        } else {
            Seq::empty()
        }
    }
}

/// The operations of all path items, in member order; items that are not
/// objects are skipped.
pub open spec fn paths_operations(ps: Seq<(Seq<char>, JsonV)>) -> Seq<OpV>
    decreases ps.len(),
{
    if ps.len() == 0 {
        Seq::empty()
    } else {
        paths_operations(ps.drop_last()) + match ps.last().1 {
            JsonV::Object(ms) => item_operations(ps.last().0, ms),
            _ => Seq::empty(),
        }
    }
}

/// Every operation of the document, or `None` when it has no `paths`
/// object.
pub open spec fn spec_operations(doc: JsonV) -> Option<Seq<OpV>> {
    match member(doc, "paths"@) {
        Some(JsonV::Object(ps)) => Some(paths_operations(ps)),
        _ => None,
    }
}

/// A document without a `paths` object.
#[derive(Debug)]
pub struct SpecError {}

impl SpecError {
    /// The message shown to the user.
    pub fn message(&self) -> (r: String)
        ensures
            r@ == "spec has no `paths` object"@,
    {
        let mut m = String::new();
        push_str(&mut m, "spec has no `paths` object");
        m
    }
}

/// The operations of a vector, as abstract values.
pub open spec fn ops_view(v: Seq<Operation>) -> Seq<OpV> {
    v.map_values(|o: Operation| o@)
}

/// The string elements of a JSON array.
fn string_elements(v: &Vec<Json>) -> (r: Vec<String>)
    ensures
        strs(r@) == string_items(crate::json::items_view(v@)),
{
    let ghost iv = crate::json::items_view(v@);
    proof {
        crate::json::lemma_items_view(v@);
    }
    let mut r: Vec<String> = Vec::new();
    let mut i: usize = 0;
    while i < v.len()
        invariant
            i <= v@.len(),
            iv == crate::json::items_view(v@),
            iv.len() == v@.len(),
            forall|k: int| 0 <= k < v@.len() ==> #[trigger] iv[k] == v@[k]@,
            strs(r@) == string_items(iv.subrange(0, i as int)),
        decreases v.len() - i,
    {
        proof {
            assert(iv.subrange(0, i + 1).drop_last() =~= iv.subrange(0, i as int));
        }
        let ghost before = r@;
        match v[i].as_str() {
            Some(t) => {
                r.push(t.to_string());
                assert(strs(r@) =~= strs(before).push(t@));
            },
            None => {},
        }
        i = i + 1;
    }
    assert(iv.subrange(0, iv.len() as int) =~= iv);
    r
}

/// Reads one operation.
fn read_operation(path: &str, method: &str, op: &Json) -> (r: Operation)
    ensures
        r@ == operation_of(path@, method@, op@),
{
    let operation_id = match op.get("operationId") {
        Some(v) => match v.as_str() {
            Some(t) => t.to_string(),
            None => String::new(),
        },
        None => String::new(),
    };
    let tags = match op.get("tags") {
        Some(v) => match v.as_array() {
            Some(a) => string_elements(a),
            None => Vec::new(),
        },
        None => Vec::new(),
    };
    let multipart = match op.get("requestBody") {
        Some(rb) => match rb.get("content") {
            Some(c) => c.is_object() && c.get("multipart/form-data").is_some(),
            None => false,
        },
        None => false,
    };
    let r = Operation { method: to_uppercase(method), path: path.to_string(), operation_id, tags, multipart };
    assert(strs(r.tags@) =~= operation_of(path@, method@, op@).tags);
    r
}

/// Whether a lowercased path-item key names an operation.
fn http_method_key(m: &str) -> (r: bool)
    ensures
        r == is_http_method(m@),
{
    str_eq(m, "get") || str_eq(m, "post") || str_eq(m, "put") || str_eq(m, "patch") || str_eq(m, "delete")
        || str_eq(m, "head") || str_eq(m, "options")
}

/// Enumerates every operation of the document: method, path template,
/// operationId, operation-level tags and whether it is a multipart upload.
pub fn operations(doc: &Json) -> (r: Result<Vec<Operation>, SpecError>)
    ensures
        r is Ok <==> spec_operations(doc@) is Some,
        r matches Ok(ops) ==> Some(ops_view(ops@)) == spec_operations(doc@),
{
    let paths = match doc.get("paths") {
        Some(p) => p,
        None => {
            return Err(SpecError {});
        },
    };
    let ps = match paths {
        Json::Object(ps) => ps,
        _ => {
            return Err(SpecError {});
        },
    };
    let ghost pv = crate::json::fields_view(ps@);
    proof {
        crate::json::lemma_fields_view(ps@);
    }
    let mut ops: Vec<Operation> = Vec::new();
    let mut i: usize = 0;
    while i < ps.len()
        invariant
            i <= ps@.len(),
            pv == crate::json::fields_view(ps@),
            pv.len() == ps@.len(),
            forall|k: int| 0 <= k < ps@.len() ==> #[trigger] pv[k] == (ps@[k].0@, ps@[k].1@),
            ops_view(ops@) == paths_operations(pv.subrange(0, i as int)),
        decreases ps.len() - i,
    {
        let path = ps[i].0.as_str();
        let item = &ps[i].1;
        proof {
            assert(pv.subrange(0, i + 1).drop_last() =~= pv.subrange(0, i as int));
            assert(pv.subrange(0, i + 1).last() == pv[i as int]);
        }
        let ghost start = ops_view(ops@);
        match item {
            Json::Object(ms) => {
                let ghost mv = crate::json::fields_view(ms@);
                proof {
                    crate::json::lemma_fields_view(ms@);
                }
                let mut j: usize = 0;
                while j < ms.len()
                    invariant
                        j <= ms@.len(),
                        mv == crate::json::fields_view(ms@),
                        mv.len() == ms@.len(),
                        forall|k: int| 0 <= k < ms@.len() ==> #[trigger] mv[k] == (ms@[k].0@, ms@[k].1@),
                        ops_view(ops@) == start + item_operations(path@, mv.subrange(0, j as int)),
                    decreases ms.len() - j,
                {
                    let key = ms[j].0.as_str();
                    proof {
                        assert(mv.subrange(0, j + 1).drop_last() =~= mv.subrange(0, j as int));
                        assert(mv.subrange(0, j + 1).last() == mv[j as int]);
                    }
                    let low = to_lowercase(key);
                    if http_method_key(low.as_str()) {
                        let op = read_operation(path, key, &ms[j].1);
                        let ghost before = ops@;
                        ops.push(op);
                        assert(ops_view(ops@) =~= ops_view(before).push(op@));
                    }
                    j = j + 1;
                }
                assert(mv.subrange(0, mv.len() as int) =~= mv);
            },
            _ => {},
        }
        i = i + 1;
    }
    assert(pv.subrange(0, pv.len() as int) =~= pv);
    Ok(ops)
}

/// The first operation with method `m` and path `p`.
pub open spec fn first_operation(ops: Seq<OpV>, m: Seq<char>, p: Seq<char>) -> Option<OpV>
    decreases ops.len(),
{
    if ops.len() == 0 {
        None
    } else if ops[0].method == m && ops[0].path == p {
        Some(ops[0])
    } else {
        first_operation(ops.drop_first(), m, p)
    }
}

/// Finds an operation by HTTP method (case-insensitive) and path template.
pub fn find_by_method_path(doc: &Json, method: &str, path: &str) -> (r: Result<Option<Operation>, SpecError>)
    ensures
        r is Ok <==> spec_operations(doc@) is Some,
        r matches Ok(found) ==> match found {
            Some(op) => first_operation(spec_operations(doc@).unwrap(), uppercase_of(method@), path@)
                == Some(op@),
            None => first_operation(spec_operations(doc@).unwrap(), uppercase_of(method@), path@) is None,
        },
{
    let want = to_uppercase(method);
    let ops = operations(doc)?;
    let ghost all = ops_view(ops@);
    assert(all.skip(0) =~= all);
    let mut i: usize = 0;
    while i < ops.len()
        invariant
            i <= ops@.len(),
            all == ops_view(ops@),
            Some(all) == spec_operations(doc@),
            want@ == uppercase_of(method@),
            first_operation(all, want@, path@) == first_operation(all.skip(i as int), want@, path@),
        decreases ops.len() - i,
    {
        proof {
            assert(all.skip(i as int).drop_first() =~= all.skip(i + 1));
            assert(all.skip(i as int)[0] == ops@[i as int]@);
        }
        if str_eq(ops[i].method.as_str(), want.as_str()) && str_eq(ops[i].path.as_str(), path) {
            return Ok(Some(ops[i].copy()));
        }
        i = i + 1;
    }
    proof {
        assert(all.skip(i as int).len() == 0);
    }
    Ok(None)
}

/// Every tag of every operation, in order, with repetitions.
pub open spec fn all_tags(ops: Seq<OpV>) -> Seq<Seq<char>>
    decreases ops.len(),
{
    if ops.len() == 0 {
        Seq::empty()
    } else {
        all_tags(ops.drop_last()) + ops.last().tags
    }
}

/// Strictly increasing in lexicographic order (so free of repetitions).
pub open spec fn strictly_sorted(v: Seq<Seq<char>>) -> bool {
    forall|i: int, j: int| 0 <= i < j < v.len() ==> seq_lt(#[trigger] v[i], #[trigger] v[j])
}

/// Whether the entry at `pos` comes before `t`.
fn before_at(list: &Vec<String>, pos: usize, t: &Vec<char>) -> (r: bool)
    requires
        pos < list@.len(),
    ensures
        r == seq_lt(strs(list@)[pos as int], t@),
{
    let cur = chars_of(list[pos].as_str());
    chars_lt(cur.as_slice(), t.as_slice())
}

/// Inserts `t` into a strictly sorted list unless it is already there.
fn insert_sorted(list: &mut Vec<String>, t: &str)
    requires
        strictly_sorted(strs(old(list)@)),
    ensures
        strictly_sorted(strs(final(list)@)),
        forall|x: Seq<char>| #[trigger] strs(final(list)@).contains(x) <==> (strs(old(list)@).contains(x) || x == t@),
{
    let tc = chars_of(t);
    let ghost l0 = strs(list@);
    let mut pos: usize = 0;
    while pos < list.len() && before_at(list, pos, &tc)
        invariant
            pos <= list@.len(),
            list@ == old(list)@,
            l0 == strs(list@),
            tc@ == t@,
            strictly_sorted(l0),
            forall|k: int| 0 <= k < pos ==> seq_lt(#[trigger] l0[k], t@),
        decreases list.len() - pos,
    {
        pos = pos + 1;
    }
    if pos < list.len() {
        let cur = chars_of(list[pos].as_str());
        assert(l0[pos as int] == cur@);
        if !chars_lt(tc.as_slice(), cur.as_slice()) {
            proof {
                lemma_seq_lt_total(cur@, t@);
                assert(l0[pos as int] == t@);
                assert forall|x: Seq<char>| #[trigger] strs(list@).contains(x) <==> (l0.contains(x) || x == t@) by {
                    if x == t@ {
                        assert(l0[pos as int] == x);
                    }
                }
            }
            return;
        }
    }
    proof {
        if pos < list@.len() {
            assert(seq_lt(t@, l0[pos as int])) by {
                let cur = list@[pos as int]@;
                assert(l0[pos as int] == cur);
                lemma_seq_lt_total(cur, t@);
            }
        }
    }
    list.insert(pos, t.to_string());
    proof {
        let l1 = strs(list@);
        assert(l1 =~= l0.insert(pos as int, t@));
        assert forall|i: int, j: int| 0 <= i < j < l1.len() implies seq_lt(#[trigger] l1[i], #[trigger] l1[j]) by {
            if j < pos {
                assert(l1[i] == l0[i] && l1[j] == l0[j]);
            } else if j == pos {
                assert(l1[i] == l0[i]);
            } else if i == pos {
                assert(l1[j] == l0[j - 1]);
                if j - 1 > pos {
                    assert(seq_lt(l0[pos as int], l0[j - 1]));
                    lemma_seq_lt_trans(t@, l0[pos as int], l0[j - 1]);
                }
            } else if i < pos {
                assert(l1[i] == l0[i] && l1[j] == l0[j - 1]);
                if j - 1 == pos {
                    lemma_seq_lt_trans(l0[i], t@, l0[j - 1]);
                } else {
                    assert(seq_lt(l0[i], l0[j - 1]));
                }
            } else {
                assert(l1[i] == l0[i - 1] && l1[j] == l0[j - 1]);
            }
        }
        assert forall|x: Seq<char>| #[trigger] l1.contains(x) <==> (l0.contains(x) || x == t@) by {
            if l1.contains(x) {
                let k = choose|k: int| 0 <= k < l1.len() && l1[k] == x;
                if k < pos {
                    assert(l0[k] == x);
                } else if k > pos {
                    assert(l0[k - 1] == x);
                }
            }
            if l0.contains(x) {
                let k = choose|k: int| 0 <= k < l0.len() && l0[k] == x;
                if k < pos {
                    assert(l1[k] == x);
                } else {
                    assert(l1[k + 1] == x);
                }
            }
            if x == t@ {
                assert(l1[pos as int] == x);
            }
        }
    }
}

/// The distinct operation-level tags, sorted. Sourced from the operations
/// themselves, not from the document's top-level tag list.
pub fn operation_tags(doc: &Json) -> (r: Result<Vec<String>, SpecError>)
    ensures
        r is Ok <==> spec_operations(doc@) is Some,
        r matches Ok(tags) ==> {
            &&& strictly_sorted(strs(tags@))
            &&& forall|x: Seq<char>| #[trigger] strs(tags@).contains(x) <==> all_tags(spec_operations(doc@).unwrap()).contains(x)
        },
{
    let ops = operations(doc)?;
    let ghost all = ops_view(ops@);
    let mut tags: Vec<String> = Vec::new();
    let mut i: usize = 0;
    while i < ops.len()
        invariant
            i <= ops@.len(),
            all == ops_view(ops@),
            strictly_sorted(strs(tags@)),
            forall|x: Seq<char>| #[trigger] strs(tags@).contains(x) <==> all_tags(all.subrange(0, i as int)).contains(x),
        decreases ops.len() - i,
    {
        let ghost before = all_tags(all.subrange(0, i as int));
        proof {
            assert(all.subrange(0, i + 1).drop_last() =~= all.subrange(0, i as int));
            assert(all.subrange(0, i + 1).last() == ops@[i as int]@);
        }
        let op_tags = &ops[i].tags;
        let mut j: usize = 0;
        while j < op_tags.len()
            invariant
                j <= op_tags@.len(),
                i < ops@.len(),
                *op_tags == ops@[i as int].tags,
                strictly_sorted(strs(tags@)),
                forall|x: Seq<char>| #[trigger] strs(tags@).contains(x) <==> (before.contains(x) || strs(op_tags@).subrange(0, j as int).contains(x)),
            decreases op_tags.len() - j,
        {
            let ghost prev = strs(tags@);
            insert_sorted(&mut tags, op_tags[j].as_str());
            proof {
                let sj = strs(op_tags@).subrange(0, j + 1);
                assert(sj =~= strs(op_tags@).subrange(0, j as int).push(op_tags@[j as int]@));
                assert forall|x: Seq<char>| #[trigger] strs(tags@).contains(x) <==> (before.contains(x) || sj.contains(x)) by {
                    if sj.contains(x) && x != op_tags@[j as int]@ {
                        let k = choose|k: int| 0 <= k < sj.len() && sj[k] == x;
                        assert(strs(op_tags@).subrange(0, j as int)[k] == x);
                    }
                    if strs(op_tags@).subrange(0, j as int).contains(x) {
                        let k = choose|k: int| 0 <= k < j && strs(op_tags@).subrange(0, j as int)[k] == x;
                        assert(sj[k] == x);
                    }
                    if x == op_tags@[j as int]@ {
                        assert(sj[j as int] == x);
                    }
                }
            }
            j = j + 1;
        }
        proof {
            let nt = all_tags(all.subrange(0, i + 1));
            assert(strs(op_tags@).subrange(0, op_tags@.len() as int) =~= all.subrange(0, i + 1).last().tags);
            assert(nt =~= before + all.subrange(0, i + 1).last().tags);
            assert forall|x: Seq<char>| #[trigger] strs(tags@).contains(x) <==> nt.contains(x) by {
                let ot = all.subrange(0, i + 1).last().tags;
                if nt.contains(x) {
                    let k = choose|k: int| 0 <= k < nt.len() && nt[k] == x;
                    if k < before.len() {
                        assert(before[k] == x);
                    } else {
                        assert(ot[k - before.len()] == x);
                    }
                }
                if before.contains(x) {
                    let k = choose|k: int| 0 <= k < before.len() && before[k] == x;
                    assert(nt[k] == x);
                }
                if ot.contains(x) {
                    let k = choose|k: int| 0 <= k < ot.len() && ot[k] == x;
                    assert(nt[before.len() + k] == x);
                }
            }
        }
        i = i + 1;
    }
    assert(all.subrange(0, all.len() as int) =~= all);
    Ok(tags)
}

// ---------------------------------------------------------------------------
// Request-body skeletons
// ---------------------------------------------------------------------------

/// Bound on `$ref` / `allOf` / nested-object recursion when building a
/// skeleton: deep enough for real request bodies, shallow enough to stay
/// legible and cycle-safe.
pub const MAX_DEPTH: u32 = 6;

/// The schema a `{ "$ref": "#/..." }` points to inside the document.
pub open spec fn ref_target(doc: JsonV, schema: JsonV) -> Option<JsonV> {
    match member_str(schema, "$ref"@) {
        Some(r) => if r.len() > 0 && r[0] == '#' {
            resolve_pointer(doc, r.drop_first())
        } else {
            None
        },
        None => None,
    }
}

/// The members of `f` inserted, in order, into `m`.
pub open spec fn map_extend(m: Seq<(Seq<char>, JsonV)>, f: Seq<(Seq<char>, JsonV)>) -> Seq<(Seq<char>, JsonV)>
    decreases f.len(),
{
    if f.len() == 0 {
        m
    } else {
        map_insert(map_extend(m, f.drop_last()), f.last().0, f.last().1)
    }
}

/// The first element of an array member, if the member is a non-empty
/// array.
pub open spec fn first_of(schema: JsonV, key: Seq<char>) -> Option<JsonV> {
    match member_array(schema, key) {
        Some(a) => if a.len() > 0 {
            Some(a[0])
        } else {
            None
        },
        None => None,
    }
}

/// Whether a property advertises its own `example` or `default`.
pub open spec fn has_hint(prop: JsonV) -> bool {
    member(prop, "example"@) is Some || member(prop, "default"@) is Some
}

/// The skeleton of a schema node at `depth`: a direct `example` or
/// `default`; else the target of a `$ref`; else the merge of `allOf`; else
/// the first `oneOf` / `anyOf` variant; else the first `enum` value; else a
/// placeholder by `type` (objects and arrays recurse). Past `MAX_DEPTH` the
/// skeleton is `null`.
pub open spec fn skeleton(doc: JsonV, schema: JsonV, depth: nat) -> JsonV
    decreases (MAX_DEPTH + 1) - depth, 1int,
{
    if depth > MAX_DEPTH {
        JsonV::Null
    } else {
        match member(schema, "example"@) {
            Some(e) => e,
            None => match member(schema, "default"@) {
                Some(d) => d,
                None => match ref_target(doc, schema) {
                    Some(t) => skeleton(doc, t, depth + 1),
                    None => match member_array(schema, "allOf"@) {
                        Some(ms) => allof_result(allof_fold(doc, ms, depth + 1)),
                        None => match first_of(schema, "oneOf"@) {
                            Some(v) => skeleton(doc, v, depth + 1),
                            None => match first_of(schema, "anyOf"@) {
                                Some(v) => skeleton(doc, v, depth + 1),
                                None => match first_of(schema, "enum"@) {
                                    Some(v) => v,
                                    None => typed_skeleton(doc, schema, depth),
                                },
                            },
                        },
                    },
                },
            },
        }
    }
}

/// The placeholder a schema's `type` calls for.
pub open spec fn typed_skeleton(doc: JsonV, schema: JsonV, depth: nat) -> JsonV
    decreases (MAX_DEPTH + 1) - depth, 0int,
{
    if depth > MAX_DEPTH {
        JsonV::Null
    } else {
        let t = member_str(schema, "type"@);
        if t == Some("object"@) {
            JsonV::Object(object_fold(doc, required_names(schema), properties_of(schema), depth + 1))
        } else if t == Some("array"@) {
            match member(schema, "items"@) {
                Some(it) => JsonV::Array(seq![skeleton(doc, it, depth + 1)]),
                None => JsonV::Array(Seq::empty()),
            }
        } else if t == Some("string"@) {
            JsonV::Str("string"@)
        } else if t == Some("integer"@) || t == Some("number"@) {
            JsonV::Number("0"@)
        } else if t == Some("boolean"@) {
            JsonV::Bool(false)
        } else if member(schema, "properties"@) is Some {
            JsonV::Object(object_fold(doc, required_names(schema), properties_of(schema), depth + 1))
        } else {
            JsonV::Null
        }
    }
}

/// The merged members and the last non-object value of `allOf` members
/// built at depth `d`.
pub open spec fn allof_fold(doc: JsonV, ms: Seq<JsonV>, d: nat) -> (Seq<(Seq<char>, JsonV)>, Option<JsonV>)
    decreases (MAX_DEPTH + 1) - d, ms.len() + 1,
{
    if ms.len() == 0 || d > MAX_DEPTH + 1 {
        (Seq::empty(), None)
    } else {
        let prev = allof_fold(doc, ms.drop_last(), d);
        match skeleton(doc, ms.last(), d) {
            JsonV::Object(f) => (map_extend(prev.0, f), prev.1),
            other => (prev.0, Some(other)),
        }
    }
}

/// An `allOf` skeleton: the merged object, or (when no member gave any
/// object members) the last non-object value, or `null`.
pub open spec fn allof_result(st: (Seq<(Seq<char>, JsonV)>, Option<JsonV>)) -> JsonV {
    if st.0.len() == 0 {
        match st.1 {
            Some(v) => v,
            None => JsonV::Null,
        }
    } else {
        JsonV::Object(st.0)
    }
}

/// The names listed under `required` (string entries only).
pub open spec fn required_names(schema: JsonV) -> Seq<Seq<char>> {
    match member_array(schema, "required"@) {
        Some(a) => string_items(a),
        None => Seq::empty(),
    }
}

/// The members of `properties` when it is an object.
pub open spec fn properties_of(schema: JsonV) -> Seq<(Seq<char>, JsonV)> {
    match member(schema, "properties"@) {
        Some(JsonV::Object(ps)) => ps,
        _ => Seq::empty(),
    }
}

/// An object skeleton's members: every required property and every
/// property with its own example or default, built at depth `d`.
pub open spec fn object_fold(
    doc: JsonV,
    required: Seq<Seq<char>>,
    props: Seq<(Seq<char>, JsonV)>,
    d: nat,
) -> Seq<(Seq<char>, JsonV)>
    decreases (MAX_DEPTH + 1) - d, props.len() + 1,
{
    if props.len() == 0 || d > MAX_DEPTH + 1 {
        Seq::empty()
    } else {
        let prev = object_fold(doc, required, props.drop_last(), d);
        let (name, prop) = props.last();
        if required.contains(name) || has_hint(prop) {
            map_insert(prev, name, skeleton(doc, prop, d))
        } else {
            prev
        }
    }
}

/// The first element of the array member `key`, when it is a non-empty
/// array.
fn first_element<'a>(schema: &'a Json, key: &str) -> (r: Option<&'a Json>)
    ensures
        match first_of(schema@, key@) {
            Some(v) => r matches Some(x) && x@ == v,
            None => r is None,
        },
{
    match schema.get(key) {
        Some(a) => match a.as_array() {
            Some(arr) => {
                proof {
                    lemma_items_view(arr@);
                }
                if arr.len() > 0 {
                    Some(&arr[0])
                } else {
                    None
                }
            },
            None => None,
        },
        None => None,
    }
}

/// Follows a `$ref` inside the document.
fn follow_ref<'a>(doc: &'a Json, schema: &Json) -> (r: Option<&'a Json>)
    ensures
        match ref_target(doc@, schema@) {
            Some(v) => r matches Some(x) && x@ == v,
            None => r is None,
        },
{
    let reference = match schema.get("$ref") {
        Some(x) => match x.as_str() {
            Some(t) => t,
            None => {
                return None;
            },
        },
        None => {
            return None;
        },
    };
    let rc = chars_of(reference);
    if rc.len() == 0 || rc[0] != '#' {
        return None;
    }
    let rest = crate::text::string_from_chars(&rc.as_slice()[1..rc.len()]);
    assert(rc@.subrange(1, rc@.len() as int) =~= reference@.drop_first());
    pointer(doc, rest.as_str())
}

/// Builds the skeleton of a schema node (see `skeleton`).
pub fn build_skeleton(doc: &Json, schema: &Json, depth: u32) -> (r: Json)
    ensures
        r@ == skeleton(doc@, schema@, depth as nat),
    decreases (MAX_DEPTH + 1) - depth, 1int,
{
    if depth > MAX_DEPTH {
        return Json::Null;
    }
    if let Some(e) = schema.get("example") {
        return e.copy();
    }
    if let Some(d) = schema.get("default") {
        return d.copy();
    }
    if let Some(t) = follow_ref(doc, schema) {
        return build_skeleton(doc, t, depth + 1);
    }
    if let Some(a) = schema.get("allOf") {
        if let Some(members) = a.as_array() {
            return build_allof(doc, members, depth + 1);
        }
    }
    if let Some(v) = first_element(schema, "oneOf") {
        return build_skeleton(doc, v, depth + 1);
    }
    if let Some(v) = first_element(schema, "anyOf") {
        return build_skeleton(doc, v, depth + 1);
    }
    if let Some(v) = first_element(schema, "enum") {
        return v.copy();
    }
    build_typed(doc, schema, depth)
}

/// Builds the placeholder a schema's `type` calls for.
fn build_typed(doc: &Json, schema: &Json, depth: u32) -> (r: Json)
    requires
        depth <= MAX_DEPTH,
    ensures
        r@ == typed_skeleton(doc@, schema@, depth as nat),
    decreases (MAX_DEPTH + 1) - depth, 0int,
{
    let t: Option<&str> = match schema.get("type") {
        Some(x) => x.as_str(),
        None => None,
    };
    let is_type = |name: &str| -> (b: bool)
        ensures
            b == (t matches Some(s) && s@ == name@),
        {
            match t {
                Some(s) => str_eq(s, name),
                None => false,
            }
        };
    if is_type("object") {
        assert(member_str(schema@, "type"@) == Some("object"@));
        return Json::Object(build_object(doc, schema, depth + 1));
    }
    if is_type("array") {
        assert(member_str(schema@, "type"@) == Some("array"@));
        return match schema.get("items") {
            Some(it) => {
                let mut v: Vec<Json> = Vec::new();
                v.push(build_skeleton(doc, it, depth + 1));
                proof {
                    lemma_items_view(v@);
                    assert(items_view(v@) =~= seq![skeleton(doc@, it@, (depth + 1) as nat)]);
                }
                Json::Array(v)
            },
            None => {
                let v: Vec<Json> = Vec::new();
                assert(items_view(v@) =~= Seq::<JsonV>::empty());
                Json::Array(v)
            },
        };
    }
    if is_type("string") {
        assert(member_str(schema@, "type"@) == Some("string"@));
        return Json::Str("string".to_string());
    }
    if is_type("integer") || is_type("number") {
        assert(member_str(schema@, "type"@) == Some("integer"@) || member_str(schema@, "type"@) == Some(
            "number"@,
        ));
        return Json::Number("0".to_string());
    }
    if is_type("boolean") {
        assert(member_str(schema@, "type"@) == Some("boolean"@));
        return Json::Bool(false);
    }
    if schema.get("properties").is_some() {
        return Json::Object(build_object(doc, schema, depth + 1));
    }
    Json::Null
}

/// Merges the skeletons of `allOf` members built at depth `d`.
fn build_allof(doc: &Json, members: &Vec<Json>, d: u32) -> (r: Json)
    requires
        d <= MAX_DEPTH + 1,
    ensures
        r@ == allof_result(allof_fold(doc@, items_view(members@), d as nat)),
    decreases (MAX_DEPTH + 1) - d, 2int,
{
    let ghost mv = items_view(members@);
    proof {
        lemma_items_view(members@);
    }
    let mut merged: Vec<(String, Json)> = Vec::new();
    let mut scalar: Option<Json> = None;
    let mut i: usize = 0;
    assert(mv.subrange(0, 0) =~= Seq::<JsonV>::empty());
    assert(fields_view(merged@) =~= Seq::<(Seq<char>, JsonV)>::empty());
    while i < members.len()
        invariant
            i <= members@.len(),
            d <= MAX_DEPTH + 1,
            mv == items_view(members@),
            mv.len() == members@.len(),
            forall|k: int| 0 <= k < members@.len() ==> #[trigger] mv[k] == members@[k]@,
            fields_view(merged@) == allof_fold(doc@, mv.subrange(0, i as int), d as nat).0,
            (match scalar {
                Some(x) => Some(x@),
                None => None,
            }) == allof_fold(doc@, mv.subrange(0, i as int), d as nat).1,
        decreases members.len() - i,
    {
        proof {
            assert(mv.subrange(0, i + 1).drop_last() =~= mv.subrange(0, i as int));
            assert(mv.subrange(0, i + 1).last() == members@[i as int]@);
        }
        let built = build_skeleton(doc, &members[i], d);
        match built {
            Json::Object(f) => {
                let ghost fv = fields_view(f@);
                proof {
                    lemma_fields_view(f@);
                    assert(fv.subrange(0, 0) =~= Seq::<(Seq<char>, JsonV)>::empty());
                }
                let ghost start = fields_view(merged@);
                for pair in iter: f
                    invariant
                        iter.seq() == f@,
                        fv == fields_view(f@),
                        fv.len() == f@.len(),
                        forall|k: int| 0 <= k < f@.len() ==> #[trigger] fv[k] == (f@[k].0@, f@[k].1@),
                        fields_view(merged@) == map_extend(start, fv.subrange(0, iter.index() as int)),
                {
                    let ghost idx = iter.index();
                    proof {
                        assert(fv.subrange(0, idx + 1).drop_last() =~= fv.subrange(0, idx as int));
                        assert(fv.subrange(0, idx + 1).last() == fv[idx as int]);
                        assert(pair == f@[idx as int]);
                    }
                    let (k, v) = pair;
                    insert_member(&mut merged, k, v);
                }
                assert(fv.subrange(0, fv.len() as int) =~= fv);
            },
            other => {
                scalar = Some(other);
            },
        }
        i = i + 1;
    }
    assert(mv.subrange(0, mv.len() as int) =~= mv);
    if merged.len() == 0 {
        proof {
            lemma_fields_view(merged@);
        }
        match scalar {
            Some(x) => x,
            None => Json::Null,
        }
    } else {
        proof {
            lemma_fields_view(merged@);
        }
        Json::Object(merged)
    }
}

/// Builds an object skeleton's members at depth `d` (see `object_fold`).
fn build_object(doc: &Json, schema: &Json, d: u32) -> (r: Vec<(String, Json)>)
    requires
        d <= MAX_DEPTH + 1,
    ensures
        fields_view(r@) == object_fold(doc@, required_names(schema@), properties_of(schema@), d as nat),
    decreases (MAX_DEPTH + 1) - d, 2int,
{
    let required: Vec<String> = match schema.get("required") {
        Some(a) => match a.as_array() {
            Some(arr) => string_elements(arr),
            None => Vec::new(),
        },
        None => Vec::new(),
    };
    let ghost req = required_names(schema@);
    assert(strs(required@) == req);
    let mut out: Vec<(String, Json)> = Vec::new();
    assert(fields_view(out@) =~= Seq::<(Seq<char>, JsonV)>::empty());
    let props: &Vec<(String, Json)> = match schema.get("properties") {
        Some(p) => match p {
            Json::Object(ps) => ps,
            _ => {
                return out;
            },
        },
        None => {
            return out;
        },
    };
    let ghost pv = fields_view(props@);
    proof {
        lemma_fields_view(props@);
        assert(pv == properties_of(schema@));
        assert(pv.subrange(0, 0) =~= Seq::<(Seq<char>, JsonV)>::empty());
    }
    let mut i: usize = 0;
    while i < props.len()
        invariant
            i <= props@.len(),
            d <= MAX_DEPTH + 1,
            pv == fields_view(props@),
            pv.len() == props@.len(),
            forall|k: int| 0 <= k < props@.len() ==> #[trigger] pv[k] == (props@[k].0@, props@[k].1@),
            strs(required@) == req,
            fields_view(out@) == object_fold(doc@, req, pv.subrange(0, i as int), d as nat),
        decreases props.len() - i,
    {
        let name = props[i].0.as_str();
        let prop = &props[i].1;
        proof {
            assert(pv.subrange(0, i + 1).drop_last() =~= pv.subrange(0, i as int));
            assert(pv.subrange(0, i + 1).last() == pv[i as int]);
        }
        let mut is_required = false;
        let mut j: usize = 0;
        while j < required.len()
            invariant
                j <= required@.len(),
                strs(required@) == req,
                is_required == strs(required@).subrange(0, j as int).contains(name@),
            decreases required.len() - j,
        {
            proof {
                assert(strs(required@).subrange(0, j + 1) =~= strs(required@).subrange(0, j as int).push(
                    required@[j as int]@,
                ));
            }
            let hit = str_eq(required[j].as_str(), name);
            proof {
                let a = strs(required@).subrange(0, j as int);
                let b = strs(required@).subrange(0, j + 1);
                assert(b[j as int] == required@[j as int]@);
                if a.contains(name@) {
                    let k = choose|k: int| 0 <= k < a.len() && a[k] == name@;
                    assert(b[k] == name@);
                }
                if b.contains(name@) && !hit {
                    let k = choose|k: int| 0 <= k < b.len() && b[k] == name@;
                    assert(a[k] == name@);
                }
            }
            if hit {
                is_required = true;
            }
            j = j + 1;
        }
        assert(strs(required@).subrange(0, required@.len() as int) =~= req);
        let hinted = prop.get("example").is_some() || prop.get("default").is_some();
        if is_required || hinted {
            let built = build_skeleton(doc, prop, d);
            insert_member(&mut out, name.to_string(), built);
        }
        i = i + 1;
    }
    assert(pv.subrange(0, pv.len() as int) =~= pv);
    out
}

/// The `application/json` request-body schema of the operation `method` on
/// `path`, if it has one.
pub open spec fn request_schema(doc: JsonV, method: Seq<char>, path: Seq<char>) -> Option<JsonV> {
    match member(doc, "paths"@) {
        Some(ps) => match member(ps, path) {
            Some(item) => match member(item, lowercase_of(method)) {
                Some(op) => match member(op, "requestBody"@) {
                    Some(rb) => match member(rb, "content"@) {
                        Some(c) => match member(c, "application/json"@) {
                            Some(j) => member(j, "schema"@),
                            None => None,
                        },
                        None => None,
                    },
                    None => None,
                },
                None => None,
            },
            None => None,
        },
        None => None,
    }
}

/// The `--example` text of an operation: its request-body skeleton as
/// pretty JSON followed by a newline; `None` when the operation has no JSON
/// request body (a GET, a multipart upload, or no such operation).
pub open spec fn example_text(doc: JsonV, method: Seq<char>, path: Seq<char>) -> Option<Seq<char>> {
    match request_schema(doc, method, path) {
        Some(schema) => Some(crate::json_text::pretty(skeleton(doc, schema, 0), 0) + seq!['\n']),
        None => None,
    }
}

/// Finds the JSON request-body schema of an operation.
fn find_request_schema<'a>(doc: &'a Json, method: &str, path: &str) -> (r: Option<&'a Json>)
    ensures
        match request_schema(doc@, method@, path@) {
            Some(v) => r matches Some(x) && x@ == v,
            None => r is None,
        },
{
    let want = to_lowercase(method);
    let ps = doc.get("paths")?;
    let item = ps.get(path)?;
    let op = item.get(want.as_str())?;
    let rb = op.get("requestBody")?;
    let c = rb.get("content")?;
    let j = c.get("application/json")?;
    j.get("schema")
}

/// Generates the `--example` request-body skeleton of the operation
/// `method` (any case) on the path template `path`.
pub fn example_for_operation(doc: &Json, method: &str, path: &str) -> (r: Option<String>)
    ensures
        match example_text(doc@, method@, path@) {
            Some(t) => r matches Some(s) && s@ == t,
            None => r is None,
        },
{
    let schema = find_request_schema(doc, method, path)?;
    let skel = build_skeleton(doc, schema, 0);
    let mut text = crate::json_text::to_pretty(&skel);
    crate::text::push_char(&mut text, '\n');
    Some(text)
}

/// Why an `--example` skeleton could not be produced.
#[derive(Debug)]
pub enum ExampleError {
    /// The operation exists but has no JSON request body (`method` is
    /// upper-cased).
    NoJsonBody { method: String, path: String },
    /// No operation has this method (upper-cased) and path template.
    UnknownOperation { method: String, path: String },
    /// A curated `--example` names an operation without a JSON request body.
    NoRequestBody { method: String, path: String },
    /// The document has no `paths` object.
    Spec(SpecError),
}

/// The text of an `--example` failure.
pub open spec fn example_error_text(e: ExampleError) -> Seq<char> {
    match e {
        ExampleError::NoJsonBody { method, path } => "`"@ + method@ + " "@ + path@
            + "` has no JSON request body (it may be a GET or a multipart upload)"@,
        ExampleError::UnknownOperation { method, path } => "no operation `"@ + method@ + " "@ + path@
            + "` in the spec; check the method and path template (e.g. /vendors/{id})"@,
        ExampleError::NoRequestBody { method, path } => "operation `"@ + method@ + " "@ + path@
            + "` has no JSON request body"@,
        ExampleError::Spec(_) => "spec has no `paths` object"@,
    }
}

impl ExampleError {
    /// The message shown to the user.
    pub fn message(&self) -> (r: String)
        ensures
            r@ == example_error_text(*self),
    {
        let mut m = String::new();
        match self {
            ExampleError::NoJsonBody { method, path } => {
                push_str(&mut m, "`");
                push_str(&mut m, method.as_str());
                push_str(&mut m, " ");
                push_str(&mut m, path.as_str());
                push_str(&mut m, "` has no JSON request body (it may be a GET or a multipart upload)");
            },
            ExampleError::UnknownOperation { method, path } => {
                push_str(&mut m, "no operation `");
                push_str(&mut m, method.as_str());
                push_str(&mut m, " ");
                push_str(&mut m, path.as_str());
                push_str(&mut m, "` in the spec; check the method and path template (e.g. /vendors/{id})");
            },
            ExampleError::NoRequestBody { method, path } => {
                push_str(&mut m, "operation `");
                push_str(&mut m, method.as_str());
                push_str(&mut m, " ");
                push_str(&mut m, path.as_str());
                push_str(&mut m, "` has no JSON request body");
            },
            ExampleError::Spec(e) => {
                m = e.message();
            },
        }
        m
    }
}

/// The `--example` skeleton of a curated create command: the operation's
/// skeleton, or an error when it has no JSON request body.
pub fn required_example(doc: &Json, method: &str, path: &str) -> (r: Result<String, ExampleError>)
    ensures
        match example_text(doc@, method@, path@) {
            Some(t) => r matches Ok(s) && s@ == t,
            None => r matches Err(ExampleError::NoRequestBody { method: m, path: p }) && m@ == method@
                && p@ == path@,
        },
{
    match example_for_operation(doc, method, path) {
        Some(s) => Ok(s),
        None => Err(ExampleError::NoRequestBody { method: method.to_string(), path: path.to_string() }),
    }
}

/// A schema node that carries none of `example`, `default`, `$ref`,
/// `allOf`, `oneOf`, `anyOf` or `enum`: its skeleton comes from its `type`.
pub open spec fn plain_schema(schema: JsonV) -> bool {
    &&& member(schema, "example"@) is None
    &&& member(schema, "default"@) is None
    &&& member(schema, "$ref"@) is None
    &&& member(schema, "allOf"@) is None
    &&& member(schema, "oneOf"@) is None
    &&& member(schema, "anyOf"@) is None
    &&& member(schema, "enum"@) is None
}

/// An `array` schema with an `items` schema gets a one-element array whose
/// element is the skeleton of the items schema, one level deeper; without
/// `items` it gets an empty array.
pub proof fn lemma_array_skeleton(doc: JsonV, schema: JsonV, depth: nat)
    requires
        depth <= MAX_DEPTH,
        plain_schema(schema),
        member(schema, "type"@) == Some(JsonV::Str("array"@)),
    ensures
        member(schema, "items"@) matches Some(items) ==> skeleton(doc, schema, depth) == JsonV::Array(
            seq![skeleton(doc, items, depth + 1)],
        ),
        member(schema, "items"@) is None ==> skeleton(doc, schema, depth) == JsonV::Array(Seq::empty()),
{
    reveal_strlit("array");
    reveal_strlit("object");
    assert("array"@.len() == 5);
    assert("object"@.len() == 6);
    assert("array"@ != "object"@);
    assert(ref_target(doc, schema) is None);
    assert(member_array(schema, "allOf"@) is None);
    assert(first_of(schema, "oneOf"@) is None);
    assert(first_of(schema, "enum"@) is None);
    assert(skeleton(doc, schema, depth) == typed_skeleton(doc, schema, depth));
    assert(member_str(schema, "type"@) == Some("array"@));
}

/// Scalar placeholders: a `string` schema gets `"string"`, an `integer` or
/// `number` schema gets `0`, a `boolean` schema gets `false`.
pub proof fn lemma_scalar_skeletons(doc: JsonV, schema: JsonV, depth: nat)
    requires
        depth <= MAX_DEPTH,
        plain_schema(schema),
    ensures
        member(schema, "type"@) == Some(JsonV::Str("string"@)) ==> skeleton(doc, schema, depth) == JsonV::Str(
            "string"@,
        ),
        member(schema, "type"@) == Some(JsonV::Str("integer"@)) ==> skeleton(doc, schema, depth) == JsonV::Number(
            "0"@,
        ),
        member(schema, "type"@) == Some(JsonV::Str("number"@)) ==> skeleton(doc, schema, depth) == JsonV::Number(
            "0"@,
        ),
        member(schema, "type"@) == Some(JsonV::Str("boolean"@)) ==> skeleton(doc, schema, depth) == JsonV::Bool(
            false,
        ),
{
    reveal_strlit("array");
    reveal_strlit("object");
    reveal_strlit("string");
    reveal_strlit("integer");
    reveal_strlit("number");
    reveal_strlit("boolean");
    assert(ref_target(doc, schema) is None);
    assert(member_array(schema, "allOf"@) is None);
    assert(first_of(schema, "oneOf"@) is None);
    assert(first_of(schema, "enum"@) is None);
    assert(skeleton(doc, schema, depth) == typed_skeleton(doc, schema, depth));
    assert("array"@.len() == 5 && "array"@[0] == 'a');
    assert("object"@.len() == 6 && "object"@[0] == 'o');
    assert("string"@.len() == 6 && "string"@[0] == 's');
    assert("number"@.len() == 6 && "number"@[0] == 'n');
    assert("integer"@.len() == 7 && "integer"@[0] == 'i');
    assert("boolean"@.len() == 7 && "boolean"@[0] == 'b');
}

/// What a schema node says of itself comes first: past `MAX_DEPTH` the
/// skeleton is `null`; an `example` is used as it is; without one, a
/// `default`; without either, a `$ref` is followed one level deeper.
pub proof fn lemma_skeleton_precedence(doc: JsonV, schema: JsonV, depth: nat)
    ensures
        depth > MAX_DEPTH ==> skeleton(doc, schema, depth) == JsonV::Null,
        depth <= MAX_DEPTH ==> (member(schema, "example"@) matches Some(e) ==> skeleton(doc, schema, depth) == e),
        depth <= MAX_DEPTH ==> (member(schema, "example"@) is None ==> (member(schema, "default"@) matches Some(d)
            ==> skeleton(doc, schema, depth) == d)),
        depth <= MAX_DEPTH ==> (member(schema, "example"@) is None ==> (member(schema, "default"@) is None ==> (
        ref_target(doc, schema) matches Some(t) ==> skeleton(doc, schema, depth) == skeleton(doc, t, depth + 1)))),
{
}

/// An object skeleton, built from properties with distinct names, holds
/// every required property and every property with its own example or
/// default, each as the skeleton of its schema, and no other member.
proof fn lemma_object_fold_members(doc: JsonV, req: Seq<Seq<char>>, props: Seq<(Seq<char>, JsonV)>, d: nat)
    requires
        d <= MAX_DEPTH + 1,
        forall|i: int, j: int| 0 <= i < j < props.len() ==> props[i].0 != props[j].0,
    ensures
        forall|i: int|
            0 <= i < props.len() && (req.contains(props[i].0) || has_hint(props[i].1)) ==> #[trigger] field_of(
                object_fold(doc, req, props, d),
                props[i].0,
            ) == Some(skeleton(doc, props[i].1, d)),
        forall|n: Seq<char>|
            (forall|i: int| 0 <= i < props.len() && props[i].0 == n ==> !(req.contains(n) || has_hint(props[i].1)))
                ==> #[trigger] field_of(object_fold(doc, req, props, d), n) is None,
    decreases props.len(),
{
    if props.len() == 0 {
        assert forall|n: Seq<char>| #[trigger] field_of(object_fold(doc, req, props, d), n) is None by {
            assert(object_fold(doc, req, props, d) == Seq::<(Seq<char>, JsonV)>::empty());
        }
    } else {
        let init = props.drop_last();
        lemma_object_fold_members(doc, req, init, d);
        let prev = object_fold(doc, req, init, d);
        let (name, prop) = props.last();
        let last = props.len() - 1;
        let keep = req.contains(name) || has_hint(prop);
        assert forall|i: int|
            0 <= i < props.len() && (req.contains(props[i].0) || has_hint(props[i].1)) implies #[trigger] field_of(
                object_fold(doc, req, props, d),
                props[i].0,
            ) == Some(skeleton(doc, props[i].1, d)) by {
            if keep {
                lemma_field_of_insert(prev, name, skeleton(doc, prop, d), props[i].0);
            }
            if i < last {
                assert(init[i] == props[i]);
            }
        }
        assert forall|n: Seq<char>|
            (forall|i: int| 0 <= i < props.len() && props[i].0 == n ==> !(req.contains(n) || has_hint(props[i].1)))
                implies #[trigger] field_of(object_fold(doc, req, props, d), n) is None by {
            if keep {
                lemma_field_of_insert(prev, name, skeleton(doc, prop, d), n);
            }
            assert forall|i: int| 0 <= i < init.len() && init[i].0 == n implies !(req.contains(n) || has_hint(init[i].1)) by {
                assert(init[i] == props[i]);
            }
        }
    }
}

/// An `object` schema whose properties have distinct names gets an object
/// skeleton holding every required property and every property with its own
/// example or default, each as the skeleton of its schema one level deeper,
/// and no other member (an optional property without a hint is left out).
pub proof fn lemma_object_skeleton(doc: JsonV, schema: JsonV, depth: nat)
    requires
        depth <= MAX_DEPTH,
        plain_schema(schema),
        member(schema, "type"@) == Some(JsonV::Str("object"@)),
        forall|i: int, j: int|
            0 <= i < j < properties_of(schema).len() ==> properties_of(schema)[i].0 != properties_of(schema)[j].0,
    ensures
        skeleton(doc, schema, depth) matches JsonV::Object(f) && ({
            let ps = properties_of(schema);
            let req = required_names(schema);
            &&& forall|i: int|
                0 <= i < ps.len() && (req.contains(ps[i].0) || has_hint(ps[i].1)) ==> #[trigger] field_of(f, ps[i].0)
                    == Some(skeleton(doc, ps[i].1, depth + 1))
            &&& forall|n: Seq<char>|
                (forall|i: int| 0 <= i < ps.len() && ps[i].0 == n ==> !(req.contains(n) || has_hint(ps[i].1)))
                    ==> #[trigger] field_of(f, n) is None
        }),
{
    reveal_strlit("object");
    assert(ref_target(doc, schema) is None);
    assert(member_array(schema, "allOf"@) is None);
    assert(first_of(schema, "oneOf"@) is None);
    assert(first_of(schema, "enum"@) is None);
    assert(skeleton(doc, schema, depth) == typed_skeleton(doc, schema, depth));
    assert(member_str(schema, "type"@) == Some("object"@));
    lemma_object_fold_members(doc, required_names(schema), properties_of(schema), depth + 1);
}

} // verus!
