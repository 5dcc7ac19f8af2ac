//! The curated resource commands. Each module turns a parsed action into a
//! [`Plan`]: the request(s) the command makes and how its answer is shown.
//! Sending the plan, asking for confirmation and printing are the binary's
//! job; which path, which body and which refusal is decided here.

pub mod asset;
pub mod audit;
pub mod auth;
pub mod company;
pub mod control;
pub mod device;
pub mod event;
pub mod evidence;
pub mod framework;
pub mod monitor;
pub mod personnel;
pub mod policy;
pub mod register;
pub mod risk;
pub mod user;
pub mod vendor;
pub mod workspace;

use vstd::prelude::*;
use crate::client::{fields_text, files_view, Multipart};
use crate::json::{field_of, fields_view, insert_member, lemma_field_of_insert, map_insert, Json, JsonV};
use crate::spec::{example_text, ExampleError};
use crate::text::{decimal, decimal_string, push_str};

verus! {

/// What one resource command asks of the API.
#[derive(Debug)]
pub enum Plan {
    /// GET every page of a list and print `{ "data": [...] }`, keeping the
    /// items whose name matches one of `patterns` (all items when there are
    /// none).
    List { path: String, patterns: Vec<String> },
    /// GET every page of a list and write each item as one NDJSON line.
    Stream { path: String },
    /// One GET; its response is printed.
    Fetch { path: String },
    /// A mutating request with an optional JSON body, sent once confirmed
    /// when `confirm` is set.
    Send { method: String, path: String, body: Option<Json>, confirm: bool },
    /// A mutating request whose body is JSON text given by the user, sent
    /// once confirmed and parsed.
    SendText { method: String, path: String, text: String },
    /// A multipart upload, sent once confirmed.
    Upload { method: String, path: String, form: Multipart },
    /// A write that is confirmed like any other and then refused with
    /// `message`: nothing is sent.
    Refuse { method: String, path: String, message: String },
}

/// The abstract value of a plan.
pub enum PlanV {
    List { path: Seq<char>, patterns: Seq<Seq<char>> },
    Stream { path: Seq<char> },
    Fetch { path: Seq<char> },
    Send { method: Seq<char>, path: Seq<char>, body: Option<JsonV>, confirm: bool },
    SendText { method: Seq<char>, path: Seq<char>, text: Seq<char> },
    Upload {
        method: Seq<char>,
        path: Seq<char>,
        files: Seq<(Seq<char>, Seq<char>)>,
        fields: Seq<(Seq<char>, Seq<char>)>,
    },
    Refuse { method: Seq<char>, path: Seq<char>, message: Seq<char> },
}

/// The characters of each string.
pub open spec fn texts(v: Seq<String>) -> Seq<Seq<char>> {
    v.map_values(|s: String| s@)
}

impl View for Plan {
    type V = PlanV;

    open spec fn view(&self) -> PlanV {
        match self {
            Plan::List { path, patterns } => PlanV::List { path: path@, patterns: texts(patterns@) },
            Plan::Stream { path } => PlanV::Stream { path: path@ },
            Plan::Fetch { path } => PlanV::Fetch { path: path@ },
            Plan::Send { method, path, body, confirm } => PlanV::Send {
                method: method@,
                path: path@,
                body: match body {
                    Some(b) => Some(b@),
                    None => None,
                },
                confirm: *confirm,
            },
            Plan::SendText { method, path, text } => PlanV::SendText { method: method@, path: path@, text: text@ },
            Plan::Upload { method, path, form } => PlanV::Upload {
                method: method@,
                path: path@,
                files: files_view(form.files@),
                fields: fields_text(form.fields@),
            },
            Plan::Refuse { method, path, message } => PlanV::Refuse {
                method: method@,
                path: path@,
                message: message@,
            },
        }
    }
}

/// A command line the API would refuse, caught before anything is sent.
#[derive(Debug)]
pub struct UsageError {
    pub message: String,
}

/// `r` is the planned request `p`, or the refusal with message `p`.
pub open spec fn planned(r: Result<Plan, UsageError>, p: Result<PlanV, Seq<char>>) -> bool {
    match p {
        Ok(v) => r matches Ok(x) && x@ == v,
        Err(m) => r matches Err(e) && e.message@ == m,
    }
}

/// The refusal of a create command that lacks a required value.
pub open spec fn requires_text(cmd: Seq<char>, what: Seq<char>) -> Seq<char> {
    "`drata "@ + cmd + "` requires "@ + what + " (or use --example)"@
}

/// The refusal of `cmd` for want of `what`.
pub fn missing_value(cmd: &str, what: &str) -> (r: UsageError)
    ensures
        r.message@ == requires_text(cmd@, what@),
{
    let mut m = String::new();
    push_str(&mut m, "`drata ");
    push_str(&mut m, cmd);
    push_str(&mut m, "` requires ");
    push_str(&mut m, what);
    push_str(&mut m, " (or use --example)");
    UsageError { message: m }
}

/// `a` followed by `b`.
pub fn cat2(a: &str, b: &str) -> (r: String)
    ensures
        r@ == a@ + b@,
{
    let mut s = String::new();
    push_str(&mut s, a);
    push_str(&mut s, b);
    s
}

/// `a`, `b` and `c` in a row.
pub fn cat3(a: &str, b: &str, c: &str) -> (r: String)
    ensures
        r@ == a@ + b@ + c@,
{
    let mut s = cat2(a, b);
    push_str(&mut s, c);
    s
}

/// `a`, `b`, `c` and `d` in a row.
pub fn cat4(a: &str, b: &str, c: &str, d: &str) -> (r: String)
    ensures
        r@ == a@ + b@ + c@ + d@,
{
    let mut s = cat3(a, b, c);
    push_str(&mut s, d);
    s
}

/// `a` to `e` in a row.
pub fn cat5(a: &str, b: &str, c: &str, d: &str, e: &str) -> (r: String)
    ensures
        r@ == a@ + b@ + c@ + d@ + e@,
{
    let mut s = cat4(a, b, c, d);
    push_str(&mut s, e);
    s
}

/// The plan of a list command: streamed with `--all`, else buffered.
pub open spec fn list_v(path: Seq<char>, all: bool) -> PlanV {
    if all {
        PlanV::Stream { path }
    } else {
        PlanV::List { path, patterns: Seq::empty() }
    }
}

/// Lists `path`: streamed when `all`, else buffered and printed whole.
pub fn list_plan(path: String, all: bool) -> (r: Plan)
    ensures
        r@ == list_v(path@, all),
{
    if all {
        Plan::Stream { path }
    } else {
        let patterns: Vec<String> = Vec::new();
        assert(texts(patterns@) =~= Seq::<Seq<char>>::empty());
        Plan::List { path, patterns }
    }
}

/// `key: value` set in a key-ordered object when `value` is present.
pub open spec fn put_opt(m: Seq<(Seq<char>, JsonV)>, key: Seq<char>, value: Option<String>) -> Seq<(Seq<char>, JsonV)> {
    match value {
        Some(v) => map_insert(m, key, JsonV::Str(v@)),
        None => m,
    }
}

/// `key: "value"` set in a key-ordered object.
pub open spec fn put_str(m: Seq<(Seq<char>, JsonV)>, key: Seq<char>, value: Seq<char>) -> Seq<(Seq<char>, JsonV)> {
    map_insert(m, key, JsonV::Str(value))
}

/// `key: n` set in a key-ordered object.
pub open spec fn put_u64(m: Seq<(Seq<char>, JsonV)>, key: Seq<char>, n: u64) -> Seq<(Seq<char>, JsonV)> {
    map_insert(m, key, JsonV::Number(decimal(n as nat)))
}

/// The JSON array of some integers.
pub open spec fn u64_items(ids: Seq<u64>) -> Seq<JsonV> {
    ids.map_values(|n: u64| JsonV::Number(decimal(n as nat)))
}

/// Sets `key` to the string `value` in a key-ordered object.
pub fn set_str(m: &mut Vec<(String, Json)>, key: &str, value: &str)
    ensures
        fields_view(final(m)@) == put_str(fields_view(old(m)@), key@, value@),
{
    insert_member(m, key.to_string(), Json::Str(value.to_string()));
}

/// Sets `key` to `value` when it is present; leaves the object as it is
/// otherwise, so that unset fields are not overwritten.
pub fn set_opt(m: &mut Vec<(String, Json)>, key: &str, value: &Option<String>)
    ensures
        fields_view(final(m)@) == put_opt(fields_view(old(m)@), key@, *value),
{
    match value {
        Some(v) => insert_member(m, key.to_string(), Json::Str(v.clone())),
        None => {},
    }
}

/// Sets `key` to the number `n` in a key-ordered object.
pub fn set_u64(m: &mut Vec<(String, Json)>, key: &str, n: u64)
    ensures
        fields_view(final(m)@) == put_u64(fields_view(old(m)@), key@, n),
{
    insert_member(m, key.to_string(), Json::Number(decimal_string(n)));
}

/// The JSON array of `ids`.
pub fn u64_array(ids: &[u64]) -> (r: Json)
    ensures
        r@ == JsonV::Array(u64_items(ids@)),
{
    let mut items: Vec<Json> = Vec::new();
    let mut i: usize = 0;
    while i < ids.len()
        invariant
            i <= ids@.len(),
            crate::json::items_view(items@) == u64_items(ids@).subrange(0, i as int),
        decreases ids.len() - i,
    {
        let ghost before = items@;
        items.push(Json::Number(decimal_string(ids[i])));
        proof {
            crate::json::lemma_items_view(items@);
            assert(items@.drop_last() =~= before);
            assert(u64_items(ids@).subrange(0, i + 1) =~= u64_items(ids@).subrange(0, i as int).push(
                JsonV::Number(decimal(ids@[i as int] as nat)),
            ));
        }
        i = i + 1;
    }
    assert(u64_items(ids@).subrange(0, ids@.len() as int) =~= u64_items(ids@));
    Json::Array(items)
}

/// A write of a JSON object body, confirmed first when `confirm` is set.
pub fn send_object(method: &str, path: String, members: Vec<(String, Json)>, confirm: bool) -> (r: Plan)
    ensures
        r@ == (PlanV::Send {
            method: method@,
            path: path@,
            body: Some(JsonV::Object(fields_view(members@))),
            confirm,
        }),
{
    Plan::Send { method: method.to_string(), path, body: Some(Json::Object(members)), confirm }
}

/// A confirmed write without a body.
pub fn send_empty(method: &str, path: String) -> (r: Plan)
    ensures
        r@ == (PlanV::Send { method: method@, path: path@, body: None, confirm: true }),
{
    Plan::Send { method: method.to_string(), path, body: None, confirm: true }
}

/// The `--example` skeleton of a curated create command: the operation's
/// skeleton, or the refusal of an operation without a JSON request body.
pub open spec fn curated_example(doc: JsonV, method: Seq<char>, path: Seq<char>, r: Result<String, ExampleError>) -> bool {
    match example_text(doc, method, path) {
        Some(t) => r matches Ok(s) && s@ == t,
        None => r matches Err(ExampleError::NoRequestBody { method: m, path: p }) && m@ == method && p@ == path,
    }
}

/// The optional string a flag sets, as the JSON member it becomes.
pub open spec fn given(value: Option<String>) -> Option<JsonV> {
    match value {
        Some(v) => Some(JsonV::Str(v@)),
        None => None,
    }
}

/// Setting an optional `key` gives that member the flag's string when the
/// flag is given, and leaves every other member as it was.
pub proof fn lemma_put_opt_field(m: Seq<(Seq<char>, JsonV)>, key: Seq<char>, value: Option<String>, q: Seq<char>)
    ensures
        field_of(put_opt(m, key, value), q) == (if q == key && value is Some {
            given(value)
        } else {
            field_of(m, q)
        }),
{
    match value {
        Some(v) => lemma_field_of_insert(m, key, JsonV::Str(v@), q),
        None => {},
    }
}

/// Setting `key` to a string gives that member the string and leaves every
/// other member as it was.
pub proof fn lemma_put_str_field(m: Seq<(Seq<char>, JsonV)>, key: Seq<char>, value: Seq<char>, q: Seq<char>)
    ensures
        field_of(put_str(m, key, value), q) == (if q == key {
            Some(JsonV::Str(value))
        } else {
            field_of(m, q)
        }),
{
    lemma_field_of_insert(m, key, JsonV::Str(value), q);
}

} // verus!
