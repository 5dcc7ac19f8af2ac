//! The disposable live run behind `drata verify`: create a loudly named
//! throwaway vendor (`zzz-clitest-...`), read it back by ID and in the full
//! paginated list, delete it, and confirm it is gone. It never touches a
//! record it did not create, and once the vendor exists any failure deletes
//! it again (best effort) before reporting.
//!
//! The run is a state machine: each step says which request to make, and
//! the binary hands back what came of it.

use vstd::prelude::*;
use crate::json::{member, member_str, Json, JsonV};
use crate::resources::cat2;
use crate::text::push_str;

verus! {

/// The prefix of every throwaway vendor's name: loud, and last in
/// lexicographic order.
pub const TEST_PREFIX: &'static str = "zzz-clitest-";

/// The name of a throwaway vendor with a fresh unique suffix.
pub fn test_name(suffix: &str) -> (r: String)
    ensures
        r@ == TEST_PREFIX@ + suffix@,
{
    cat2(TEST_PREFIX, suffix)
}

/// The outcome of a completed run.
#[derive(Debug)]
pub struct VerifyResult {
    pub vendor_id: Json,
    pub created: bool,
    pub verified_list: bool,
    pub verified_get: bool,
    pub deleted: bool,
    pub verified_deleted: bool,
}

/// Why the run failed.
#[derive(Debug)]
pub enum HarnessError {
    /// The request of a step failed; `context` names the step, `cause` is
    /// the request's own error.
    Step { context: String, cause: String },
    /// The create response's `id` is neither a number nor a string.
    UnexpectedId { id: Json },
    /// The vendor read back by ID has another name.
    NameMismatch { expected: String, got: String },
    /// The vendor is missing from the full list of `scanned` vendors.
    NotListed { name: String, scanned: usize },
    /// An answer that does not belong to the current step.
    OutOfOrder,
}

/// Where the run stands: which request's answer it waits for.
pub enum Harness {
    /// Waiting for `POST /vendors`.
    Creating { name: String },
    /// Waiting for `GET /vendors/{id}`.
    Fetching { name: String, id: String },
    /// Waiting for every page of `GET /vendors`.
    Listing { name: String, id: String },
    /// Waiting for `DELETE /vendors/{id}`.
    Deleting { name: String, id: String },
    /// Waiting for the final `GET /vendors/{id}`.
    Probing { name: String, id: String },
    /// Over.
    Done,
}

/// What came of the last request.
pub enum Event {
    /// It succeeded with this JSON value (the pages' items, for a listing,
    /// come as `Listed`).
    Answered(Json),
    /// Every page of the listing, in order.
    Listed(Vec<Json>),
    /// The final lookup found nothing (HTTP 404).
    NotFound,
    /// It failed; `not_found` when the API answered 404.
    Failed { not_found: bool, message: String },
}

/// The next thing to do.
pub enum Action {
    /// `POST path` with this JSON body.
    Post { path: String, body: Json },
    /// `GET path`.
    Get { path: String },
    /// `GET path`, every page.
    GetAll { path: String },
    /// `DELETE path`.
    Delete { path: String },
    /// `GET path`, where a 404 is an answer, not an error.
    TryGet { path: String },
    /// Delete the throwaway vendor at `path` (its own failure is only
    /// logged), then fail with `error`.
    Cleanup { path: String, error: HarnessError },
    /// The run passed.
    Finish(VerifyResult),
    /// The run failed; nothing is left to clean up.
    Fail(HarnessError),
}

/// The path of the throwaway vendor.
pub open spec fn vendor_path(id: Seq<char>) -> Seq<char> {
    "/vendors/"@ + id
}

/// The ID text of a create response's `id`: a number's text or a string.
pub open spec fn id_text(created: JsonV) -> Option<Seq<char>> {
    match member(created, "id"@) {
        Some(JsonV::Number(n)) => Some(n),
        Some(JsonV::Str(s)) => Some(s),
        _ => None,
    }
}

/// Some item of a listing has the name `name`.
pub open spec fn listed(items: Seq<JsonV>, name: Seq<char>) -> bool {
    exists|i: int| 0 <= i < items.len() && member_str(#[trigger] items[i], "name"@) == Some(name)
}

/// The values of some documents.
pub open spec fn values_of(v: Seq<Json>) -> Seq<JsonV> {
    v.map_values(|j: Json| j@)
}

/// The run's first step: create the throwaway vendor named `name`.
pub fn start(name: String) -> (r: (Harness, Action))
    ensures
        r.0 matches Harness::Creating { name: n } && n@ == name@,
        r.1 matches Action::Post { path, body } && path@ == "/vendors"@ && body@ == JsonV::Object(seq![("name"@, JsonV::Str(name@))]),
{
    let mut body: Vec<(String, Json)> = Vec::new();
    body.push(("name".to_string(), Json::Str(name.clone())));
    proof {
        crate::json::lemma_fields_view(body@);
        assert(crate::json::fields_view(body@) =~= seq![("name"@, JsonV::Str(name@))]);
    }
    (Harness::Creating { name }, Action::Post { path: "/vendors".to_string(), body: Json::Object(body) })
}

/// A failed step's error.
fn step_error(context: &str, message: String) -> (r: HarnessError)
    ensures
        r matches HarnessError::Step { context: c, cause } && c@ == context@ && cause@ == message@,
{
    HarnessError::Step { context: context.to_string(), cause: message }
}

/// The ID of a created vendor.
fn created_id(created: &Json) -> (r: Option<String>)
    ensures
        match id_text(created@) {
            Some(t) => r matches Some(s) && s@ == t,
            None => r is None,
        },
{
    match created.get("id") {
        Some(Json::Number(n)) => Some(n.clone()),
        Some(Json::Str(s)) => Some(s.clone()),
        _ => None,
    }
}

/// Whether an item named `name` is in the listing.
fn find_listed(items: &Vec<Json>, name: &str) -> (r: bool)
    ensures
        r == listed(values_of(items@), name@),
{
    let mut i: usize = 0;
    while i < items.len()
        invariant
            i <= items@.len(),
            forall|k: int| 0 <= k < i ==> member_str(#[trigger] values_of(items@)[k], "name"@) != Some(name@),
        decreases items.len() - i,
    {
        let n = crate::resources::vendor::vendor_name(&items[i]);
        let has = match items[i].get("name") {
            Some(v) => match v.as_str() {
                Some(s) => crate::json::str_eq(s, name),
                None => false,
            },
            None => false,
        };
        if has {
            assert(member_str(values_of(items@)[i as int], "name"@) == Some(name@));
            return true;
        }
        i = i + 1;
    }
    false
}

/// One step of the run: what came of the last request decides the next
/// request, the cleanup, or the verdict.
pub fn step(h: Harness, e: Event) -> (r: (Harness, Action))
    ensures
        match (h, e) {
            (Harness::Creating { name }, Event::Answered(created)) => match id_text(created@) {
                Some(id) => {
                    &&& r.0 matches Harness::Fetching { name: n, id: i } && n@ == name@ && i@ == id
                    &&& r.1 matches Action::Get { path } && path@ == vendor_path(id)
                },
                None => {
                    &&& r.0 is Done
                    &&& r.1 matches Action::Fail(HarnessError::UnexpectedId { id: v }) && v@ == (match member(
                        created@,
                        "id"@,
                    ) {
                        Some(x) => x,
                        None => JsonV::Null,
                    })
                },
            },
            (Harness::Creating { .. }, Event::Failed { message, .. }) => {
                &&& r.0 is Done
                &&& r.1 matches Action::Fail(HarnessError::Step { context, cause })
                    && context@ == "verify step 1 (create) failed"@ && cause@ == message@
            },
            (Harness::Fetching { name, id }, Event::Answered(fetched)) => {
                let got = match member_str(fetched@, "name"@) {
                    Some(s) => s,
                    None => Seq::empty(),
                };
                if got == name@ {
                    &&& r.0 matches Harness::Listing { name: n, id: i } && n@ == name@ && i@ == id@
                    &&& r.1 matches Action::GetAll { path } && path@ == "/vendors"@
                } else {
                    &&& r.0 is Done
                    &&& r.1 matches Action::Cleanup { path, error: HarnessError::NameMismatch { expected, got: g } }
                        && path@ == vendor_path(id@) && expected@ == name@ && g@ == got
                }
            },
            (Harness::Fetching { id, .. }, Event::Failed { message, .. }) => {
                &&& r.0 is Done
                &&& r.1 matches Action::Cleanup { path, error: HarnessError::Step { context, cause } }
                    && path@ == vendor_path(id@) && context@ == "verify step 2a (get by id) failed"@
                    && cause@ == message@
            },
            (Harness::Listing { name, id }, Event::Listed(items)) => if listed(values_of(items@), name@) {
                &&& r.0 matches Harness::Deleting { name: n, id: i } && n@ == name@ && i@ == id@
                &&& r.1 matches Action::Delete { path } && path@ == vendor_path(id@)
            } else {
                &&& r.0 is Done
                &&& r.1 matches Action::Cleanup { path, error: HarnessError::NotListed { name: n, scanned } }
                    && path@ == vendor_path(id@) && n@ == name@ && scanned == items@.len()
            },
            (Harness::Listing { id, .. }, Event::Failed { message, .. }) => {
                &&& r.0 is Done
                &&& r.1 matches Action::Cleanup { path, error: HarnessError::Step { context, cause } }
                    && path@ == vendor_path(id@) && context@ == "verify step 2b (paginated list) failed"@
                    && cause@ == message@
            },
            (Harness::Deleting { name, id }, Event::Answered(_)) => {
                &&& r.0 matches Harness::Probing { name: n, id: i } && n@ == name@ && i@ == id@
                &&& r.1 matches Action::TryGet { path } && path@ == vendor_path(id@)
            },
            (Harness::Deleting { id, .. }, Event::Failed { message, .. }) => {
                &&& r.0 is Done
                &&& r.1 matches Action::Cleanup { path, error: HarnessError::Step { context, cause } }
                    && path@ == vendor_path(id@) && context@ == "verify step 3 (delete) failed"@ && cause@ == message@
            },
            (Harness::Probing { id, .. }, Event::NotFound) => {
                &&& r.0 is Done
                &&& r.1 matches Action::Finish(v) && v.vendor_id@ == JsonV::Str(id@) && v.created && v.verified_list
                    && v.verified_get && v.deleted && v.verified_deleted
            },
            (Harness::Probing { id, .. }, Event::Answered(_)) => {
                &&& r.0 is Done
                &&& r.1 matches Action::Finish(v) && v.vendor_id@ == JsonV::Str(id@) && v.created && v.verified_list
                    && v.verified_get && v.deleted && !v.verified_deleted
            },
            (Harness::Probing { id, .. }, Event::Failed { not_found, message }) => if not_found {
                &&& r.0 is Done
                &&& r.1 matches Action::Finish(v) && v.vendor_id@ == JsonV::Str(id@) && v.created && v.verified_list
                    && v.verified_get && v.deleted && v.verified_deleted
            } else {
                &&& r.0 is Done
                &&& r.1 matches Action::Cleanup { path, error: HarnessError::Step { context, cause } }
                    && path@ == vendor_path(id@) && context@ == "verify step 4 (confirm deletion) failed"@
                    && cause@ == message@
            },
            _ => {
                &&& r.0 is Done
                &&& r.1 matches Action::Fail(HarnessError::OutOfOrder)
            },
        },
{
    match (h, e) {
        (Harness::Creating { name }, Event::Answered(created)) => match created_id(&created) {
            Some(id) => {
                let path = cat2("/vendors/", id.as_str());
                (Harness::Fetching { name, id }, Action::Get { path })
            },
            None => {
                let v = match created.get("id") {
                    Some(x) => x.copy(),
                    None => Json::Null,
                };
                (Harness::Done, Action::Fail(HarnessError::UnexpectedId { id: v }))
            },
        },
        (Harness::Creating { .. }, Event::Failed { message, .. }) => (
            Harness::Done,
            Action::Fail(step_error("verify step 1 (create) failed", message)),
        ),
        (Harness::Fetching { name, id }, Event::Answered(fetched)) => {
            let got = crate::resources::vendor::vendor_name(&fetched);
            if crate::json::str_eq(got, name.as_str()) {
                (Harness::Listing { name, id }, Action::GetAll { path: "/vendors".to_string() })
            } else {
                let path = cat2("/vendors/", id.as_str());
                let error = HarnessError::NameMismatch { expected: name, got: got.to_string() };
                (Harness::Done, Action::Cleanup { path, error })
            }
        },
        (Harness::Fetching { id, .. }, Event::Failed { message, .. }) => (
            Harness::Done,
            Action::Cleanup {
                path: cat2("/vendors/", id.as_str()),
                error: step_error("verify step 2a (get by id) failed", message),
            },
        ),
        (Harness::Listing { name, id }, Event::Listed(items)) => {
            if find_listed(&items, name.as_str()) {
                let path = cat2("/vendors/", id.as_str());
                (Harness::Deleting { name, id }, Action::Delete { path })
            } else {
                let path = cat2("/vendors/", id.as_str());
                let scanned = items.len();
                (Harness::Done, Action::Cleanup { path, error: HarnessError::NotListed { name, scanned } })
            }
        },
        (Harness::Listing { id, .. }, Event::Failed { message, .. }) => (
            Harness::Done,
            Action::Cleanup {
                path: cat2("/vendors/", id.as_str()),
                error: step_error("verify step 2b (paginated list) failed", message),
            },
        ),
        (Harness::Deleting { name, id }, Event::Answered(_)) => {
            let path = cat2("/vendors/", id.as_str());
            (Harness::Probing { name, id }, Action::TryGet { path })
        },
        (Harness::Deleting { id, .. }, Event::Failed { message, .. }) => (
            Harness::Done,
            Action::Cleanup {
                path: cat2("/vendors/", id.as_str()),
                error: step_error("verify step 3 (delete) failed", message),
            },
        ),
        (Harness::Probing { id, .. }, Event::NotFound) => (Harness::Done, Action::Finish(finished(id, true))),
        (Harness::Probing { id, .. }, Event::Answered(_)) => (Harness::Done, Action::Finish(finished(id, false))),
        (Harness::Probing { id, .. }, Event::Failed { not_found, message }) => {
            if not_found {
                (Harness::Done, Action::Finish(finished(id, true)))
            } else {
                let path = cat2("/vendors/", id.as_str());
                (
                    Harness::Done,
                    Action::Cleanup { path, error: step_error("verify step 4 (confirm deletion) failed", message) },
                )
            }
        },
        _ => (Harness::Done, Action::Fail(HarnessError::OutOfOrder)),
    }
}

/// The outcome once the vendor was created, read back, listed and deleted.
fn finished(id: String, gone: bool) -> (r: VerifyResult)
    ensures
        r.vendor_id@ == JsonV::Str(id@),
        r.created && r.verified_list && r.verified_get && r.deleted,
        r.verified_deleted == gone,
{
    VerifyResult {
        vendor_id: Json::Str(id),
        created: true,
        verified_list: true,
        verified_get: true,
        deleted: true,
        verified_deleted: gone,
    }
}

/// The first line of a failure's report (the unexpected ID is shown by the
/// caller, which renders JSON values).
pub open spec fn harness_error_text(e: HarnessError) -> Seq<char> {
    match e {
        HarnessError::Step { context, .. } => context@,
        HarnessError::UnexpectedId { .. } => "verify step 1: unexpected id type in response"@,
        HarnessError::NameMismatch { expected, got } => "verify step 2a: expected name `"@ + expected@
            + "`, got `"@ + got@ + "`"@,
        HarnessError::NotListed { name, scanned } => "verify step 2b: vendor `"@ + name@
            + "` not found in full paginated list ("@ + crate::text::decimal(scanned as nat) + " items scanned)"@,
        HarnessError::OutOfOrder => "verify: an answer arrived out of order"@,
    }
}

impl HarnessError {
    /// The first line of the failure's report.
    pub fn message(&self) -> (r: String)
        ensures
            r@ == harness_error_text(*self),
    {
        let mut m = String::new();
        match self {
            HarnessError::Step { context, .. } => push_str(&mut m, context.as_str()),
            HarnessError::UnexpectedId { .. } => push_str(&mut m, "verify step 1: unexpected id type in response"),
            HarnessError::NameMismatch { expected, got } => {
                push_str(&mut m, "verify step 2a: expected name `");
                push_str(&mut m, expected.as_str());
                push_str(&mut m, "`, got `");
                push_str(&mut m, got.as_str());
                push_str(&mut m, "`");
            },
            HarnessError::NotListed { name, scanned } => {
                push_str(&mut m, "verify step 2b: vendor `");
                push_str(&mut m, name.as_str());
                push_str(&mut m, "` not found in full paginated list (");
                push_str(&mut m, crate::text::decimal_string(*scanned as u64).as_str());
                push_str(&mut m, " items scanned)");
            },
            HarnessError::OutOfOrder => push_str(&mut m, "verify: an answer arrived out of order"),
        }
        m
    }
}

} // verus!
