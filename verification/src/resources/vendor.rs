//! `drata vendor ...`: vendors, their questionnaires and their security
//! reviews. Vendor JSON is camelCase; update bodies are sparse, so flags left
//! out are not overwritten.

use vstd::prelude::*;
use crate::cli::{
    SecurityReviewAction, SecurityReviewStatus, SecurityReviewType, VendorAction, VendorQuestionnaireAction,
    VendorSecurityReviewAction,
};
use crate::client::{fields_text, with_query, Multipart};
use crate::expand::{append_expand, expand_pairs};
use crate::json::{field_of, fields_view, lemma_field_of_insert, member, Json, JsonV, member_str};
use crate::resources::{
    given, lemma_put_opt_field, lemma_put_str_field,
    cat2, cat3, cat4, list_plan, list_v, planned, put_opt, put_str, put_u64, missing_value, requires_text,
    send_empty, send_object, set_opt, set_str, set_u64, texts, Plan, PlanV, UsageError,
};
use crate::text::{decimal, decimal_string, push_str};

verus! {

/// The skeleton printed by `drata vendor create --example` (only `name` is
/// required).
pub const VENDOR_CREATE_EXAMPLE: &'static str = "{\n  \"name\": \"Example Vendor\",\n  \"category\": \"SECURITY\",\n  \"risk\": \"LOW\",\n  \"status\": \"ACTIVE\",\n  \"url\": \"https://vendor.example.com\",\n  \"notes\": \"Free-form notes about this vendor\"\n}\n";

/// The skeleton printed by `drata vendor security-review create --example`.
pub const SECURITY_REVIEW_CREATE_EXAMPLE: &'static str = "{\n  \"securityReviewStatus\": \"NOT_YET_STARTED\",\n  \"securityReviewType\": \"SECURITY\",\n  \"reviewDeadlineAt\": \"2026-12-31T00:00:00.000Z\",\n  \"title\": \"Annual vendor security review\",\n  \"note\": \"Free-form notes about this review\",\n  \"requestedAt\": \"2026-06-28T00:00:00.000Z\",\n  \"requesterUserId\": 0\n}\n";

/// The skeleton to print when this is a `--example` request, `None`
/// otherwise. Needs no credential.
pub fn example_if_requested(action: &VendorAction) -> (r: Option<&'static str>)
    ensures
        match *action {
            VendorAction::Create { example, .. } => if example {
                r == Some(VENDOR_CREATE_EXAMPLE)
            } else {
                r is None
            },
            VendorAction::SecurityReview { action: VendorSecurityReviewAction::Create { example, .. } } => if example {
                r == Some(SECURITY_REVIEW_CREATE_EXAMPLE)
            } else {
                r is None
            },
            _ => r is None,
        },
{
    match action {
        VendorAction::Create { example, .. } => if *example {
            Some(VENDOR_CREATE_EXAMPLE)
        } else {
            None
        },
        VendorAction::SecurityReview { action: VendorSecurityReviewAction::Create { example, .. } } => if *example {
            Some(SECURITY_REVIEW_CREATE_EXAMPLE)
        } else {
            None
        },
        _ => None,
    }
}

/// The name of a vendor item, empty when it has none.
pub open spec fn vendor_name_of(v: JsonV) -> Seq<char> {
    match member_str(v, "name"@) {
        Some(s) => s,
        None => Seq::empty(),
    }
}

/// The name a vendor is matched by in `drata vendor list <patterns>`.
pub fn vendor_name(value: &Json) -> (r: &str)
    ensures
        r@ == vendor_name_of(value@),
{
    proof {
        reveal_strlit("");
    }
    match value.get("name") {
        Some(n) => match n.as_str() {
            Some(s) => s,
            None => "",
        },
        None => "",
    }
}

/// The spec value of a security review status.
pub open spec fn status_name(s: SecurityReviewStatus) -> Seq<char> {
    match s {
        SecurityReviewStatus::NotYetStarted => "NOT_YET_STARTED"@,
        SecurityReviewStatus::InProgress => "IN_PROGRESS"@,
        SecurityReviewStatus::Completed => "COMPLETED"@,
        SecurityReviewStatus::NotRequired => "NOT_REQUIRED"@,
    }
}

/// Renders a security review status as the API spells it.
pub fn status_str(s: &SecurityReviewStatus) -> (r: &'static str)
    ensures
        r@ == status_name(*s),
{
    match s {
        SecurityReviewStatus::NotYetStarted => "NOT_YET_STARTED",
        SecurityReviewStatus::InProgress => "IN_PROGRESS",
        SecurityReviewStatus::Completed => "COMPLETED",
        SecurityReviewStatus::NotRequired => "NOT_REQUIRED",
    }
}

/// The spec value of a security review type.
pub open spec fn review_type_name(t: SecurityReviewType) -> Seq<char> {
    match t {
        SecurityReviewType::Security => "SECURITY"@,
        SecurityReviewType::SocReport => "SOC_REPORT"@,
        SecurityReviewType::UploadReport => "UPLOAD_REPORT"@,
    }
}

/// Renders a security review type as the API spells it.
pub fn type_str(t: &SecurityReviewType) -> (r: &'static str)
    ensures
        r@ == review_type_name(*t),
{
    match t {
        SecurityReviewType::Security => "SECURITY",
        SecurityReviewType::SocReport => "SOC_REPORT",
        SecurityReviewType::UploadReport => "UPLOAD_REPORT",
    }
}

/// The spec value of a security review action.
pub open spec fn action_name(a: SecurityReviewAction) -> Seq<char> {
    match a {
        SecurityReviewAction::Finalize => "finalize"@,
        SecurityReviewAction::Reopen => "reopen"@,
    }
}

/// Renders a security review action as the API spells it.
pub fn action_str(a: &SecurityReviewAction) -> (r: &'static str)
    ensures
        r@ == action_name(*a),
{
    match a {
        SecurityReviewAction::Finalize => "finalize",
        SecurityReviewAction::Reopen => "reopen",
    }
}

/// The refusal of `vendor list --all` with name patterns.
pub open spec fn exclusive_text() -> Seq<char> {
    "--all and name patterns are mutually exclusive. --all streams the full unfiltered export; omit --all to filter by name patterns."@
}

/// The path of one vendor.
pub open spec fn vendor_path(id: Seq<char>) -> Seq<char> {
    "/vendors/"@ + id
}

/// The body of `vendor create` once `name` is known.
pub open spec fn create_body(
    name: Seq<char>,
    category: Option<String>,
    risk: Option<String>,
    status: Option<String>,
    url: Option<String>,
    notes: Option<String>,
) -> Seq<(Seq<char>, JsonV)> {
    put_opt(
        put_opt(
            put_opt(put_opt(put_opt(put_str(Seq::empty(), "name"@, name), "category"@, category), "risk"@, risk),
                "status"@, status),
            "url"@,
            url,
        ),
        "notes"@,
        notes,
    )
}

/// What a vendor command asks of the API, or why it is refused.
pub open spec fn vendor_plan(a: VendorAction) -> Result<PlanV, Seq<char>> {
    match a {
        VendorAction::List { patterns, all, expand } => {
            let base = with_query("/vendors"@, expand_pairs(expand@));
            if all && patterns@.len() > 0 {
                Err(exclusive_text())
            } else if all {
                Ok(PlanV::Stream { path: base })
            } else {
                Ok(PlanV::List { path: base, patterns: texts(patterns@) })
            }
        },
        VendorAction::Get { id, expand } => Ok(
            PlanV::Fetch { path: with_query(vendor_path(id@), expand_pairs(expand@)) },
        ),
        VendorAction::Create { name, category, risk, status, url, notes, .. } => match name {
            None => Err(requires_text("vendor create"@, "--name"@)),
            Some(n) => Ok(
                PlanV::Send {
                    method: "POST"@,
                    confirm: true,
                    path: "/vendors"@,
                    body: Some(JsonV::Object(create_body(n@, category, risk, status, url, notes))),
                },
            ),
        },
        VendorAction::Update { id, name, category, risk, status, url, notes } => Ok(
            PlanV::Send {
                method: "PUT"@,
                confirm: true,
                path: vendor_path(id@),
                body: Some(
                    JsonV::Object(
                        put_opt(
                            put_opt(
                                put_opt(
                                    put_opt(put_opt(put_opt(Seq::empty(), "name"@, name), "category"@, category),
                                        "risk"@, risk),
                                    "status"@,
                                    status,
                                ),
                                "url"@,
                                url,
                            ),
                            "notes"@,
                            notes,
                        ),
                    ),
                ),
            },
        ),
        VendorAction::Remove { id } => Ok(PlanV::Send { method: "DELETE"@, path: vendor_path(id@), body: None, confirm: true }),
        VendorAction::Upload { vendor_id, file, .. } => Ok(
            PlanV::Upload {
                method: "POST"@,
                path: vendor_path(vendor_id@) + "/documents"@,
                files: seq![("file"@, file@)],
                fields: Seq::empty(),
            },
        ),
        VendorAction::Questionnaire { action } => Ok(questionnaire_plan(action)),
        VendorAction::SecurityReview { action } => Ok(security_review_plan(action)),
    }
}

/// What a questionnaire command asks of the API.
pub open spec fn questionnaire_plan(a: VendorQuestionnaireAction) -> PlanV {
    match a {
        VendorQuestionnaireAction::List { vendor_id } => list_v(vendor_path(vendor_id@) + "/questionnaires"@, false),
        VendorQuestionnaireAction::Get { vendor_id, questionnaire_id } => PlanV::Fetch {
            path: vendor_path(vendor_id@) + "/questionnaires/"@ + questionnaire_id@,
        },
        VendorQuestionnaireAction::Send {
            vendor_id,
            email,
            questionnaire_id,
            security_review_id,
            email_content,
            email_subject,
        } => PlanV::Send {
            method: "POST"@,
            confirm: true,
            path: vendor_path(vendor_id@) + "/questionnaires"@,
            body: Some(
                JsonV::Object(
                    put_opt(
                        put_str(
                            put_u64(
                                put_u64(put_str(Seq::empty(), "email"@, email@), "questionnaireId"@, questionnaire_id),
                                "securityReviewId"@,
                                security_review_id,
                            ),
                            "emailContent"@,
                            email_content@,
                        ),
                        "emailSubject"@,
                        email_subject,
                    ),
                ),
            ),
        },
    }
}

/// The path of a vendor's security reviews.
pub open spec fn reviews_path(vendor_id: Seq<char>) -> Seq<char> {
    vendor_path(vendor_id) + "/security-reviews"@
}

/// The path of one security review.
pub open spec fn review_path(vendor_id: Seq<char>, id: u64) -> Seq<char> {
    vendor_path(vendor_id) + "/security-reviews/"@ + decimal(id as nat)
}

/// The status and type filters of a security review listing.
pub open spec fn review_filters(status: Option<SecurityReviewStatus>, review_type: Option<SecurityReviewType>) -> Seq<char> {
    let s = match status {
        Some(st) => seq!['?'] + "status="@ + status_name(st),
        None => Seq::empty(),
    };
    let t = match review_type {
        Some(ty) => seq![if status is Some { '&' } else { '?' }] + "type="@ + review_type_name(ty),
        None => Seq::empty(),
    };
    s + t
}

/// The body of `security-review create` built from its flags.
pub open spec fn review_body(
    deadline: Seq<char>,
    status: SecurityReviewStatus,
    review_type: SecurityReviewType,
    title: Option<String>,
    note: Option<String>,
    requested_at: Option<String>,
    requester: Option<u64>,
) -> Seq<(Seq<char>, JsonV)> {
    let b = put_opt(
        put_opt(
            put_opt(
                put_str(
                    put_str(put_str(Seq::empty(), "securityReviewStatus"@, status_name(status)), "securityReviewType"@,
                        review_type_name(review_type)),
                    "reviewDeadlineAt"@,
                    deadline,
                ),
                "title"@,
                title,
            ),
            "note"@,
            note,
        ),
        "requestedAt"@,
        requested_at,
    );
    match requester {
        Some(id) => put_u64(b, "requesterUserId"@, id),
        None => b,
    }
}

/// What a security review command asks of the API.
pub open spec fn security_review_plan(a: VendorSecurityReviewAction) -> PlanV {
    match a {
        VendorSecurityReviewAction::List { vendor_id, status, review_type, expand, all } => list_v(
            with_query(reviews_path(vendor_id@) + review_filters(status, review_type), expand_pairs(expand@)),
            all,
        ),
        VendorSecurityReviewAction::Create {
            vendor_id,
            review_deadline_at,
            status,
            review_type,
            title,
            note,
            requested_at,
            requester_user_id,
            data,
            ..
        } => match data {
            Some(text) => PlanV::SendText { method: "POST"@, path: reviews_path(vendor_id@), text: text@ },
            None => PlanV::Send {
                method: "POST"@,
                confirm: true,
                path: reviews_path(vendor_id@),
                body: Some(
                    JsonV::Object(
                        review_body(review_deadline_at@, status, review_type, title, note, requested_at, requester_user_id),
                    ),
                ),
            },
        },
        VendorSecurityReviewAction::Get { vendor_id, security_review_id, expand } => PlanV::Fetch {
            path: with_query(review_path(vendor_id@, security_review_id), expand_pairs(expand@)),
        },
        VendorSecurityReviewAction::Update { vendor_id, security_review_id, title, soc_form } => PlanV::Send {
            method: "PUT"@,
            confirm: true,
            path: review_path(vendor_id@, security_review_id),
            body: Some(JsonV::Object(put_opt(put_opt(Seq::empty(), "title"@, title), "socForm"@, soc_form))),
        },
        VendorSecurityReviewAction::Actions { vendor_id, security_review_id } => PlanV::Fetch {
            path: review_path(vendor_id@, security_review_id) + "/actions"@,
        },
        VendorSecurityReviewAction::RunAction { vendor_id, security_review_id, action } => PlanV::Send {
            method: "POST"@,
            confirm: true,
            path: review_path(vendor_id@, security_review_id) + "/actions"@,
            body: Some(JsonV::Object(put_str(Seq::empty(), "action"@, action_name(action)))),
        },
        VendorSecurityReviewAction::Questionnaires { vendor_id, security_review_id } => list_v(
            review_path(vendor_id@, security_review_id) + "/security-questionnaires"@,
            false,
        ),
    }
}

/// Plans a vendor command: the request it makes, or why it is refused
/// before anything is sent.
pub fn plan(action: &VendorAction) -> (r: Result<Plan, UsageError>)
    ensures
        planned(r, vendor_plan(*action)),
{
    match action {
        VendorAction::List { patterns, all, expand } => {
            if *all && patterns.len() > 0 {
                let mut m = String::new();
                push_str(
                    &mut m,
                    "--all and name patterns are mutually exclusive. --all streams the full unfiltered export; omit --all to filter by name patterns.",
                );
                return Err(UsageError { message: m });
            }
            let base = append_expand("/vendors", expand.as_slice());
            if *all {
                Ok(Plan::Stream { path: base })
            } else {
                let mut pats: Vec<String> = Vec::new();
                let mut i: usize = 0;
                while i < patterns.len()
                    invariant
                        i <= patterns@.len(),
                        texts(pats@) == texts(patterns@).subrange(0, i as int),
                    decreases patterns.len() - i,
                {
                    let ghost before = pats@;
                    pats.push(patterns[i].clone());
                    assert(texts(pats@) =~= texts(before).push(patterns@[i as int]@));
                    assert(texts(patterns@).subrange(0, i + 1) =~= texts(patterns@).subrange(0, i as int).push(
                        patterns@[i as int]@,
                    ));
                    i = i + 1;
                }
                assert(texts(patterns@).subrange(0, patterns@.len() as int) =~= texts(patterns@));
                Ok(Plan::List { path: base, patterns: pats })
            }
        },
        VendorAction::Get { id, expand } => {
            let p = cat2("/vendors/", id.as_str());
            Ok(Plan::Fetch { path: append_expand(p.as_str(), expand.as_slice()) })
        },
        VendorAction::Create { name, category, risk, status, url, notes, .. } => match name {
            None => Err(missing_value("vendor create", "--name")),
            Some(n) => {
                let mut body: Vec<(String, Json)> = Vec::new();
                set_str(&mut body, "name", n.as_str());
                set_opt(&mut body, "category", category);
                set_opt(&mut body, "risk", risk);
                set_opt(&mut body, "status", status);
                set_opt(&mut body, "url", url);
                set_opt(&mut body, "notes", notes);
                assert(fields_view(Seq::<(String, Json)>::empty()) =~= Seq::<(Seq<char>, JsonV)>::empty());
                Ok(send_object("POST", "/vendors".to_string(), body, true))
            },
        },
        VendorAction::Update { id, name, category, risk, status, url, notes } => {
            let mut body: Vec<(String, Json)> = Vec::new();
            assert(fields_view(body@) =~= Seq::<(Seq<char>, JsonV)>::empty());
            set_opt(&mut body, "name", name);
            set_opt(&mut body, "category", category);
            set_opt(&mut body, "risk", risk);
            set_opt(&mut body, "status", status);
            set_opt(&mut body, "url", url);
            set_opt(&mut body, "notes", notes);
            Ok(send_object("PUT", cat2("/vendors/", id.as_str()), body, true))
        },
        VendorAction::Remove { id } => Ok(send_empty("DELETE", cat2("/vendors/", id.as_str()))),
        VendorAction::Upload { vendor_id, file, .. } => {
            let form = Multipart::single("file", file.as_str());
            assert(fields_text(form.fields@) =~= Seq::<(Seq<char>, Seq<char>)>::empty());
            Ok(Plan::Upload { method: "POST".to_string(), path: cat3("/vendors/", vendor_id.as_str(), "/documents"), form })
        },
        VendorAction::Questionnaire { action } => Ok(plan_questionnaire(action)),
        VendorAction::SecurityReview { action } => Ok(plan_security_review(action)),
    }
}

/// Plans a questionnaire command.
pub fn plan_questionnaire(action: &VendorQuestionnaireAction) -> (r: Plan)
    ensures
        r@ == questionnaire_plan(*action),
{
    match action {
        VendorQuestionnaireAction::List { vendor_id } => list_plan(
            cat3("/vendors/", vendor_id.as_str(), "/questionnaires"),
            false,
        ),
        VendorQuestionnaireAction::Get { vendor_id, questionnaire_id } => Plan::Fetch {
            path: cat4("/vendors/", vendor_id.as_str(), "/questionnaires/", questionnaire_id.as_str()),
        },
        VendorQuestionnaireAction::Send {
            vendor_id,
            email,
            questionnaire_id,
            security_review_id,
            email_content,
            email_subject,
        } => {
            let mut body: Vec<(String, Json)> = Vec::new();
            assert(fields_view(body@) =~= Seq::<(Seq<char>, JsonV)>::empty());
            set_str(&mut body, "email", email.as_str());
            set_u64(&mut body, "questionnaireId", *questionnaire_id);
            set_u64(&mut body, "securityReviewId", *security_review_id);
            set_str(&mut body, "emailContent", email_content.as_str());
            set_opt(&mut body, "emailSubject", email_subject);
            send_object("POST", cat3("/vendors/", vendor_id.as_str(), "/questionnaires"), body, true)
        },
    }
}

/// The path of one security review.
fn review_path_of(vendor_id: &str, id: u64) -> (r: String)
    ensures
        r@ == review_path(vendor_id@, id),
{
    let n = decimal_string(id);
    cat4("/vendors/", vendor_id, "/security-reviews/", n.as_str())
}

/// Plans a security review command.
pub fn plan_security_review(action: &VendorSecurityReviewAction) -> (r: Plan)
    ensures
        r@ == security_review_plan(*action),
{
    match action {
        VendorSecurityReviewAction::List { vendor_id, status, review_type, expand, all } => {
            let mut base = cat3("/vendors/", vendor_id.as_str(), "/security-reviews");
            let mut sep = '?';
            match status {
                Some(s) => {
                    crate::text::push_char(&mut base, sep);
                    push_str(&mut base, "status=");
                    push_str(&mut base, status_str(s));
                    sep = '&';
                },
                None => {},
            }
            match review_type {
                Some(t) => {
                    crate::text::push_char(&mut base, sep);
                    push_str(&mut base, "type=");
                    push_str(&mut base, type_str(t));
                },
                None => {},
            }
            assert(base@ =~= reviews_path(vendor_id@) + review_filters(*status, *review_type));
            list_plan(append_expand(base.as_str(), expand.as_slice()), *all)
        },
        VendorSecurityReviewAction::Create {
            vendor_id,
            review_deadline_at,
            status,
            review_type,
            title,
            note,
            requested_at,
            requester_user_id,
            data,
            ..
        } => {
            let path = cat3("/vendors/", vendor_id.as_str(), "/security-reviews");
            match data {
                Some(text) => Plan::SendText { method: "POST".to_string(), path, text: text.clone() },
                None => {
                    let mut body: Vec<(String, Json)> = Vec::new();
                    assert(fields_view(body@) =~= Seq::<(Seq<char>, JsonV)>::empty());
                    set_str(&mut body, "securityReviewStatus", status_str(status));
                    set_str(&mut body, "securityReviewType", type_str(review_type));
                    set_str(&mut body, "reviewDeadlineAt", review_deadline_at.as_str());
                    set_opt(&mut body, "title", title);
                    set_opt(&mut body, "note", note);
                    set_opt(&mut body, "requestedAt", requested_at);
                    match requester_user_id {
                        Some(id) => set_u64(&mut body, "requesterUserId", *id),
                        None => {},
                    }
                    send_object("POST", path, body, true)
                },
            }
        },
        VendorSecurityReviewAction::Get { vendor_id, security_review_id, expand } => {
            let p = review_path_of(vendor_id.as_str(), *security_review_id);
            Plan::Fetch { path: append_expand(p.as_str(), expand.as_slice()) }
        },
        VendorSecurityReviewAction::Update { vendor_id, security_review_id, title, soc_form } => {
            let mut body: Vec<(String, Json)> = Vec::new();
            assert(fields_view(body@) =~= Seq::<(Seq<char>, JsonV)>::empty());
            set_opt(&mut body, "title", title);
            set_opt(&mut body, "socForm", soc_form);
            send_object("PUT", review_path_of(vendor_id.as_str(), *security_review_id), body, true)
        },
        VendorSecurityReviewAction::Actions { vendor_id, security_review_id } => {
            let p = review_path_of(vendor_id.as_str(), *security_review_id);
            Plan::Fetch { path: cat2(p.as_str(), "/actions") }
        },
        VendorSecurityReviewAction::RunAction { vendor_id, security_review_id, action } => {
            let p = review_path_of(vendor_id.as_str(), *security_review_id);
            let mut body: Vec<(String, Json)> = Vec::new();
            assert(fields_view(body@) =~= Seq::<(Seq<char>, JsonV)>::empty());
            set_str(&mut body, "action", action_str(action));
            send_object("POST", cat2(p.as_str(), "/actions"), body, true)
        },
        VendorSecurityReviewAction::Questionnaires { vendor_id, security_review_id } => {
            let p = review_path_of(vendor_id.as_str(), *security_review_id);
            list_plan(cat2(p.as_str(), "/security-questionnaires"), false)
        },
    }
}

/// The member a vendor body holds under `k`, given the flags: each given
/// flag under its API key, nothing else.
pub open spec fn vendor_member(
    k: Seq<char>,
    name: Option<String>,
    category: Option<String>,
    risk: Option<String>,
    status: Option<String>,
    url: Option<String>,
    notes: Option<String>,
) -> Option<JsonV> {
    if k == "name"@ {
        given(name)
    } else if k == "category"@ {
        given(category)
    } else if k == "risk"@ {
        given(risk)
    } else if k == "status"@ {
        given(status)
    } else if k == "url"@ {
        given(url)
    } else if k == "notes"@ {
        given(notes)
    } else {
        None
    }
}

/// The vendor flag keys are distinct.
proof fn lemma_vendor_keys_distinct()
    ensures
        "name"@ != "category"@, "name"@ != "risk"@, "name"@ != "status"@, "name"@ != "url"@, "name"@ != "notes"@,
        "category"@ != "risk"@, "category"@ != "status"@, "category"@ != "url"@, "category"@ != "notes"@,
        "risk"@ != "status"@, "risk"@ != "url"@, "risk"@ != "notes"@,
        "status"@ != "url"@, "status"@ != "notes"@,
        "url"@ != "notes"@,
{
    reveal_strlit("name");
    reveal_strlit("category");
    reveal_strlit("risk");
    reveal_strlit("status");
    reveal_strlit("url");
    reveal_strlit("notes");
    assert("name"@.len() == 4 && "name"@[0] == 'n');
    assert("category"@.len() == 8);
    assert("risk"@.len() == 4 && "risk"@[0] == 'r');
    assert("status"@.len() == 6);
    assert("url"@.len() == 3);
    assert("notes"@.len() == 5);
}

/// `vendor update` sends `PUT /vendors/{id}`, confirmed, with a body that
/// carries every given flag under its API key (`--risk HIGH` as
/// `"risk": "HIGH"`) and no member for a flag left out.
pub proof fn lemma_vendor_update_body(
    id: String,
    name: Option<String>,
    category: Option<String>,
    risk: Option<String>,
    status: Option<String>,
    url: Option<String>,
    notes: Option<String>,
)
    ensures
        vendor_plan(VendorAction::Update { id, name, category, risk, status, url, notes }) matches Ok(
            PlanV::Send { method, path, body: Some(b), confirm },
        ) && method == "PUT"@ && path == "/vendors/"@ + id@ && confirm && forall|k: Seq<char>|
            #[trigger] member(b, k) == vendor_member(k, name, category, risk, status, url, notes),
{
    lemma_vendor_keys_distinct();
    let m0 = Seq::<(Seq<char>, JsonV)>::empty();
    let m1 = put_opt(m0, "name"@, name);
    let m2 = put_opt(m1, "category"@, category);
    let m3 = put_opt(m2, "risk"@, risk);
    let m4 = put_opt(m3, "status"@, status);
    let m5 = put_opt(m4, "url"@, url);
    let m6 = put_opt(m5, "notes"@, notes);
    assert forall|k: Seq<char>| #[trigger] field_of(m6, k) == vendor_member(k, name, category, risk, status, url, notes) by {
        lemma_put_opt_field(m0, "name"@, name, k);
        lemma_put_opt_field(m1, "category"@, category, k);
        lemma_put_opt_field(m2, "risk"@, risk, k);
        lemma_put_opt_field(m3, "status"@, status, k);
        lemma_put_opt_field(m4, "url"@, url, k);
        lemma_put_opt_field(m5, "notes"@, notes, k);
        assert(field_of(m0, k) is None);
    }
}

/// `vendor create` with a name sends `POST /vendors`, confirmed, with a
/// body that carries the name and every other given flag under its API key,
/// and no member for a flag left out; without a name it is refused.
pub proof fn lemma_vendor_create_body(
    name: Option<String>,
    category: Option<String>,
    risk: Option<String>,
    status: Option<String>,
    url: Option<String>,
    notes: Option<String>,
    example: bool,
)
    ensures
        name is None ==> vendor_plan(VendorAction::Create { name, category, risk, status, url, notes, example }) is Err,
        name is Some ==> (vendor_plan(VendorAction::Create { name, category, risk, status, url, notes, example }) matches Ok(
            PlanV::Send { method, path, body: Some(b), confirm },
        ) && method == "POST"@ && path == "/vendors"@ && confirm && forall|k: Seq<char>|
            #[trigger] member(b, k) == vendor_member(k, name, category, risk, status, url, notes)),
{
    lemma_vendor_keys_distinct();
    if let Some(n) = name {
        let m0 = Seq::<(Seq<char>, JsonV)>::empty();
        let m1 = put_str(m0, "name"@, n@);
        let m2 = put_opt(m1, "category"@, category);
        let m3 = put_opt(m2, "risk"@, risk);
        let m4 = put_opt(m3, "status"@, status);
        let m5 = put_opt(m4, "url"@, url);
        let m6 = put_opt(m5, "notes"@, notes);
        assert(m6 == create_body(n@, category, risk, status, url, notes));
        assert forall|k: Seq<char>| #[trigger] field_of(m6, k) == vendor_member(k, name, category, risk, status, url, notes) by {
            lemma_put_str_field(m0, "name"@, n@, k);
            lemma_put_opt_field(m1, "category"@, category, k);
            lemma_put_opt_field(m2, "risk"@, risk, k);
            lemma_put_opt_field(m3, "status"@, status, k);
            lemma_put_opt_field(m4, "url"@, url, k);
            lemma_put_opt_field(m5, "notes"@, notes, k);
            assert(field_of(m0, k) is None);
        }
    }
}

/// A number member.
pub open spec fn number_of(n: u64) -> JsonV {
    JsonV::Number(decimal(n as nat))
}

/// `questionnaire send` posts, confirmed, to the vendor's questionnaires a
/// body with the email, both IDs as numbers, the email content, and the
/// subject when given; nothing else.
pub proof fn lemma_questionnaire_send_body(a: VendorQuestionnaireAction)
    ensures
        a matches VendorQuestionnaireAction::Send {
            vendor_id,
            email,
            questionnaire_id,
            security_review_id,
            email_content,
            email_subject,
        } ==> (questionnaire_plan(a) matches PlanV::Send { method, path, body: Some(b), confirm } && method == "POST"@
            && path == "/vendors/"@ + vendor_id@ + "/questionnaires"@ && confirm && forall|k: Seq<char>|
            #[trigger] member(b, k) == (if k == "email"@ {
                Some(JsonV::Str(email@))
            } else if k == "questionnaireId"@ {
                Some(number_of(questionnaire_id))
            } else if k == "securityReviewId"@ {
                Some(number_of(security_review_id))
            } else if k == "emailContent"@ {
                Some(JsonV::Str(email_content@))
            } else if k == "emailSubject"@ {
                given(email_subject)
            } else {
                None
            })),
{
    reveal_strlit("email");
    reveal_strlit("questionnaireId");
    reveal_strlit("securityReviewId");
    reveal_strlit("emailContent");
    reveal_strlit("emailSubject");
    assert("email"@.len() == 5 && "email"@[0] == 'e' && "email"@[4] == 'l');
    assert("questionnaireId"@.len() == 15 && "questionnaireId"@[0] == 'q' && "questionnaireId"@[14] == 'd');
    assert("securityReviewId"@.len() == 16 && "securityReviewId"@[0] == 's' && "securityReviewId"@[15] == 'd');
    assert("emailContent"@.len() == 12 && "emailContent"@[0] == 'e' && "emailContent"@[11] == 't');
    assert("emailSubject"@.len() == 12 && "emailSubject"@[0] == 'e' && "emailSubject"@[11] == 't');
    assert("emailSubject"@[5] == 'S' && "emailContent"@[5] == 'C');
    if let VendorQuestionnaireAction::Send { email, questionnaire_id, security_review_id, email_content, email_subject, .. } = a {
        let m0 = Seq::<(Seq<char>, JsonV)>::empty();
        let m1 = put_str(m0, "email"@, email@);
        let m2 = put_u64(m1, "questionnaireId"@, questionnaire_id);
        let m3 = put_u64(m2, "securityReviewId"@, security_review_id);
        let m4 = put_str(m3, "emailContent"@, email_content@);
        let m5 = put_opt(m4, "emailSubject"@, email_subject);
        assert forall|k: Seq<char>| #[trigger] field_of(m5, k) == (if k == "email"@ {
            Some(JsonV::Str(email@))
        } else if k == "questionnaireId"@ {
            Some(number_of(questionnaire_id))
        } else if k == "securityReviewId"@ {
            Some(number_of(security_review_id))
        } else if k == "emailContent"@ {
            Some(JsonV::Str(email_content@))
        } else if k == "emailSubject"@ {
            given(email_subject)
        } else {
            None
        }) by {
            lemma_put_str_field(m0, "email"@, email@, k);
            lemma_field_of_insert(m1, "questionnaireId"@, number_of(questionnaire_id), k);
            lemma_field_of_insert(m2, "securityReviewId"@, number_of(security_review_id), k);
            lemma_put_str_field(m3, "emailContent"@, email_content@, k);
            lemma_put_opt_field(m4, "emailSubject"@, email_subject, k);
            assert(field_of(m0, k) is None);
        }
    }
}

/// The member a security review create body holds under `k`.
pub open spec fn review_member(
    k: Seq<char>,
    deadline: Seq<char>,
    status: SecurityReviewStatus,
    review_type: SecurityReviewType,
    title: Option<String>,
    note: Option<String>,
    requested_at: Option<String>,
    requester: Option<u64>,
) -> Option<JsonV> {
    if k == "securityReviewStatus"@ {
        Some(JsonV::Str(status_name(status)))
    } else if k == "securityReviewType"@ {
        Some(JsonV::Str(review_type_name(review_type)))
    } else if k == "reviewDeadlineAt"@ {
        Some(JsonV::Str(deadline))
    } else if k == "title"@ {
        given(title)
    } else if k == "note"@ {
        given(note)
    } else if k == "requestedAt"@ {
        given(requested_at)
    } else if k == "requesterUserId"@ {
        match requester {
            Some(id) => Some(number_of(id)),
            None => None,
        }
    } else {
        None
    }
}

/// `security-review create` without `--data` posts, confirmed, a body with
/// the status, type and deadline and every other given flag under its API
/// key; `security-review update` puts, confirmed, the given title and SOC
/// form; nothing else is sent in either.
pub proof fn lemma_security_review_bodies(a: VendorSecurityReviewAction)
    ensures
        a matches VendorSecurityReviewAction::Create {
            vendor_id,
            review_deadline_at,
            status,
            review_type,
            title,
            note,
            requested_at,
            requester_user_id,
            data,
            ..
        } ==> (data is None ==> (security_review_plan(a) matches PlanV::Send { method, path, body: Some(b), confirm }
            && method == "POST"@ && path == "/vendors/"@ + vendor_id@ + "/security-reviews"@ && confirm && forall|
            k: Seq<char>,
        |
            #[trigger] member(b, k) == review_member(
                k,
                review_deadline_at@,
                status,
                review_type,
                title,
                note,
                requested_at,
                requester_user_id,
            ))),
        a matches VendorSecurityReviewAction::Update { vendor_id, security_review_id, title, soc_form } ==> (
        security_review_plan(a) matches PlanV::Send { method, path, body: Some(b), confirm } && method == "PUT"@ && path
            == review_path(vendor_id@, security_review_id) && confirm && forall|k: Seq<char>|
            #[trigger] member(b, k) == (if k == "title"@ {
                given(title)
            } else if k == "socForm"@ {
                given(soc_form)
            } else {
                None
            })),
{
    reveal_strlit("securityReviewStatus");
    reveal_strlit("securityReviewType");
    reveal_strlit("reviewDeadlineAt");
    reveal_strlit("title");
    reveal_strlit("note");
    reveal_strlit("requestedAt");
    reveal_strlit("requesterUserId");
    reveal_strlit("socForm");
    assert("securityReviewStatus"@.len() == 20 && "securityReviewStatus"@[0] == 's' && "securityReviewStatus"@[19] == 's');
    assert("securityReviewType"@.len() == 18 && "securityReviewType"@[0] == 's' && "securityReviewType"@[17] == 'e');
    assert("reviewDeadlineAt"@.len() == 16 && "reviewDeadlineAt"@[0] == 'r' && "reviewDeadlineAt"@[15] == 't');
    assert("title"@.len() == 5 && "title"@[0] == 't' && "title"@[4] == 'e');
    assert("note"@.len() == 4 && "note"@[0] == 'n' && "note"@[3] == 'e');
    assert("requestedAt"@.len() == 11 && "requestedAt"@[0] == 'r' && "requestedAt"@[10] == 't');
    assert("requesterUserId"@.len() == 15 && "requesterUserId"@[0] == 'r' && "requesterUserId"@[14] == 'd');
    assert("socForm"@.len() == 7 && "socForm"@[0] == 's' && "socForm"@[6] == 'm');
    match a {
        VendorSecurityReviewAction::Create { review_deadline_at, status, review_type, title, note, requested_at, requester_user_id, .. } => {
            let d = review_deadline_at@;
            let m0 = Seq::<(Seq<char>, JsonV)>::empty();
            let m1 = put_str(m0, "securityReviewStatus"@, status_name(status));
            let m2 = put_str(m1, "securityReviewType"@, review_type_name(review_type));
            let m3 = put_str(m2, "reviewDeadlineAt"@, d);
            let m4 = put_opt(m3, "title"@, title);
            let m5 = put_opt(m4, "note"@, note);
            let m6 = put_opt(m5, "requestedAt"@, requested_at);
            let m7 = match requester_user_id {
                Some(id) => put_u64(m6, "requesterUserId"@, id),
                None => m6,
            };
            assert(m7 == review_body(d, status, review_type, title, note, requested_at, requester_user_id));
            assert forall|k: Seq<char>|
                #[trigger] field_of(m7, k) == review_member(k, d, status, review_type, title, note, requested_at, requester_user_id) by {
                lemma_put_str_field(m0, "securityReviewStatus"@, status_name(status), k);
                lemma_put_str_field(m1, "securityReviewType"@, review_type_name(review_type), k);
                lemma_put_str_field(m2, "reviewDeadlineAt"@, d, k);
                lemma_put_opt_field(m3, "title"@, title, k);
                lemma_put_opt_field(m4, "note"@, note, k);
                lemma_put_opt_field(m5, "requestedAt"@, requested_at, k);
                match requester_user_id {
                    Some(id) => lemma_field_of_insert(m6, "requesterUserId"@, number_of(id), k),
                    None => {},
                }
                assert(field_of(m0, k) is None);
            }
        },
        VendorSecurityReviewAction::Update { title, soc_form, .. } => {
            let m0 = Seq::<(Seq<char>, JsonV)>::empty();
            let m1 = put_opt(m0, "title"@, title);
            let m2 = put_opt(m1, "socForm"@, soc_form);
            assert forall|k: Seq<char>| #[trigger] field_of(m2, k) == (if k == "title"@ {
                given(title)
            } else if k == "socForm"@ {
                given(soc_form)
            } else {
                None
            }) by {
                lemma_put_opt_field(m0, "title"@, title, k);
                lemma_put_opt_field(m1, "socForm"@, soc_form, k);
                assert(field_of(m0, k) is None);
            }
        },
        _ => {},
    }
}

} // verus!
