//! `drata login` / `logout` / `whoami` / `auth`: what credential onboarding
//! reports. Storing the profile and printing are the binary's job.

use vstd::prelude::*;
use crate::client::{debug_quote, debug_text, join};
use crate::config::{AuthDiagnostic, TokenSource};
use crate::resources::texts;
use crate::text::push_str;

verus! {

/// The line that says where the key came from.
pub open spec fn source_line(t: TokenSource) -> Seq<char> {
    match t {
        TokenSource::CliFlag => "source:    --api-key flag"@,
        TokenSource::EnvVar => "source:    DRATA_API_KEY env var"@,
        TokenSource::Profile(p) => "source:    profile "@ + debug_text(p@),
        TokenSource::NotFound => "source:    (none found)"@,
    }
}

/// The onboarding hint printed by `drata auth` when no key was found.
pub open spec fn hint_text() -> Seq<char> {
    "\nTo configure a key:\n  drata login --api-key <your-key> --region us\nor set an env var:\n  export DRATA_API_KEY=<your-key>\n"@
}

/// The first lines of the report: whether a key was found, its source, the
/// profile, the region and the write flag.
pub open spec fn head_text(d: AuthDiagnostic) -> Seq<char> {
    "key:       "@ + (if d.token_source is NotFound {
        "not found"@
    } else {
        "found"@
    }) + "\n"@ + source_line(d.token_source) + "\n"@ + "profile:   "@ + d.profile@ + "\n"@ + "region:    "@
        + (match d.region {
        Some(r) => r@,
        None => "(default us)"@,
    }) + "\n"@ + "writes:    "@ + (if d.allow_writes {
        "enabled"@
    } else {
        "disabled"@
    }) + "\n"@
}

/// The credentials file line, when the file exists.
pub open spec fn creds_text(d: AuthDiagnostic) -> Seq<char> {
    match d.credentials_path {
        Some(p) => "creds:     "@ + p@ + "\n"@,
        None => Seq::empty(),
    }
}

/// The known profiles line, when there is any profile.
pub open spec fn profiles_text(d: AuthDiagnostic) -> Seq<char> {
    if d.known_profiles@.len() > 0 {
        "profiles:  "@ + join(texts(d.known_profiles@), ", "@) + "\n"@
    } else {
        Seq::empty()
    }
}

/// The diagnostic report, one line per fact; `terse` leaves out the
/// onboarding hint shown when no key was found.
pub open spec fn diagnostic_text(d: AuthDiagnostic, terse: bool) -> Seq<char> {
    head_text(d) + creds_text(d) + profiles_text(d) + (if d.token_source is NotFound && !terse {
        hint_text()
    } else {
        Seq::empty()
    })
}

/// The strings of `parts` with `sep` between them.
pub fn join_strings(parts: &Vec<String>, sep: &str) -> (r: String)
    ensures
        r@ == join(texts(parts@), sep@),
{
    let mut out = String::new();
    let mut i: usize = 0;
    while i < parts.len()
        invariant
            i <= parts@.len(),
            out@ == join(texts(parts@).subrange(0, i as int), sep@),
        decreases parts.len() - i,
    {
        let ghost sub = texts(parts@).subrange(0, i + 1);
        assert(sub.drop_last() =~= texts(parts@).subrange(0, i as int));
        assert(sub.last() == parts@[i as int]@);
        if i > 0 {
            push_str(&mut out, sep);
        }
        push_str(&mut out, parts[i].as_str());
        i = i + 1;
    }
    assert(texts(parts@).subrange(0, i as int) =~= texts(parts@));
    out
}

/// Writes the first lines of the report.
fn head(diag: &AuthDiagnostic) -> (r: String)
    ensures
        r@ == head_text(*diag),
{
    let mut out = String::new();
    push_str(&mut out, "key:       ");
    match diag.token_source {
        TokenSource::NotFound => push_str(&mut out, "not found"),
        _ => push_str(&mut out, "found"),
    }
    push_str(&mut out, "\n");
    match &diag.token_source {
        TokenSource::CliFlag => push_str(&mut out, "source:    --api-key flag"),
        TokenSource::EnvVar => push_str(&mut out, "source:    DRATA_API_KEY env var"),
        TokenSource::Profile(p) => {
            push_str(&mut out, "source:    profile ");
            push_str(&mut out, debug_quote(p.as_str()).as_str());
        },
        TokenSource::NotFound => push_str(&mut out, "source:    (none found)"),
    }
    push_str(&mut out, "\n");
    push_str(&mut out, "profile:   ");
    push_str(&mut out, diag.profile.as_str());
    push_str(&mut out, "\n");
    push_str(&mut out, "region:    ");
    match &diag.region {
        Some(r) => push_str(&mut out, r.as_str()),
        None => push_str(&mut out, "(default us)"),
    }
    push_str(&mut out, "\n");
    push_str(&mut out, "writes:    ");
    push_str(&mut out, if diag.allow_writes { "enabled" } else { "disabled" });
    push_str(&mut out, "\n");
    out
}

/// Writes the diagnostic report.
fn diagnostic(diag: &AuthDiagnostic, terse: bool) -> (r: String)
    ensures
        r@ == diagnostic_text(*diag, terse),
{
    let mut out = head(diag);
    match &diag.credentials_path {
        Some(p) => {
            push_str(&mut out, "creds:     ");
            push_str(&mut out, p.as_str());
            push_str(&mut out, "\n");
        },
        None => {},
    }
    assert(out@ =~= head_text(*diag) + creds_text(*diag));
    if diag.known_profiles.len() > 0 {
        push_str(&mut out, "profiles:  ");
        push_str(&mut out, join_strings(&diag.known_profiles, ", ").as_str());
        push_str(&mut out, "\n");
    }
    assert(out@ =~= head_text(*diag) + creds_text(*diag) + profiles_text(*diag));
    let missing = match diag.token_source {
        TokenSource::NotFound => true,
        _ => false,
    };
    if missing && !terse {
        push_str(
            &mut out,
            "\nTo configure a key:\n  drata login --api-key <your-key> --region us\nor set an env var:\n  export DRATA_API_KEY=<your-key>\n",
        );
    }
    assert(out@ =~= diagnostic_text(*diag, terse));
    out
}

/// `drata whoami`: the active credential and where it came from, never the
/// key itself.
pub fn whoami(diag: &AuthDiagnostic) -> (r: String)
    ensures
        r@ == diagnostic_text(*diag, true),
{
    diagnostic(diag, true)
}

/// `drata auth`: the same report, with the onboarding hint when no key is
/// configured; it works on a fresh install.
pub fn auth(diag: &AuthDiagnostic) -> (r: String)
    ensures
        r@ == diagnostic_text(*diag, false),
{
    diagnostic(diag, false)
}

/// What `drata login` reports once the profile is stored.
pub open spec fn login_text(profile: Seq<char>, region: Seq<char>, allow_writes: bool) -> Seq<char> {
    "Saved profile "@ + debug_text(profile) + " (region "@ + region + ", writes "@ + (if allow_writes {
        "enabled"@
    } else {
        "disabled"@
    }) + ")."@
}

/// The report of `drata login`.
pub fn login_message(profile: &str, region: &str, allow_writes: bool) -> (r: String)
    ensures
        r@ == login_text(profile@, region@, allow_writes),
{
    let mut m = String::new();
    push_str(&mut m, "Saved profile ");
    push_str(&mut m, debug_quote(profile).as_str());
    push_str(&mut m, " (region ");
    push_str(&mut m, region);
    push_str(&mut m, ", writes ");
    push_str(&mut m, if allow_writes { "enabled" } else { "disabled" });
    push_str(&mut m, ").");
    m
}

/// What `drata logout` reports: whether a profile was removed.
pub open spec fn logout_text(profile: Seq<char>, removed: bool) -> Seq<char> {
    if removed {
        "Removed profile "@ + debug_text(profile) + "."@
    } else {
        "No profile named "@ + debug_text(profile) + " to remove."@
    }
}

/// The report of `drata logout`.
pub fn logout_message(profile: &str, removed: bool) -> (r: String)
    ensures
        r@ == logout_text(profile@, removed),
{
    let mut m = String::new();
    if removed {
        push_str(&mut m, "Removed profile ");
        push_str(&mut m, debug_quote(profile).as_str());
        push_str(&mut m, ".");
    } else {
        push_str(&mut m, "No profile named ");
        push_str(&mut m, debug_quote(profile).as_str());
        push_str(&mut m, " to remove.");
    }
    m
}

} // verus!
