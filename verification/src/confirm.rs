//! Confirmation of mutating requests (POST, PUT, PATCH, DELETE).
//!
//! Fail-closed rules: with `--yes` every request proceeds; without it, a
//! request needs an interactive terminal and an explicit `y` or `yes`; with no
//! terminal it is refused. Reading the terminal is the binary's job; the
//! rules, the prompt and the reading of the answer are here.

use vstd::prelude::*;
use crate::client::{trim, trim_of};
use crate::text::{lowercase_of, push_str, to_lowercase};
use crate::json::str_eq;

verus! {

/// A mutation refused because nobody can confirm it.
#[derive(Debug)]
pub struct ConfirmError {
    pub method: String,
    pub path: String,
}

/// The text of a refused confirmation.
pub open spec fn confirm_error_text(method: Seq<char>, path: Seq<char>) -> Seq<char> {
    "mutation "@ + method + " "@ + path
        + " requires confirmation but stdin is not a TTY. Pass --yes to bypass, or run interactively."@
}

impl ConfirmError {
    /// The message shown to the user.
    pub fn message(&self) -> (r: String)
        ensures
            r@ == confirm_error_text(self.method@, self.path@),
    {
        let mut m = String::new();
        push_str(&mut m, "mutation ");
        push_str(&mut m, self.method.as_str());
        push_str(&mut m, " ");
        push_str(&mut m, self.path.as_str());
        push_str(&mut m, " requires confirmation but stdin is not a TTY. Pass --yes to bypass, or run interactively.");
        m
    }
}

/// A confirmer that always proceeds.
pub fn always_yes() -> (r: impl Fn(&str, &str) -> Result<bool, ConfirmError>)
    ensures
        forall|m: &str, p: &str| #[trigger] call_requires(r, (m, p)),
        forall|m: &str, p: &str, out: Result<bool, ConfirmError>| call_ensures(r, (m, p), out) ==> out == Ok::<
            bool,
            ConfirmError,
        >(true),
{
    |m: &str, p: &str| -> (out: Result<bool, ConfirmError>)
        ensures
            out == Ok::<bool, ConfirmError>(true),
        { Ok(true) }
}

/// A confirmer that always aborts, as a user answering no.
pub fn always_no() -> (r: impl Fn(&str, &str) -> Result<bool, ConfirmError>)
    ensures
        forall|m: &str, p: &str| #[trigger] call_requires(r, (m, p)),
        forall|m: &str, p: &str, out: Result<bool, ConfirmError>| call_ensures(r, (m, p), out) ==> out == Ok::<
            bool,
            ConfirmError,
        >(false),
{
    |m: &str, p: &str| -> (out: Result<bool, ConfirmError>)
        ensures
            out == Ok::<bool, ConfirmError>(false),
        { Ok(false) }
}

/// A confirmer that refuses every mutation, as happens without `--yes` when
/// stdin is not a terminal.
pub fn fail_closed() -> (r: impl Fn(&str, &str) -> Result<bool, ConfirmError>)
    ensures
        forall|m: &str, p: &str| #[trigger] call_requires(r, (m, p)),
        forall|m: &str, p: &str, out: Result<bool, ConfirmError>| call_ensures(r, (m, p), out) ==> (out matches Err(
            e,
        ) && e.method@ == m@ && e.path@ == p@),
{
    |m: &str, p: &str| -> (out: Result<bool, ConfirmError>)
        ensures
            out matches Err(e) && e.method@ == m@ && e.path@ == p@,
        { Err(ConfirmError { method: m.to_string(), path: p.to_string() }) }
}

/// What to do about a mutation before sending it.
#[derive(Debug, Clone, Copy, PartialEq, Eq, Structural)]
pub enum Gate {
    /// Send it: `--yes` was given.
    Proceed,
    /// Ask on the terminal and send only on `y` or `yes`.
    Ask,
}

/// The fail-closed rules: `--yes` proceeds; otherwise a terminal is needed
/// to ask, and without one the mutation is refused.
pub fn gate(yes: bool, stdin_is_tty: bool, method: &str, path: &str) -> (r: Result<Gate, ConfirmError>)
    ensures
        yes ==> r == Ok::<Gate, ConfirmError>(Gate::Proceed),
        !yes && stdin_is_tty ==> r == Ok::<Gate, ConfirmError>(Gate::Ask),
        !yes && !stdin_is_tty ==> (r matches Err(e) && e.method@ == method@ && e.path@ == path@),
{
    if yes {
        Ok(Gate::Proceed)
    } else if !stdin_is_tty {
        Err(ConfirmError { method: method.to_string(), path: path.to_string() })
    } else {
        Ok(Gate::Ask)
    }
}

/// The question asked on the terminal.
pub open spec fn prompt_text(method: Seq<char>, path: Seq<char>) -> Seq<char> {
    "About to "@ + method + " "@ + path + ". Proceed? [y/N] "@
}

/// The question asked before `method` on `path`.
pub fn prompt(method: &str, path: &str) -> (r: String)
    ensures
        r@ == prompt_text(method@, path@),
{
    let mut m = String::new();
    push_str(&mut m, "About to ");
    push_str(&mut m, method);
    push_str(&mut m, " ");
    push_str(&mut m, path);
    push_str(&mut m, ". Proceed? [y/N] ");
    m
}

/// A normalised (trimmed, lower-cased) answer that confirms: `y` or `yes`.
pub open spec fn is_yes(normalised: Seq<char>) -> bool {
    normalised == "y"@ || normalised == "yes"@
}

/// An answer confirms when, trimmed and lower-cased, it is `y` or `yes`.
pub open spec fn confirms(answer: Seq<char>) -> bool {
    is_yes(lowercase_of(trim_of(answer)))
}

/// Whether an answer already trimmed and lower-cased confirms.
pub fn normalised_confirms(normalised: &str) -> (r: bool)
    ensures
        r == is_yes(normalised@),
{
    str_eq(normalised, "y") || str_eq(normalised, "yes")
}

/// Reads the answer typed at the prompt.
pub fn answer_confirms(input: &str) -> (r: bool)
    ensures
        r == confirms(input@),
{
    let t = to_lowercase(trim(input));
    normalised_confirms(t.as_str())
}

} // verus!
