//! Output: JSON or a table, and when to page it.
//!
//! `Json` prints pretty JSON; `Table` picks a table for known response
//! shapes and falls back to JSON; `Auto` prints JSON when stdout is piped and
//! a table on a terminal. `$PAGER` (default `less -R -F -X`) is used only on
//! a terminal, when the output is taller than the screen.

pub mod table;

use vstd::prelude::*;
use crate::cli::OutputFormat;
use crate::json::Json;
use crate::json_text::{pretty, to_pretty};
use crate::resources::texts;
use crate::text::{chars_of, is_white_space, is_whitespace_char, string_from_chars};

verus! {

/// Output shorter than this many lines is never paged.
pub const PAGER_MIN_LINES: usize = 2;

/// Whether a value is printed as JSON: `Json` always, `Table` never, `Auto`
/// when stdout is not a terminal.
pub open spec fn prints_json(format: OutputFormat, stdout_is_tty: bool) -> bool {
    match format {
        OutputFormat::Json => true,
        OutputFormat::Table => false,
        OutputFormat::Auto => !stdout_is_tty,
    }
}

/// Chooses JSON or a table.
pub fn as_json(format: OutputFormat, stdout_is_tty: bool) -> (r: bool)
    ensures
        r == prints_json(format, stdout_is_tty),
{
    match format {
        OutputFormat::Json => true,
        OutputFormat::Table => false,
        OutputFormat::Auto => !stdout_is_tty,
    }
}

/// `s` without its trailing newlines.
pub open spec fn trim_newlines(s: Seq<char>) -> Seq<char>
    decreases s.len(),
{
    if s.len() > 0 && s.last() == '\n' {
        trim_newlines(s.drop_last())
    } else {
        s
    }
}

/// What is printed for a value: pretty JSON, or its table without the
/// final newlines (pretty JSON for a shape that has no table).
pub open spec fn rendered_text(value: crate::json::JsonV, json: bool, width: nat) -> Seq<char> {
    if json {
        pretty(value, 0)
    } else {
        match table::render_text(value, width) {
            Some(t) => trim_newlines(t),
            None => pretty(value, 0),
        }
    }
}

/// Renders a value for printing.
pub fn rendered(value: &Json, json: bool, width: usize) -> (r: String)
    ensures
        r@ == rendered_text(value@, json, width as nat),
{
    if json {
        return to_pretty(value);
    }
    match table::render(value, width) {
        Some(t) => {
            let cs = chars_of(t.as_str());
            let mut n: usize = cs.len();
            assert(cs@.take(n as int) =~= cs@);
            while n > 0 && cs[n - 1] == '\n'
                invariant
                    n <= cs@.len(),
                    cs@ == t@,
                    trim_newlines(t@) == trim_newlines(cs@.take(n as int)),
                decreases n,
            {
                assert(cs@.take(n as int).drop_last() =~= cs@.take(n - 1));
                n = n - 1;
            }
            assert(cs@.take(n as int) =~= cs@.subrange(0, n as int));
            string_from_chars(&cs.as_slice()[0..n])
        },
        None => to_pretty(value),
    }
}

/// The number of newlines in `s`.
pub open spec fn newline_count(s: Seq<char>) -> nat
    decreases s.len(),
{
    if s.len() == 0 {
        0
    } else {
        newline_count(s.drop_last()) + if s.last() == '\n' {
            1nat
        } else {
            0nat
        }
    }
}

/// The number of lines `str::lines` yields: one per newline, plus a final
/// line without one.
pub open spec fn line_count(s: Seq<char>) -> nat {
    newline_count(s) + if s.len() > 0 && s.last() != '\n' {
        1nat
    } else {
        0nat
    }
}

/// Whether output of `lines` lines goes through the pager: only on a
/// terminal, and only when it is taller than the screen (and than
/// `PAGER_MIN_LINES`).
pub open spec fn pages(lines: nat, stdout_is_tty: bool, height: nat) -> bool {
    stdout_is_tty && lines > (if height > PAGER_MIN_LINES {
        height
    } else {
        PAGER_MIN_LINES as nat
    })
}

/// Whether `content` goes through the pager.
pub fn should_page(content: &str, stdout_is_tty: bool, height: usize) -> (r: bool)
    ensures
        r == pages(line_count(content@), stdout_is_tty, height as nat),
{
    let cs = chars_of(content);
    let mut newlines: usize = 0;
    let mut i: usize = 0;
    while i < cs.len()
        invariant
            i <= cs@.len(),
            cs@ == content@,
            newlines == newline_count(cs@.take(i as int)),
            newlines <= i,
        decreases cs.len() - i,
    {
        proof {
            assert(cs@.take(i + 1).drop_last() =~= cs@.take(i as int));
            assert(cs@.take(i + 1).last() == cs@[i as int]);
        }
        if cs[i] == '\n' {
            newlines = newlines + 1;
        }
        i = i + 1;
    }
    assert(cs@.take(i as int) =~= cs@);
    let last_open = cs.len() > 0 && cs[cs.len() - 1] != '\n';
    let limit = if height > PAGER_MIN_LINES { height } else { PAGER_MIN_LINES };
    let taller = if last_open { newlines >= limit } else { newlines > limit };
    stdout_is_tty && taller
}

/// The length of the run of non-whitespace characters that starts `s`.
pub open spec fn word_len(s: Seq<char>) -> nat
    decreases s.len(),
{
    if s.len() == 0 || is_white_space(s[0]) {
        0
    } else {
        1 + word_len(s.drop_first())
    }
}

/// A word never runs past the end.
pub proof fn lemma_word_len(s: Seq<char>)
    ensures
        word_len(s) <= s.len(),
    decreases s.len(),
{
    if s.len() > 0 && !is_white_space(s[0]) {
        lemma_word_len(s.drop_first());
    }
}

/// The whitespace-separated words of `s`, in order, as
/// `str::split_whitespace` yields them.
pub open spec fn words(s: Seq<char>) -> Seq<Seq<char>>
    decreases s.len(),
{
    if s.len() == 0 {
        Seq::empty()
    } else if is_white_space(s[0]) {
        words(s.drop_first())
    } else {
        proof {
            lemma_word_len(s);
        }
        seq![s.take(word_len(s) as int)] + words(s.skip(word_len(s) as int))
    }
}

/// Splits `s` at runs of whitespace.
pub fn split_whitespace(s: &str) -> (r: Vec<String>)
    ensures
        texts(r@) == words(s@),
{
    let cs = chars_of(s);
    let mut out: Vec<String> = Vec::new();
    let mut i: usize = 0;
    assert(cs@.skip(0) =~= cs@);
    assert(texts(out@) =~= Seq::<Seq<char>>::empty());
    while i < cs.len()
        invariant
            i <= cs@.len(),
            cs@ == s@,
            words(s@) == texts(out@) + words(cs@.skip(i as int)),
        decreases cs.len() - i,
    {
        let ghost rest = cs@.skip(i as int);
        assert(rest[0] == cs@[i as int]);
        if is_whitespace_char(cs[i]) {
            assert(rest.drop_first() =~= cs@.skip(i + 1));
            i = i + 1;
        } else {
            let mut j: usize = i;
            while j < cs.len() && !is_whitespace_char(cs[j])
                invariant
                    i <= j <= cs@.len(),
                    word_len(rest) == (j - i) + word_len(cs@.skip(j as int)),
                    rest == cs@.skip(i as int),
                decreases cs.len() - j,
            {
                assert(cs@.skip(j as int)[0] == cs@[j as int]);
                assert(cs@.skip(j as int).drop_first() =~= cs@.skip(j + 1));
                j = j + 1;
            }
            proof {
                if j < cs.len() {
                    assert(cs@.skip(j as int)[0] == cs@[j as int]);
                }
                assert(word_len(cs@.skip(j as int)) == 0);
                lemma_word_len(rest);
                assert(rest.take(word_len(rest) as int) =~= cs@.subrange(i as int, j as int));
                assert(rest.skip(word_len(rest) as int) =~= cs@.skip(j as int));
            }
            let ghost before = out@;
            out.push(string_from_chars(&cs.as_slice()[i..j]));
            assert(texts(out@) =~= texts(before).push(cs@.subrange(i as int, j as int)));
            assert(texts(out@) + words(cs@.skip(j as int)) =~= texts(before) + (seq![
                cs@.subrange(i as int, j as int),
            ] + words(cs@.skip(j as int))));
            i = j;
        }
    }
    assert(cs@.skip(i as int).len() == 0);
    assert(texts(out@) + Seq::<Seq<char>>::empty() =~= texts(out@));
    out
}

/// The pager: the first word of `$PAGER` and the rest as its arguments, or
/// `less -R -F -X` when `$PAGER` is unset or blank.
pub open spec fn pager_of(env: Option<Seq<char>>) -> (Seq<char>, Seq<Seq<char>>) {
    match env {
        Some(e) if words(e).len() > 0 => (words(e)[0], words(e).drop_first()),
        _ => ("less"@, seq!["-R"@, "-F"@, "-X"@]),
    }
}

/// The pager command and its arguments, given the value of `$PAGER`.
pub fn pager_command(env: Option<&str>) -> (r: (String, Vec<String>))
    ensures
        (r.0@, texts(r.1@)) == pager_of(
            match env {
                Some(e) => Some(e@),
                None => None,
            },
        ),
{
    match env {
        Some(e) => {
            let mut parts = split_whitespace(e);
            if parts.len() > 0 {
                let ghost all = texts(parts@);
                let cmd = parts.remove(0);
                assert(texts(parts@) =~= all.drop_first());
                return (cmd, parts);
            }
        },
        None => {},
    }
    let mut args: Vec<String> = Vec::new();
    args.push("-R".to_string());
    args.push("-F".to_string());
    args.push("-X".to_string());
    assert(texts(args@) =~= seq!["-R"@, "-F"@, "-X"@]);
    ("less".to_string(), args)
}

/// Paging: output to a pipe or file is never paged; output that fits the
/// screen is never paged; output taller than the screen (and than
/// `PAGER_MIN_LINES`) on a terminal is; and more lines never stop paging.
pub proof fn lemma_paging(lines: nat, more: nat, stdout_is_tty: bool, height: nat)
    ensures
        !stdout_is_tty ==> !pages(lines, stdout_is_tty, height),
        lines <= height ==> !pages(lines, stdout_is_tty, height),
        lines <= PAGER_MIN_LINES ==> !pages(lines, stdout_is_tty, height),
        stdout_is_tty && lines > height && lines > PAGER_MIN_LINES ==> pages(lines, stdout_is_tty, height),
        pages(lines, stdout_is_tty, height) && lines <= more ==> pages(more, stdout_is_tty, height),
{
}

/// Output format: `--output json` always prints JSON and `--output table`
/// never does; by default, output to a terminal is a table and output to a
/// pipe is JSON.
pub proof fn lemma_output_format(stdout_is_tty: bool)
    ensures
        prints_json(OutputFormat::Json, stdout_is_tty),
        !prints_json(OutputFormat::Table, stdout_is_tty),
        prints_json(OutputFormat::Auto, stdout_is_tty) == !stdout_is_tty,
{
}

} // verus!
