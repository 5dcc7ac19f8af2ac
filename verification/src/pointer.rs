//! JSON Pointer (RFC 6901) lookup in the library's JSON model, used to
//! follow `$ref` links inside the OpenAPI document.

use vstd::prelude::*;
use crate::json::{Json, JsonV, field_of, lemma_items_view};
use crate::text::{chars_of, first_index, lemma_first_index, string_from_chars};

verus! {

/// `s` split at every `c` (as `str::split`: an empty string gives one empty
/// piece, and a separator at either end gives an empty piece there).
pub open spec fn split_on(s: Seq<char>, c: char) -> Seq<Seq<char>>
    decreases s.len(),
{
    match first_index(s, c) {
        None => seq![s],
        Some(i) => {
            proof {
                lemma_first_index(s, c);
            }
            seq![s.take(i as int)] + split_on(s.skip(i as int + 1), c)
        },
    }
}

/// `s` with every non-overlapping `ab`, scanned left to right, replaced by
/// `w` (as `str::replace` with a two-character pattern).
pub open spec fn replace_pair(s: Seq<char>, a: char, b: char, w: char) -> Seq<char>
    decreases s.len(),
{
    if s.len() < 2 {
        s
    } else if s[0] == a && s[1] == b {
        seq![w] + replace_pair(s.skip(2), a, b, w)
    } else {
        seq![s[0]] + replace_pair(s.drop_first(), a, b, w)
    }
}

/// A reference token with its escapes undone: `~1` is `/`, then `~0` is `~`.
pub open spec fn unescape_token(t: Seq<char>) -> Seq<char> {
    replace_pair(replace_pair(t, '~', '1', '/'), '~', '0', '~')
}

/// Every character is an ASCII digit.
pub open spec fn all_digits(t: Seq<char>) -> bool {
    forall|i: int| 0 <= i < t.len() ==> '0' <= #[trigger] t[i] <= '9'
}

/// The number a string of digits denotes.
pub open spec fn digits_value(t: Seq<char>) -> nat
    decreases t.len(),
{
    if t.len() == 0 {
        0
    } else {
        digits_value(t.drop_last()) * 10 + ((t.last() as int) - ('0' as int)) as nat
    }
}

/// An array index token: decimal digits without a sign or a leading zero,
/// within the range of `usize`.
pub open spec fn array_index(t: Seq<char>) -> Option<nat> {
    if t.len() == 0 || t[0] == '+' || (t[0] == '0' && t.len() != 1) || !all_digits(t) || digits_value(t)
        > usize::MAX {
        None
    } else {
        Some(digits_value(t))
    }
}

/// One step of a lookup: an object member, or an array element.
pub open spec fn step(v: JsonV, t: Seq<char>) -> Option<JsonV> {
    match v {
        JsonV::Object(f) => field_of(f, t),
        JsonV::Array(a) => match array_index(t) {
            Some(i) => if i < a.len() {
                Some(a[i as int])
            } else {
                None
            },
            None => None,
        },
        _ => None,
    }
}

/// Follows the tokens from `v`.
pub open spec fn walk(v: JsonV, tokens: Seq<Seq<char>>) -> Option<JsonV>
    decreases tokens.len(),
{
    if tokens.len() == 0 {
        Some(v)
    } else {
        match step(v, tokens[0]) {
            Some(n) => walk(n, tokens.drop_first()),
            None => None,
        }
    }
}

/// What the pointer `p` designates in `doc`: the whole document for the
/// empty pointer, nothing for a pointer that does not start with `/`.
pub open spec fn resolve_pointer(doc: JsonV, p: Seq<char>) -> Option<JsonV> {
    if p.len() == 0 {
        Some(doc)
    } else if p[0] != '/' {
        None
    } else {
        walk(doc, split_on(p, '/').drop_first().map_values(|t: Seq<char>| unescape_token(t)))
    }
}

/// Splits a character sequence at every `c`.
fn split_chars(s: &[char], c: char) -> (r: Vec<Vec<char>>)
    ensures
        r@.map_values(|t: Vec<char>| t@) == split_on(s@, c),
{
    let mut out: Vec<Vec<char>> = Vec::new();
    let mut start: usize = 0;
    let mut i: usize = 0;
    assert(s@.skip(0) =~= s@);
    assert(out@.map_values(|t: Vec<char>| t@) =~= Seq::<Seq<char>>::empty());
    while i < s.len()
        invariant
            start <= i <= s@.len(),
            forall|k: int| start <= k < i ==> s@[k] != c,
            split_on(s@, c) == out@.map_values(|t: Vec<char>| t@) + split_on(s@.skip(start as int), c),
        decreases s.len() - i,
    {
        if s[i] == c {
            let piece: Vec<char> = vstd::slice::slice_to_vec(&s[start..i]);
            proof {
                let rest = s@.skip(start as int);
                lemma_first_index(rest, c);
                assert(forall|k: int| 0 <= k < i - start ==> rest[k] == s@[start + k]);
                assert(rest[i - start] == c);
                assert(first_index(rest, c) == Some((i - start) as nat)) by {
                    lemma_first_index(rest, c);
                    match first_index(rest, c) {
                        Some(j) => {
                            if j < i - start {
                                assert(rest[j as int] == s@[start + j]);
                            }
                        },
                        None => {},
                    }
                }
                assert(rest.take(i - start) =~= piece@);
                assert(rest.skip(i - start + 1) =~= s@.skip(i + 1));
                let before = out@.map_values(|t: Vec<char>| t@);
                assert((out@.push(piece)).map_values(|t: Vec<char>| t@) =~= before.push(piece@));
                assert(before + split_on(rest, c) =~= before.push(piece@) + split_on(s@.skip(i + 1), c));
            }
            out.push(piece);
            start = i + 1;
        }
        i = i + 1;
    }
    let last: Vec<char> = vstd::slice::slice_to_vec(&s[start..s.len()]);
    proof {
        let rest = s@.skip(start as int);
        lemma_first_index(rest, c);
        match first_index(rest, c) {
            Some(j) => {
                assert(rest[j as int] == s@[start + j]);
            },
            None => {},
        }
        assert(rest =~= last@);
        let before = out@.map_values(|t: Vec<char>| t@);
        assert((out@.push(last)).map_values(|t: Vec<char>| t@) =~= before.push(last@));
    }
    out.push(last);
    out
}

/// Replaces every non-overlapping `ab` with `w`, left to right.
fn replace_pair_chars(s: &[char], a: char, b: char, w: char) -> (r: Vec<char>)
    ensures
        r@ == replace_pair(s@, a, b, w),
{
    let mut out: Vec<char> = Vec::new();
    let mut i: usize = 0;
    assert(s@.skip(0) =~= s@);
    while i < s.len()
        invariant
            i <= s@.len(),
            replace_pair(s@, a, b, w) == out@ + replace_pair(s@.skip(i as int), a, b, w),
        decreases s.len() - i,
    {
        let ghost rest = s@.skip(i as int);
        if i + 1 < s.len() && s[i] == a && s[i + 1] == b {
            proof {
                assert(rest[0] == s@[i as int] && rest[1] == s@[i + 1]);
                assert(rest.skip(2) =~= s@.skip(i + 2));
            }
            out.push(w);
            i = i + 2;
        } else {
            proof {
                assert(rest[0] == s@[i as int]);
                assert(rest.drop_first() =~= s@.skip(i + 1));
                if i + 1 < s.len() {
                    assert(rest[1] == s@[i + 1]);
                }
            }
            out.push(s[i]);
            i = i + 1;
        }
    }
    assert(s@.skip(i as int).len() == 0);
    out
}

/// Parses an array index token.
fn parse_index(t: &[char]) -> (r: Option<usize>)
    ensures
        match array_index(t@) {
            Some(n) => r == Some(n as usize),
            None => r is None,
        },
{
    if t.len() == 0 || t[0] == '+' || (t[0] == '0' && t.len() != 1) {
        return None;
    }
    let mut v: usize = 0;
    let mut i: usize = 0;
    while i < t.len()
        invariant
            i <= t@.len(),
            all_digits(t@.subrange(0, i as int)),
            v as nat == digits_value(t@.subrange(0, i as int)),
        decreases t.len() - i,
    {
        let c = t[i];
        proof {
            assert(t@.subrange(0, i + 1).drop_last() =~= t@.subrange(0, i as int));
            assert(t@.subrange(0, i + 1).last() == c);
        }
        if c < '0' || c > '9' {
            assert(!all_digits(t@));
            return None;
        }
        let d = (c as u32 - '0' as u32) as usize;
        if v > (usize::MAX - d) / 10 {
            proof {
                lemma_digits_prefix_le(t@, i + 1);
                assert(digits_value(t@.subrange(0, i + 1)) == v * 10 + d);
                assert(v * 10 + d > usize::MAX) by (nonlinear_arith)
                    requires
                        v > (usize::MAX - d) / 10,
                        d <= 9,
                ;
                assert(all_digits(t@.subrange(0, i + 1)));
            }
            return None;
        }
        v = v * 10 + d;
        i = i + 1;
    }
    assert(t@.subrange(0, t@.len() as int) =~= t@);
    Some(v)
}

/// A longer all-digit prefix never denotes a smaller number.
pub proof fn lemma_digits_prefix_le(t: Seq<char>, n: int)
    requires
        0 <= n <= t.len(),
        all_digits(t.subrange(0, n)),
    ensures
        all_digits(t) ==> digits_value(t.subrange(0, n)) <= digits_value(t),
    decreases t.len() - n,
{
    if n < t.len() && all_digits(t) {
        assert(all_digits(t.subrange(0, n + 1)));
        lemma_digits_prefix_le(t, n + 1);
        assert(t.subrange(0, n + 1).drop_last() =~= t.subrange(0, n));
    }
    if n == t.len() {
        assert(t.subrange(0, n) =~= t);
    }
}

/// One lookup step.
fn step_into<'a>(v: &'a Json, t: &[char]) -> (r: Option<&'a Json>)
    ensures
        match step(v@, t@) {
            Some(n) => r matches Some(x) && x@ == n,
            None => r is None,
        },
{
    match v {
        Json::Object(_) => {
            let key = string_from_chars(t);
            v.get(key.as_str())
        },
        Json::Array(a) => {
            proof {
                lemma_items_view(a@);
            }
            match parse_index(t) {
                Some(i) => {
                    if i < a.len() {
                        Some(&a[i])
                    } else {
                        None
                    }
                },
                None => None,
            }
        },
        _ => None,
    }
}

/// Resolves a JSON pointer inside `doc`.
pub fn pointer<'a>(doc: &'a Json, p: &str) -> (r: Option<&'a Json>)
    ensures
        match resolve_pointer(doc@, p@) {
            Some(n) => r matches Some(x) && x@ == n,
            None => r is None,
        },
{
    let pc = chars_of(p);
    if pc.len() == 0 {
        return Some(doc);
    }
    if pc[0] != '/' {
        return None;
    }
    let pieces = split_chars(pc.as_slice(), '/');
    let ghost toks = split_on(p@, '/').drop_first().map_values(|t: Seq<char>| unescape_token(t));
    let mut cur: &Json = doc;
    let mut i: usize = 1;
    assert(p@.len() > 0 && p@[0] == '/');
    assert(toks.skip(0) =~= toks);
    assert(pieces@.len() >= 1) by {
        assert(pieces@.map_values(|t: Vec<char>| t@).len() == pieces@.len());
        lemma_first_index(p@, '/');
    }
    while i < pieces.len()
        invariant
            1 <= i <= pieces@.len(),
            pieces@.len() >= 1,
            pieces@.map_values(|t: Vec<char>| t@) == split_on(p@, '/'),
            toks == split_on(p@, '/').drop_first().map_values(|t: Seq<char>| unescape_token(t)),
            resolve_pointer(doc@, p@) == walk(cur@, toks.skip(i - 1)),
        decreases pieces.len() - i,
    {
        let t1 = replace_pair_chars(pieces[i].as_slice(), '~', '1', '/');
        let tok = replace_pair_chars(t1.as_slice(), '~', '0', '~');
        proof {
            assert(toks[i - 1] == unescape_token(pieces@[i as int]@));
            assert(toks.skip(i - 1)[0] == toks[i - 1]);
            assert(toks.skip(i - 1).drop_first() =~= toks.skip(i as int));
        }
        match step_into(cur, tok.as_slice()) {
            Some(n) => {
                cur = n;
            },
            None => {
                return None;
            },
        }
        i = i + 1;
    }
    assert(toks.skip(i - 1).len() == 0);
    Some(cur)
}

} // verus!
