//! Positional pattern filtering with a three-tier fallback
//! (exact -> starts-with -> contains).
//!
//! Zero patterns keep every item. With one or more patterns the tiers are
//! tried in order and the first tier with any match wins; within a tier any
//! pattern may match. Both sides are lowercased before comparison.

use vstd::prelude::*;
use crate::text::{
    chars_eq, chars_of, contains, is_prefix_of, lowercase_of, occurs_in, starts_with, to_lowercase,
};

verus! {

/// Some pattern equals the name, ignoring case.
pub open spec fn exact_hit(name: Seq<char>, pats: Seq<Seq<char>>) -> bool {
    exists|j: int| 0 <= j < pats.len() && lowercase_of(#[trigger] pats[j]) == lowercase_of(name)
}

/// Some pattern is a prefix of the name, ignoring case.
pub open spec fn prefix_hit(name: Seq<char>, pats: Seq<Seq<char>>) -> bool {
    exists|j: int| 0 <= j < pats.len() && is_prefix_of(lowercase_of(#[trigger] pats[j]), lowercase_of(name))
}

/// Some pattern occurs inside the name, ignoring case.
pub open spec fn substring_hit(name: Seq<char>, pats: Seq<Seq<char>>) -> bool {
    exists|j: int| 0 <= j < pats.len() && occurs_in(lowercase_of(#[trigger] pats[j]), lowercase_of(name))
}

/// The indices below `n` that satisfy `pred`, in increasing order.
pub open spec fn indices_where(n: nat, pred: spec_fn(int) -> bool) -> Seq<int>
    decreases n,
{
    if n == 0 {
        Seq::empty()
    } else {
        indices_where((n - 1) as nat, pred) + if pred(n - 1) {
            seq![n - 1]
        } else {
            Seq::empty()
        }
    }
}

/// `name_of` may give, for `item`, a string whose characters are `name`.
pub open spec fn named<T, F: Fn(&T) -> &str>(name_of: F, item: &T, name: Seq<char>) -> bool {
    exists|s: &str| call_ensures(name_of, (item,), s) && s@ == name
}

/// The character sequences of a list of strings.
pub open spec fn pattern_views(ps: Seq<String>) -> Seq<Seq<char>> {
    ps.map_values(|p: String| p@)
}

/// The three-tier choice among `n` items: all of them without patterns;
/// else those of the first non-empty tier among `exact`, `prefix`, `substring`.
pub open spec fn tiered(
    n: nat,
    no_patterns: bool,
    exact: spec_fn(int) -> bool,
    prefix: spec_fn(int) -> bool,
    substring: spec_fn(int) -> bool,
) -> Seq<int> {
    if no_patterns {
        indices_where(n, |i: int| true)
    } else if indices_where(n, exact).len() > 0 {
        indices_where(n, exact)
    } else if indices_where(n, prefix).len() > 0 {
        indices_where(n, prefix)
    } else {
        indices_where(n, substring)
    }
}

/// The indices of the items kept by the three-tier filter, given the items'
/// names and the patterns.
pub open spec fn selection(names: Seq<Seq<char>>, pats: Seq<Seq<char>>) -> Seq<int> {
    tiered(
        names.len(),
        pats.len() == 0,
        |i: int| exact_hit(names[i], pats),
        |i: int| prefix_hit(names[i], pats),
        |i: int| substring_hit(names[i], pats),
    )
}

/// Some (already lower-cased) pattern equals the lower-cased name.
pub open spec fn exact_in(lname: Seq<char>, lpats: Seq<Seq<char>>) -> bool {
    exists|j: int| 0 <= j < lpats.len() && #[trigger] lpats[j] == lname
}

/// Some (already lower-cased) pattern is a prefix of the lower-cased name.
pub open spec fn prefix_in(lname: Seq<char>, lpats: Seq<Seq<char>>) -> bool {
    exists|j: int| 0 <= j < lpats.len() && is_prefix_of(#[trigger] lpats[j], lname)
}

/// Some (already lower-cased) pattern occurs inside the lower-cased name.
pub open spec fn substring_in(lname: Seq<char>, lpats: Seq<Seq<char>>) -> bool {
    exists|j: int| 0 <= j < lpats.len() && occurs_in(#[trigger] lpats[j], lname)
}

/// The three-tier selection over names and patterns that are already
/// lower-cased: the comparisons are plain character comparisons.
pub open spec fn lowered_selection(lnames: Seq<Seq<char>>, lpats: Seq<Seq<char>>) -> Seq<int> {
    tiered(
        lnames.len(),
        lpats.len() == 0,
        |i: int| exact_in(lnames[i], lpats),
        |i: int| prefix_in(lnames[i], lpats),
        |i: int| substring_in(lnames[i], lpats),
    )
}

/// Each string lower-cased.
pub open spec fn lowered(v: Seq<Seq<char>>) -> Seq<Seq<char>> {
    v.map_values(|s: Seq<char>| lowercase_of(s))
}

/// Matching a name against patterns ignoring case is matching their
/// lower-cased forms exactly.
pub proof fn lemma_hits_lowered(name: Seq<char>, pats: Seq<Seq<char>>)
    ensures
        exact_hit(name, pats) == exact_in(lowercase_of(name), lowered(pats)),
        prefix_hit(name, pats) == prefix_in(lowercase_of(name), lowered(pats)),
        substring_hit(name, pats) == substring_in(lowercase_of(name), lowered(pats)),
{
    let lp = lowered(pats);
    let ln = lowercase_of(name);
    if exact_hit(name, pats) {
        let j = choose|j: int| 0 <= j < pats.len() && lowercase_of(#[trigger] pats[j]) == lowercase_of(name);
        assert(lp[j] == ln);
    }
    if exact_in(ln, lp) {
        let j = choose|j: int| 0 <= j < lp.len() && #[trigger] lp[j] == ln;
        assert(lowercase_of(pats[j]) == ln);
    }
    if prefix_hit(name, pats) {
        let j = choose|j: int| 0 <= j < pats.len() && is_prefix_of(lowercase_of(#[trigger] pats[j]), lowercase_of(name));
        assert(lp[j] == lowercase_of(pats[j]));
    }
    if prefix_in(ln, lp) {
        let j = choose|j: int| 0 <= j < lp.len() && is_prefix_of(#[trigger] lp[j], ln);
        assert(is_prefix_of(lowercase_of(pats[j]), ln));
    }
    if substring_hit(name, pats) {
        let j = choose|j: int| 0 <= j < pats.len() && occurs_in(lowercase_of(#[trigger] pats[j]), lowercase_of(name));
        assert(lp[j] == lowercase_of(pats[j]));
    }
    if substring_in(ln, lp) {
        let j = choose|j: int| 0 <= j < lp.len() && occurs_in(#[trigger] lp[j], ln);
        assert(occurs_in(lowercase_of(pats[j]), ln));
    }
}

/// The case-insensitive selection is the plain selection over the
/// lower-cased names and patterns.
pub proof fn lemma_selection_lowered(names: Seq<Seq<char>>, pats: Seq<Seq<char>>)
    ensures
        selection(names, pats) == lowered_selection(lowered(names), lowered(pats)),
{
    let n = names.len();
    let ln = lowered(names);
    let lp = lowered(pats);
    assert forall|i: int| 0 <= i < n implies #[trigger] exact_hit(names[i], pats) == exact_in(ln[i], lp) by {
        lemma_hits_lowered(names[i], pats);
    }
    assert forall|i: int| 0 <= i < n implies #[trigger] prefix_hit(names[i], pats) == prefix_in(ln[i], lp) by {
        lemma_hits_lowered(names[i], pats);
    }
    assert forall|i: int| 0 <= i < n implies #[trigger] substring_hit(names[i], pats) == substring_in(ln[i], lp) by {
        lemma_hits_lowered(names[i], pats);
    }
    lemma_indices_where_ext(n, |i: int| exact_hit(names[i], pats), |i: int| exact_in(ln[i], lp));
    lemma_indices_where_ext(n, |i: int| prefix_hit(names[i], pats), |i: int| prefix_in(ln[i], lp));
    lemma_indices_where_ext(n, |i: int| substring_hit(names[i], pats), |i: int| substring_in(ln[i], lp));
}

/// Every index in `indices_where(n, pred)` is below `n` and satisfies `pred`,
/// and every such index is listed.
pub proof fn lemma_indices_where(n: nat, pred: spec_fn(int) -> bool)
    ensures
        forall|k: int| 0 <= k < indices_where(n, pred).len() ==> {
            let i = #[trigger] indices_where(n, pred)[k];
            0 <= i < n && pred(i)
        },
        forall|i: int| 0 <= i < n && pred(i) ==> indices_where(n, pred).contains(i),
        forall|a: int, b: int|
            0 <= a < b < indices_where(n, pred).len() ==> indices_where(n, pred)[a] < indices_where(n, pred)[b],
        indices_where(n, pred).len() <= n,
    decreases n,
{
    if n > 0 {
        lemma_indices_where((n - 1) as nat, pred);
        let prev = indices_where((n - 1) as nat, pred);
        let cur = indices_where(n, pred);
        if pred(n - 1) {
            assert(cur[prev.len() as int] == n - 1);
        }
        assert forall|i: int| 0 <= i < n && pred(i) implies cur.contains(i) by {
            if i < n - 1 {
                assert(prev.contains(i));
                let k = choose|k: int| 0 <= k < prev.len() && prev[k] == i;
                assert(cur[k] == i);
            } else {
                assert(cur[prev.len() as int] == i);
            }
        }
    }
}

/// `indices_where` is empty exactly when no index below `n` satisfies `pred`.
pub proof fn lemma_indices_where_empty(n: nat, pred: spec_fn(int) -> bool)
    ensures
        (indices_where(n, pred).len() == 0) <==> (forall|i: int| 0 <= i < n ==> !#[trigger] pred(i)),
{
    lemma_indices_where(n, pred);
    if indices_where(n, pred).len() > 0 {
        let i = indices_where(n, pred)[0];
        assert(0 <= i < n && pred(i));
    } else {
        assert forall|i: int| 0 <= i < n implies !#[trigger] pred(i) by {
            if pred(i) {
                assert(indices_where(n, pred).contains(i));
            }
        }
    }
}

/// One more index extends `indices_where` by that index exactly when it
/// satisfies `pred`.
pub proof fn lemma_indices_where_step(n: nat, pred: spec_fn(int) -> bool)
    ensures
        indices_where(n + 1, pred) == indices_where(n, pred) + if pred(n as int) {
            seq![n as int]
        } else {
            Seq::<int>::empty()
        },
{
    assert((n + 1) as nat - 1 == n);
}

/// Two predicates that agree below `n` select the same indices.
pub proof fn lemma_indices_where_ext(n: nat, p: spec_fn(int) -> bool, q: spec_fn(int) -> bool)
    requires
        forall|i: int| 0 <= i < n ==> #[trigger] p(i) == q(i),
    ensures
        indices_where(n, p) == indices_where(n, q),
    decreases n,
{
    if n > 0 {
        lemma_indices_where_ext((n - 1) as nat, p, q);
    }
}

/// Without patterns every item is kept, in order.
pub proof fn lemma_no_patterns_keeps_all(names: Seq<Seq<char>>)
    ensures
        selection(names, Seq::empty()).len() == names.len(),
        forall|k: int| 0 <= k < names.len() ==> #[trigger] selection(names, Seq::empty())[k] == k,
    decreases names.len(),
{
    let all = |i: int| true;
    lemma_indices_where(names.len(), all);
    assert forall|k: int| 0 <= k < names.len() implies #[trigger] selection(names, Seq::empty())[k] == k by {
        lemma_all_indices(names.len(), k);
    }
    lemma_all_indices_len(names.len());
}

/// Listing every index below `n` lists `k` at position `k`.
proof fn lemma_all_indices(n: nat, k: int)
    requires
        0 <= k < n,
    ensures
        indices_where(n, |i: int| true)[k] == k,
        indices_where(n, |i: int| true).len() == n,
    decreases n,
{
    lemma_all_indices_len(n);
    if k < n - 1 {
        lemma_all_indices((n - 1) as nat, k);
    }
}

/// Listing every index below `n` lists `n` indices.
proof fn lemma_all_indices_len(n: nat)
    ensures
        indices_where(n, |i: int| true).len() == n,
    decreases n,
{
    if n > 0 {
        lemma_all_indices_len((n - 1) as nat);
    }
}

/// Whenever some name equals a pattern (ignoring case), exactly the names
/// equal to a pattern are kept: the exact tier wins over prefixes and
/// substrings.
pub proof fn lemma_exact_tier_wins(names: Seq<Seq<char>>, pats: Seq<Seq<char>>, i: int)
    requires
        pats.len() > 0,
        0 <= i < names.len(),
        exact_hit(names[i], pats),
    ensures
        selection(names, pats) == indices_where(names.len(), |k: int| exact_hit(names[k], pats)),
{
    let exact = |k: int| exact_hit(names[k], pats);
    lemma_indices_where(names.len(), exact);
    assert(exact(i));
    assert(indices_where(names.len(), exact).contains(i));
}

/// With no name equal to a pattern but some name starting with one, exactly
/// the names starting with a pattern are kept.
pub proof fn lemma_prefix_tier(names: Seq<Seq<char>>, pats: Seq<Seq<char>>, i: int)
    requires
        pats.len() > 0,
        forall|k: int| 0 <= k < names.len() ==> !#[trigger] exact_hit(names[k], pats),
        0 <= i < names.len(),
        prefix_hit(names[i], pats),
    ensures
        selection(names, pats) == indices_where(names.len(), |k: int| prefix_hit(names[k], pats)),
{
    let exact = |k: int| exact_hit(names[k], pats);
    let prefix = |k: int| prefix_hit(names[k], pats);
    lemma_indices_where_empty(names.len(), exact);
    lemma_indices_where(names.len(), prefix);
    assert(prefix(i));
    assert(indices_where(names.len(), prefix).contains(i));
}

/// With no name equal to or starting with a pattern, exactly the names
/// containing a pattern are kept (none when no name does).
pub proof fn lemma_substring_tier(names: Seq<Seq<char>>, pats: Seq<Seq<char>>)
    requires
        pats.len() > 0,
        forall|k: int| 0 <= k < names.len() ==> !#[trigger] exact_hit(names[k], pats),
        forall|k: int| 0 <= k < names.len() ==> !#[trigger] prefix_hit(names[k], pats),
    ensures
        selection(names, pats) == indices_where(names.len(), |k: int| substring_hit(names[k], pats)),
{
    lemma_indices_where_empty(names.len(), |k: int| exact_hit(names[k], pats));
    lemma_indices_where_empty(names.len(), |k: int| prefix_hit(names[k], pats));
}

/// The kept items are a subsequence of the input: valid positions, in
/// increasing order, so the input order is preserved.
pub proof fn lemma_selection_ordered(names: Seq<Seq<char>>, pats: Seq<Seq<char>>)
    ensures
        forall|k: int| 0 <= k < selection(names, pats).len() ==> 0 <= #[trigger] selection(names, pats)[k] < names.len(),
        forall|a: int, b: int|
            0 <= a < b < selection(names, pats).len() ==> selection(names, pats)[a] < selection(names, pats)[b],
{
    lemma_indices_where(names.len(), |i: int| true);
    lemma_indices_where(names.len(), |i: int| exact_hit(names[i], pats));
    lemma_indices_where(names.len(), |i: int| prefix_hit(names[i], pats));
    lemma_indices_where(names.len(), |i: int| substring_hit(names[i], pats));
}

/// Matching ignores case: names and patterns that agree once lowercased
/// keep the same items.
pub proof fn lemma_case_insensitive(
    names: Seq<Seq<char>>,
    other_names: Seq<Seq<char>>,
    pats: Seq<Seq<char>>,
    other_pats: Seq<Seq<char>>,
)
    requires
        names.len() == other_names.len(),
        pats.len() == other_pats.len(),
        forall|i: int| 0 <= i < names.len() ==> lowercase_of(#[trigger] names[i]) == lowercase_of(other_names[i]),
        forall|j: int| 0 <= j < pats.len() ==> lowercase_of(#[trigger] pats[j]) == lowercase_of(other_pats[j]),
    ensures
        selection(names, pats) == selection(other_names, other_pats),
{
    let n = names.len();
    assert forall|i: int| 0 <= i < n implies #[trigger] exact_hit(names[i], pats) == exact_hit(other_names[i], other_pats) by {
        if exact_hit(names[i], pats) {
            let j = choose|j: int| 0 <= j < pats.len() && lowercase_of(#[trigger] pats[j]) == lowercase_of(names[i]);
            assert(lowercase_of(other_pats[j]) == lowercase_of(other_names[i]));
        }
        if exact_hit(other_names[i], other_pats) {
            let j = choose|j: int|
                0 <= j < other_pats.len() && lowercase_of(#[trigger] other_pats[j]) == lowercase_of(other_names[i]);
            assert(lowercase_of(pats[j]) == lowercase_of(names[i]));
        }
    }
    assert forall|i: int| 0 <= i < n implies #[trigger] prefix_hit(names[i], pats) == prefix_hit(other_names[i], other_pats) by {
        if prefix_hit(names[i], pats) {
            let j = choose|j: int|
                0 <= j < pats.len() && is_prefix_of(lowercase_of(#[trigger] pats[j]), lowercase_of(names[i]));
            assert(is_prefix_of(lowercase_of(other_pats[j]), lowercase_of(other_names[i])));
        }
        if prefix_hit(other_names[i], other_pats) {
            let j = choose|j: int|
                0 <= j < other_pats.len() && is_prefix_of(
                    lowercase_of(#[trigger] other_pats[j]),
                    lowercase_of(other_names[i]),
                );
            assert(is_prefix_of(lowercase_of(pats[j]), lowercase_of(names[i])));
        }
    }
    assert forall|i: int| 0 <= i < n implies #[trigger] substring_hit(names[i], pats) == substring_hit(
        other_names[i],
        other_pats,
    ) by {
        if substring_hit(names[i], pats) {
            let j = choose|j: int|
                0 <= j < pats.len() && occurs_in(lowercase_of(#[trigger] pats[j]), lowercase_of(names[i]));
            assert(occurs_in(lowercase_of(other_pats[j]), lowercase_of(other_names[i])));
        }
        if substring_hit(other_names[i], other_pats) {
            let j = choose|j: int|
                0 <= j < other_pats.len() && occurs_in(
                    lowercase_of(#[trigger] other_pats[j]),
                    lowercase_of(other_names[i]),
                );
            assert(occurs_in(lowercase_of(pats[j]), lowercase_of(names[i])));
        }
    }
    lemma_indices_where_ext(n, |i: int| exact_hit(names[i], pats), |i: int| exact_hit(other_names[i], other_pats));
    lemma_indices_where_ext(n, |i: int| prefix_hit(names[i], pats), |i: int| prefix_hit(other_names[i], other_pats));
    lemma_indices_where_ext(
        n,
        |i: int| substring_hit(names[i], pats),
        |i: int| substring_hit(other_names[i], other_pats),
    );
    lemma_indices_where_ext(n, |i: int| true, |i: int| true);
}

/// Lowercases each string and splits it into characters.
fn lowered_chars(strs: &[String]) -> (r: Vec<Vec<char>>)
    ensures
        r@.len() == strs@.len(),
        forall|j: int| 0 <= j < strs@.len() ==> #[trigger] r@[j]@ == lowercase_of(strs@[j]@),
{
    let mut r: Vec<Vec<char>> = Vec::new();
    let mut j: usize = 0;
    while j < strs.len()
        invariant
            j <= strs.len(),
            r@.len() == j,
            forall|k: int| 0 <= k < j ==> #[trigger] r@[k]@ == lowercase_of(strs@[k]@),
        decreases strs.len() - j,
    {
        let low = to_lowercase(strs[j].as_str());
        r.push(chars_of(low.as_str()));
        j = j + 1;
    }
    r
}

/// The characters of each character vector.
pub open spec fn char_views(v: Seq<Vec<char>>) -> Seq<Seq<char>> {
    v.map_values(|c: Vec<char>| c@)
}

/// Which tier (if any) a lower-cased name reaches against lower-cased
/// patterns: 1 exact, 2 prefix, 3 contains, 0 none. The lowest-numbered tier
/// that matches wins.
fn classify(name: &[char], lp: &Vec<Vec<char>>) -> (t: u8)
    ensures
        tier_fits(
            t,
            exact_in(name@, char_views(lp@)),
            prefix_in(name@, char_views(lp@)),
            substring_in(name@, char_views(lp@)),
        ),
{
    let ghost pats = char_views(lp@);
    let mut exact = false;
    let mut prefix = false;
    let mut sub = false;
    let mut j: usize = 0;
    while j < lp.len()
        invariant
            j <= lp@.len(),
            pats == char_views(lp@),
            exact <==> exists|k: int| 0 <= k < j && #[trigger] pats[k] == name@,
            prefix <==> exists|k: int| 0 <= k < j && is_prefix_of(#[trigger] pats[k], name@),
            sub <==> exists|k: int| 0 <= k < j && occurs_in(#[trigger] pats[k], name@),
        decreases lp@.len() - j,
    {
        let p = &lp[j];
        assert(p@ == pats[j as int]);
        if chars_eq(p.as_slice(), name) {
            exact = true;
        }
        if starts_with(name, p.as_slice()) {
            prefix = true;
        }
        if contains(name, p.as_slice()) {
            sub = true;
        }
        j = j + 1;
    }
    if exact {
        1
    } else if prefix {
        2
    } else if sub {
        3
    } else {
        0
    }
}

/// Names every item through `name_of` and classifies it against the patterns.
fn tiers_of<T, F>(items: &[T], patterns: &[String], name_of: F) -> (res: (Vec<u8>, Ghost<Seq<Seq<char>>>))
    where
        F: Fn(&T) -> &str,
    requires
        forall|i: int| 0 <= i < items.len() ==> call_requires(name_of, (&items[i],)),
    ensures
        res.1@.len() == items.len(),
        res.0@.len() == items.len(),
        forall|k: int| 0 <= k < items.len() ==> named(name_of, &items[k], #[trigger] res.1@[k]),
        forall|k: int|
            0 <= k < items.len() ==> tier_ok(#[trigger] res.0@[k], res.1@[k], pattern_views(patterns@)),
{
    let ghost pats = pattern_views(patterns@);
    let lp = lowered_chars(patterns);
    let mut lnames: Vec<Vec<char>> = Vec::new();
    let ghost mut names: Seq<Seq<char>> = Seq::empty();
    let mut i: usize = 0;
    while i < items.len()
        invariant
            i <= items.len(),
            forall|i: int| 0 <= i < items.len() ==> call_requires(name_of, (&items[i],)),
            names.len() == i,
            lnames@.len() == i,
            forall|k: int| 0 <= k < i ==> #[trigger] lnames@[k]@ == lowercase_of(names[k]),
            forall|k: int| 0 <= k < i ==> named(name_of, &items[k], #[trigger] names[k]),
        decreases items.len() - i,
    {
        let s = name_of(&items[i]);
        let low = to_lowercase(s);
        lnames.push(chars_of(low.as_str()));
        proof {
            let old_names = names;
            names = names.push(s@);
            assert forall|k: int| 0 <= k < i + 1 implies named(name_of, &items[k], #[trigger] names[k]) by {
                if k < i {
                    assert(old_names[k] == names[k]);
                } else {
                    assert(call_ensures(name_of, (&items[k],), s) && s@ == names[k]);
                }
            }
        }
        i = i + 1;
    }
    let mut tiers: Vec<u8> = Vec::new();
    let mut j: usize = 0;
    while j < items.len()
        invariant
            j <= items.len(),
            names.len() == items.len(),
            lnames@.len() == items.len(),
            forall|k: int| 0 <= k < items.len() ==> #[trigger] lnames@[k]@ == lowercase_of(names[k]),
            pats == pattern_views(patterns@),
            lp@.len() == pats.len(),
            forall|k: int| 0 <= k < pats.len() ==> #[trigger] lp@[k]@ == lowercase_of(pats[k]),
            tiers@.len() == j,
            forall|k: int| 0 <= k < j ==> tier_ok(#[trigger] tiers@[k], names[k], pats),
        decreases items.len() - j,
    {
        let t = classify(lnames[j].as_slice(), &lp);
        proof {
            assert(char_views(lp@) =~= lowered(pats));
            lemma_hits_lowered(names[j as int], pats);
        }
        tiers.push(t);
        j = j + 1;
    }
    (tiers, Ghost(names))
}

/// `out` is what the three-tier filter keeps of `items` for the patterns
/// `pats`, with each item named as `name_of` may name it.
pub open spec fn kept<T, F: Fn(&T) -> &str>(items: Seq<T>, pats: Seq<Seq<char>>, name_of: F, out: Seq<T>) -> bool {
    if pats.len() == 0 {
        out == items
    } else {
        exists|names: Seq<Seq<char>>|
            #![trigger selection(names, pats)]
            {
                &&& names.len() == items.len()
                &&& forall|i: int| 0 <= i < items.len() ==> named(name_of, &items[i], #[trigger] names[i])
                &&& out.len() == selection(names, pats).len()
                &&& forall|k: int| 0 <= k < out.len() ==> #[trigger] out[k] == items[selection(names, pats)[k]]
            }
    }
}

/// `name_of` gives each item one name: any two strings it may return for
/// the same item hold the same characters.
pub open spec fn names_determined<T, F: Fn(&T) -> &str>(items: Seq<T>, name_of: F) -> bool {
    forall|i: int, s1: &str, s2: &str|
        0 <= i < items.len() && #[trigger] call_ensures(name_of, (&items[i],), s1) && #[trigger] call_ensures(
            name_of,
            (&items[i],),
            s2,
        ) ==> s1@ == s2@
}

/// Names that satisfy the filter's clauses witness `kept`.
proof fn lemma_kept_intro<T, F: Fn(&T) -> &str>(
    items: Seq<T>,
    pats: Seq<Seq<char>>,
    name_of: F,
    out: Seq<T>,
    names: Seq<Seq<char>>,
)
    requires
        pats.len() > 0,
        names.len() == items.len(),
        forall|i: int| 0 <= i < items.len() ==> named(name_of, &items[i], #[trigger] names[i]),
        out.len() == selection(names, pats).len(),
        forall|k: int| 0 <= k < out.len() ==> #[trigger] out[k] == items[selection(names, pats)[k]],
    ensures
        kept(items, pats, name_of, out),
{
    assert(selection(names, pats) == selection(names, pats));
}

/// `filter` and `filter_into` agree: for a `name_of` that names each item
/// one way, what each keeps of the same items and patterns is the same
/// sequence of items.
pub proof fn lemma_filter_into_agrees<T, F: Fn(&T) -> &str>(
    items: Seq<T>,
    pats: Seq<Seq<char>>,
    name_of: F,
    by_ref: Seq<T>,
    owned: Seq<T>,
)
    requires
        names_determined(items, name_of),
        kept(items, pats, name_of, by_ref),
        kept(items, pats, name_of, owned),
    ensures
        by_ref == owned,
{
    if pats.len() > 0 {
        let n1 = choose|names: Seq<Seq<char>>|
            #![trigger selection(names, pats)]
            {
                &&& names.len() == items.len()
                &&& forall|i: int| 0 <= i < items.len() ==> named(name_of, &items[i], #[trigger] names[i])
                &&& by_ref.len() == selection(names, pats).len()
                &&& forall|k: int| 0 <= k < by_ref.len() ==> #[trigger] by_ref[k] == items[selection(names, pats)[k]]
            };
        let n2 = choose|names: Seq<Seq<char>>|
            #![trigger selection(names, pats)]
            {
                &&& names.len() == items.len()
                &&& forall|i: int| 0 <= i < items.len() ==> named(name_of, &items[i], #[trigger] names[i])
                &&& owned.len() == selection(names, pats).len()
                &&& forall|k: int| 0 <= k < owned.len() ==> #[trigger] owned[k] == items[selection(names, pats)[k]]
            };
        assert forall|i: int| 0 <= i < n1.len() implies #[trigger] n1[i] == n2[i] by {
            assert(named(name_of, &items[i], n1[i]));
            assert(named(name_of, &items[i], n2[i]));
            let s1 = choose|s: &str| call_ensures(name_of, (&items[i],), s) && s@ == n1[i];
            let s2 = choose|s: &str| call_ensures(name_of, (&items[i],), s) && s@ == n2[i];
        }
        assert(n1 =~= n2);
        assert(by_ref =~= owned);
    }
}

/// Filters `items` by `patterns` with the three-tier fallback, returning
/// references to the kept items in their input order. `name_of` extracts
/// the name each item is matched by.
pub fn filter<'a, T, F>(items: &'a [T], patterns: &[String], name_of: F) -> (r: Vec<&'a T>)
    where
        F: Fn(&T) -> &str,
    requires
        forall|i: int| 0 <= i < items.len() ==> call_requires(name_of, (&items[i],)),
    ensures
        patterns.len() == 0 ==> r@.len() == items.len() && forall|k: int|
            0 <= k < items.len() ==> *#[trigger] r@[k] == items@[k],
        patterns.len() > 0 ==> exists|names: Seq<Seq<char>>|
            #![trigger selection(names, pattern_views(patterns@))]
            {
                &&& names.len() == items.len()
                &&& forall|i: int|
                    0 <= i < items.len() ==> named(name_of, &items[i], #[trigger] names[i])
                &&& r@.len() == selection(names, pattern_views(patterns@)).len()
                &&& forall|k: int|
                    0 <= k < r@.len() ==> *#[trigger] r@[k] == items@[selection(
                        names,
                        pattern_views(patterns@),
                    )[k]]
            },
        kept(items@, pattern_views(patterns@), name_of, r@.map_values(|x: &'a T| *x)),
{
    if patterns.len() == 0 {
        let mut all: Vec<&'a T> = Vec::new();
        let mut k: usize = 0;
        while k < items.len()
            invariant
                k <= items.len(),
                all@.len() == k,
                forall|m: int| 0 <= m < k ==> *#[trigger] all@[m] == items@[m],
            decreases items.len() - k,
        {
            all.push(&items[k]);
            k = k + 1;
        }
        assert(all@.map_values(|x: &'a T| *x) =~= items@);
        return all;
    }
    let ghost pats = pattern_views(patterns@);
    let (lnames, Ghost(names)) = lowered_names(items, name_of);
    let lpats = lowered_strings(patterns);
    let picked = select_lowered(lnames.as_slice(), lpats.as_slice());
    proof {
        lemma_selection_lowered(names, pats);
        assert(pattern_views(lnames@) =~= lowered(names));
        assert(pattern_views(lpats@) =~= lowered(pats));
        lemma_selection_ordered(names, pats);
    }
    let mut r: Vec<&'a T> = Vec::new();
    let mut k: usize = 0;
    while k < picked.len()
        invariant
            k <= picked@.len(),
            r@.len() == k,
            picked@.len() == selection(names, pats).len(),
            forall|m: int| 0 <= m < picked@.len() ==> picked@[m] == selection(names, pats)[m],
            forall|m: int| 0 <= m < selection(names, pats).len() ==> 0 <= #[trigger] selection(names, pats)[m] < names.len(),
            names.len() == items.len(),
            forall|m: int| 0 <= m < k ==> *#[trigger] r@[m] == items@[selection(names, pats)[m]],
        decreases picked@.len() - k,
    {
        assert(0 <= selection(names, pats)[k as int] < names.len());
        r.push(&items[picked[k]]);
        k = k + 1;
    }
    assert(selection(names, pattern_views(patterns@)).len() == r@.len());
    proof {
        lemma_kept_intro(items@, pats, name_of, r@.map_values(|x: &'a T| *x), names);
    }
    r
}

/// Names every item through `name_of` and lower-cases the names.
fn lowered_names<T, F>(items: &[T], name_of: F) -> (res: (Vec<String>, Ghost<Seq<Seq<char>>>))
    where
        F: Fn(&T) -> &str,
    requires
        forall|i: int| 0 <= i < items.len() ==> call_requires(name_of, (&items[i],)),
    ensures
        res.1@.len() == items.len(),
        res.0@.len() == items.len(),
        forall|k: int| 0 <= k < items.len() ==> named(name_of, &items[k], #[trigger] res.1@[k]),
        forall|k: int| 0 <= k < items.len() ==> #[trigger] res.0@[k]@ == lowercase_of(res.1@[k]),
{
    let mut lnames: Vec<String> = Vec::new();
    let ghost mut names: Seq<Seq<char>> = Seq::empty();
    let mut i: usize = 0;
    while i < items.len()
        invariant
            i <= items.len(),
            forall|i: int| 0 <= i < items.len() ==> call_requires(name_of, (&items[i],)),
            names.len() == i,
            lnames@.len() == i,
            forall|k: int| 0 <= k < i ==> #[trigger] lnames@[k]@ == lowercase_of(names[k]),
            forall|k: int| 0 <= k < i ==> named(name_of, &items[k], #[trigger] names[k]),
        decreases items.len() - i,
    {
        let s = name_of(&items[i]);
        lnames.push(to_lowercase(s));
        proof {
            let old_names = names;
            names = names.push(s@);
            assert forall|k: int| 0 <= k < i + 1 implies named(name_of, &items[k], #[trigger] names[k]) by {
                if k < i {
                    assert(old_names[k] == names[k]);
                } else {
                    assert(call_ensures(name_of, (&items[k],), s) && s@ == names[k]);
                }
            }
        }
        i = i + 1;
    }
    (lnames, Ghost(names))
}

/// Lower-cases each string.
fn lowered_strings(strs: &[String]) -> (r: Vec<String>)
    ensures
        r@.len() == strs@.len(),
        forall|j: int| 0 <= j < strs@.len() ==> #[trigger] r@[j]@ == lowercase_of(strs@[j]@),
{
    let mut r: Vec<String> = Vec::new();
    let mut j: usize = 0;
    while j < strs.len()
        invariant
            j <= strs.len(),
            r@.len() == j,
            forall|k: int| 0 <= k < j ==> #[trigger] r@[k]@ == lowercase_of(strs@[k]@),
        decreases strs.len() - j,
    {
        r.push(to_lowercase(strs[j].as_str()));
        j = j + 1;
    }
    r
}

/// The tier code `t` names the first tier that holds among an exact,
/// a prefix and a substring match (0 for none).
pub open spec fn tier_fits(t: u8, exact: bool, prefix: bool, substring: bool) -> bool {
    &&& t == 1 <==> exact
    &&& t == 2 <==> !exact && prefix
    &&& t == 3 <==> !exact && !prefix && substring
}

/// The tier code `t` is the one `classify` gives for `name`.
pub open spec fn tier_ok(t: u8, name: Seq<char>, pats: Seq<Seq<char>>) -> bool {
    tier_fits(t, exact_hit(name, pats), prefix_hit(name, pats), substring_hit(name, pats))
}

/// Picks the indices of the winning tier from per-item tier codes, where
/// item `k` matches exactly, by prefix or by substring as `pe`, `pp`, `ps`
/// say.
fn pick_by_tier(
    tiers: &Vec<u8>,
    no_patterns: bool,
    Ghost(pe): Ghost<spec_fn(int) -> bool>,
    Ghost(pp): Ghost<spec_fn(int) -> bool>,
    Ghost(ps): Ghost<spec_fn(int) -> bool>,
) -> (r: Vec<usize>)
    requires
        forall|k: int| 0 <= k < tiers@.len() ==> tier_fits(#[trigger] tiers@[k], pe(k), pp(k), ps(k)),
    ensures
        r@.len() == tiered(tiers@.len() as nat, no_patterns, pe, pp, ps).len(),
        forall|m: int| 0 <= m < r@.len() ==> r@[m] == tiered(tiers@.len() as nat, no_patterns, pe, pp, ps)[m],
        forall|m: int| 0 <= m < r@.len() ==> r@[m] < tiers@.len(),
{
    let n = tiers.len();
    let ghost nn = tiers@.len() as nat;
    let ghost pall = |i: int| true;
    let mut t1: Vec<usize> = Vec::new();
    let mut t2: Vec<usize> = Vec::new();
    let mut t3: Vec<usize> = Vec::new();
    let mut all: Vec<usize> = Vec::new();
    let ghost q2 = |k: int| pp(k) && !pe(k);
    let ghost q3 = |k: int| ps(k) && !pp(k) && !pe(k);
    let mut i: usize = 0;
    while i < n
        invariant
            n == tiers@.len(),
            nn == n,
            i <= n,
            forall|k: int| 0 <= k < tiers@.len() ==> tier_fits(#[trigger] tiers@[k], pe(k), pp(k), ps(k)),
            pall == (|k: int| true),
            q2 == (|k: int| pp(k) && !pe(k)),
            q3 == (|k: int| ps(k) && !pp(k) && !pe(k)),
            same_indices(t1@, indices_where(i as nat, pe)),
            same_indices(t2@, indices_where(i as nat, q2)),
            same_indices(t3@, indices_where(i as nat, q3)),
            same_indices(all@, indices_where(i as nat, pall)),
        decreases n - i,
    {
        let t = tiers[i];
        assert(tier_fits(tiers@[i as int], pe(i as int), pp(i as int), ps(i as int)));
        proof {
            lemma_indices_where_step(i as nat, pe);
            lemma_indices_where_step(i as nat, q2);
            lemma_indices_where_step(i as nat, q3);
            lemma_indices_where_step(i as nat, pall);
        }
        let ghost (o1, o2, o3, oa) = (t1@, t2@, t3@, all@);
        if t == 1 {
            t1.push(i);
        } else if t == 2 {
            t2.push(i);
        } else if t == 3 {
            t3.push(i);
        }
        all.push(i);
        proof {
            assert(q2(i as int) == (pp(i as int) && !pe(i as int)));
            assert(q3(i as int) == (ps(i as int) && !pp(i as int) && !pe(i as int)));
            assert(pall(i as int));
            lemma_same_indices_step(o1, t1@, indices_where(i as nat, pe), i, pe(i as int));
            lemma_same_indices_step(o2, t2@, indices_where(i as nat, q2), i, q2(i as int));
            lemma_same_indices_step(o3, t3@, indices_where(i as nat, q3), i, q3(i as int));
            lemma_same_indices_step(oa, all@, indices_where(i as nat, pall), i, pall(i as int));
        }
        i = i + 1;
    }
    proof {
        lemma_indices_where(nn, pe);
        lemma_indices_where(nn, pall);
        lemma_indices_where(nn, q2);
        lemma_indices_where(nn, q3);
        lemma_indices_where_empty(nn, pe);
        lemma_indices_where_empty(nn, pp);
        assert(indices_where(nn, |i: int| true) == indices_where(nn, pall));
        if indices_where(nn, pe).len() == 0 {
            lemma_indices_where_ext(nn, pp, q2);
            if indices_where(nn, pp).len() == 0 {
                lemma_indices_where_ext(nn, ps, q3);
            }
        }
    }
    let r = if no_patterns {
        all
    } else if t1.len() > 0 {
        t1
    } else if t2.len() > 0 {
        t2
    } else {
        t3
    };
    proof {
        let sel = tiered(nn, no_patterns, pe, pp, ps);
        assert forall|m: int| 0 <= m < r@.len() implies r@[m] < tiers@.len() by {
            assert(r@[m] as int == sel[m]);
        }
    }
    r
}

/// Applies the three-tier filter to names and patterns that are already
/// lower-cased, comparing them character by character: the indices of the
/// kept names, in increasing order.
pub fn select_lowered(lnames: &[String], lpats: &[String]) -> (r: Vec<usize>)
    ensures
        r@.len() == lowered_selection(pattern_views(lnames@), pattern_views(lpats@)).len(),
        forall|m: int|
            0 <= m < r@.len() ==> r@[m] as int == #[trigger] lowered_selection(
                pattern_views(lnames@),
                pattern_views(lpats@),
            )[m],
{
    let ghost names = pattern_views(lnames@);
    let ghost pats = pattern_views(lpats@);
    let mut lp: Vec<Vec<char>> = Vec::new();
    let mut j: usize = 0;
    while j < lpats.len()
        invariant
            j <= lpats@.len(),
            pats == pattern_views(lpats@),
            lp@.len() == j,
            forall|k: int| 0 <= k < j ==> #[trigger] lp@[k]@ == pats[k],
        decreases lpats.len() - j,
    {
        lp.push(chars_of(lpats[j].as_str()));
        j = j + 1;
    }
    assert(char_views(lp@) =~= pats);
    let mut tiers: Vec<u8> = Vec::new();
    let mut i: usize = 0;
    while i < lnames.len()
        invariant
            i <= lnames@.len(),
            names == pattern_views(lnames@),
            char_views(lp@) == pats,
            tiers@.len() == i,
            forall|k: int|
                0 <= k < i ==> tier_fits(
                    #[trigger] tiers@[k],
                    exact_in(names[k], pats),
                    prefix_in(names[k], pats),
                    substring_in(names[k], pats),
                ),
        decreases lnames.len() - i,
    {
        let cs = chars_of(lnames[i].as_str());
        let t = classify(cs.as_slice(), &lp);
        tiers.push(t);
        i = i + 1;
    }
    let ghost pe = |k: int| exact_in(names[k], pats);
    let ghost pp = |k: int| prefix_in(names[k], pats);
    let ghost ps = |k: int| substring_in(names[k], pats);
    let r = pick_by_tier(&tiers, lpats.len() == 0, Ghost(pe), Ghost(pp), Ghost(ps));
    assert(lowered_selection(names, pats) == tiered(names.len(), pats.len() == 0, pe, pp, ps));
    r
}

/// Extending a matched index list by `i` exactly when `hit` keeps it matched.
pub proof fn lemma_same_indices_step(v0: Seq<usize>, v1: Seq<usize>, s: Seq<int>, i: usize, hit: bool)
    requires
        same_indices(v0, s),
        hit ==> v1 == v0.push(i),
        !hit ==> v1 == v0,
    ensures
        same_indices(v1, s + if hit { seq![i as int] } else { Seq::<int>::empty() }),
{
    if hit {
        assert(v1[v0.len() as int] == i);
    } else {
        assert(s + Seq::<int>::empty() =~= s);
    }
}

/// A vector of indices lists exactly the integers of `s`, in order.
pub open spec fn same_indices(v: Seq<usize>, s: Seq<int>) -> bool {
    v.len() == s.len() && forall|m: int| 0 <= m < v.len() ==> v[m] as int == #[trigger] s[m]
}

/// Owned variant of `filter`: takes the items by value and returns the kept
/// items themselves, in their input order, with the same semantics.
pub fn filter_into<T, F>(items: Vec<T>, patterns: &[String], name_of: F) -> (r: Vec<T>)
    where
        F: Fn(&T) -> &str,
    requires
        forall|i: int| 0 <= i < items.len() ==> call_requires(name_of, (&items[i],)),
    ensures
        patterns.len() == 0 ==> r@ == items@,
        patterns.len() > 0 ==> exists|names: Seq<Seq<char>>|
            #![trigger selection(names, pattern_views(patterns@))]
            {
                &&& names.len() == items.len()
                &&& forall|i: int|
                    0 <= i < items.len() ==> named(name_of, &items[i], #[trigger] names[i])
                &&& r@.len() == selection(names, pattern_views(patterns@)).len()
                &&& forall|k: int|
                    0 <= k < r@.len() ==> #[trigger] r@[k] == items@[selection(
                        names,
                        pattern_views(patterns@),
                    )[k]]
            },
        kept(items@, pattern_views(patterns@), name_of, r@),
{
    if patterns.len() == 0 {
        return items;
    }
    let ghost pats = pattern_views(patterns@);
    let ghost orig = items@;
    let (tiers, Ghost(names)) = tiers_of(items.as_slice(), patterns, name_of);
    let ghost nn = names.len();
    let ghost pe = |i: int| exact_hit(names[i], pats);
    let ghost pp = |i: int| prefix_hit(names[i], pats);
    let ghost ps = |i: int| substring_hit(names[i], pats);
    let ghost q2 = |k: int| pp(k) && !pe(k);
    let ghost q3 = |k: int| ps(k) && !pp(k) && !pe(k);
    let mut t1: Vec<T> = Vec::new();
    let mut t2: Vec<T> = Vec::new();
    let mut t3: Vec<T> = Vec::new();
    let mut idx: usize = 0;
    let count: usize = tiers.len();
    for item in it: items
        invariant
            it.seq() == orig,
            count == orig.len(),
            idx == it.index(),
            nn == orig.len(),
            tiers@.len() == orig.len(),
            forall|k: int| 0 <= k < orig.len() ==> tier_ok(#[trigger] tiers@[k], names[k], pats),
            pe == (|k: int| exact_hit(names[k], pats)),
            pp == (|k: int| prefix_hit(names[k], pats)),
            ps == (|k: int| substring_hit(names[k], pats)),
            q2 == (|k: int| pp(k) && !pe(k)),
            q3 == (|k: int| ps(k) && !pp(k) && !pe(k)),
            idx <= orig.len(),
            picks(t1@, orig, indices_where(idx as nat, pe)),
            picks(t2@, orig, indices_where(idx as nat, q2)),
            picks(t3@, orig, indices_where(idx as nat, q3)),
    {
        let t = tiers[idx];
        let ghost (o1, o2, o3) = (t1@, t2@, t3@);
        proof {
            assert(tier_ok(tiers@[idx as int], names[idx as int], pats));
            assert(pe(idx as int) == exact_hit(names[idx as int], pats));
            assert(pp(idx as int) == prefix_hit(names[idx as int], pats));
            assert(ps(idx as int) == substring_hit(names[idx as int], pats));
            assert(q2(idx as int) == (pp(idx as int) && !pe(idx as int)));
            assert(q3(idx as int) == (ps(idx as int) && !pp(idx as int) && !pe(idx as int)));
            lemma_indices_where_step(idx as nat, pe);
            lemma_indices_where_step(idx as nat, q2);
            lemma_indices_where_step(idx as nat, q3);
            assert(item == orig[idx as int]);
        }
        if t == 1 {
            t1.push(item);
        } else if t == 2 {
            t2.push(item);
        } else if t == 3 {
            t3.push(item);
        }
        proof {
            lemma_picks_step(o1, t1@, orig, indices_where(idx as nat, pe), idx, pe(idx as int));
            lemma_picks_step(o2, t2@, orig, indices_where(idx as nat, q2), idx, q2(idx as int));
            lemma_picks_step(o3, t3@, orig, indices_where(idx as nat, q3), idx, q3(idx as int));
        }
        idx = idx + 1;
    }
    proof {
        lemma_indices_where_empty(nn, pe);
        lemma_indices_where_empty(nn, pp);
        assert(indices_where(nn, |i: int| exact_hit(names[i], pats)) == indices_where(nn, pe));
        assert(indices_where(nn, |i: int| prefix_hit(names[i], pats)) == indices_where(nn, pp));
        assert(indices_where(nn, |i: int| substring_hit(names[i], pats)) == indices_where(nn, ps));
        if indices_where(nn, pe).len() == 0 {
            lemma_indices_where_ext(nn, pp, q2);
            if indices_where(nn, pp).len() == 0 {
                lemma_indices_where_ext(nn, ps, q3);
            }
        }
    }
    let r = if t1.len() > 0 {
        t1
    } else if t2.len() > 0 {
        t2
    } else {
        t3
    };
    assert(selection(names, pattern_views(patterns@)).len() == r@.len());
    proof {
        lemma_kept_intro(orig, pats, name_of, r@, names);
    }
    r
}

/// `v` holds the elements of `src` at the indices `s`, in order.
pub open spec fn picks<T>(v: Seq<T>, src: Seq<T>, s: Seq<int>) -> bool {
    v.len() == s.len() && forall|m: int| 0 <= m < v.len() ==> v[m] == src[#[trigger] s[m]]
}

/// Appending the element at `i` exactly when `hit` keeps `picks` in step with
/// `indices_where`.
pub proof fn lemma_picks_step<T>(v0: Seq<T>, v1: Seq<T>, src: Seq<T>, s: Seq<int>, i: usize, hit: bool)
    requires
        picks(v0, src, s),
        i < src.len(),
        hit ==> v1 == v0.push(src[i as int]),
        !hit ==> v1 == v0,
    ensures
        picks(v1, src, s + if hit { seq![i as int] } else { Seq::<int>::empty() }),
{
    if hit {
        assert(v1[v0.len() as int] == src[i as int]);
        assert((s + seq![i as int])[v0.len() as int] == i as int);
    } else {
        assert(s + Seq::<int>::empty() =~= s);
    }
}

} // verus!
