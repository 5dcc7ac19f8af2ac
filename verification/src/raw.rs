//! `drata raw <METHOD> <path> ...`: the generic passthrough to any operation
//! of the API. This module holds its path building and the `--example`
//! lookup; the request itself goes through the client's write guardrail.

use vstd::prelude::*;
use crate::client::{page_sep, push_query_pair, query_pairs, query_sep, with_query};
use crate::text::{chars_of, first_index, lemma_first_index, push_str, string_from_chars, to_uppercase, uppercase_of};
use crate::cli::RawArgs;
use crate::json::{Json, JsonV};
use crate::spec::{ExampleError, example_for_operation, example_text, find_by_method_path, first_operation, spec_operations};

verus! {

/// A `key=value` entry split at its first `=`.
pub open spec fn split_entry(e: Seq<char>) -> Option<(Seq<char>, Seq<char>)> {
    match first_index(e, '=') {
        Some(i) => Some((e.take(i as int), e.skip(i as int + 1))),
        None => None,
    }
}

/// Splits an entry at its first `=`.
fn split_at_eq(e: &str) -> (r: Option<(String, String)>)
    ensures
        r is Some == split_entry(e@) is Some,
        r matches Some((k, v)) ==> split_entry(e@) == Some((k@, v@)),
{
    let cs = chars_of(e);
    let mut i: usize = 0;
    while i < cs.len()
        invariant
            cs@ == e@,
            i <= cs@.len(),
            forall|k: int| 0 <= k < i ==> cs@[k] != '=',
        decreases cs.len() - i,
    {
        if cs[i] == '=' {
            proof {
                lemma_first_index(e@, '=');
                match first_index(e@, '=') {
                    Some(j) => {
                        assert(j == i);
                    },
                    None => {},
                }
            }
            let key = string_from_chars(&cs.as_slice()[0..i]);
            let value = string_from_chars(&cs.as_slice()[i + 1..cs.len()]);
            assert(cs@.subrange(0, i as int) =~= e@.take(i as int));
            assert(cs@.subrange(i + 1, cs@.len() as int) =~= e@.skip(i + 1));
            return Some((key, value));
        }
        i = i + 1;
    }
    proof {
        lemma_first_index(e@, '=');
    }
    None
}

/// A `--query` entry that is not of the form `key=value`.
#[derive(Debug)]
pub struct QueryError {
    pub entry: String,
}

impl QueryError {
    /// The message shown to the user.
    pub fn message(&self) -> (r: String)
        ensures
            r@ == "invalid --query `"@ + self.entry@ + "`: expected key=value"@,
    {
        let mut m = String::new();
        push_str(&mut m, "invalid --query `");
        push_str(&mut m, self.entry.as_str());
        push_str(&mut m, "`: expected key=value");
        m
    }
}

/// The characters of each entry.
pub open spec fn entries_view(q: Seq<String>) -> Seq<Seq<char>> {
    q.map_values(|s: String| s@)
}

/// Every entry split at its first `=` (meaningful when all have one).
pub open spec fn split_entries(q: Seq<Seq<char>>) -> Seq<(Seq<char>, Seq<char>)> {
    q.map_values(|e: Seq<char>| split_entry(e).unwrap())
}

/// Appends `key=value` query parameters, percent-encoded, to a path
/// template. Each entry is split at its first `=`; an entry without one is
/// refused. The path may already carry a query.
pub fn build_path(path: &str, query: &[String]) -> (r: Result<String, QueryError>)
    ensures
        r is Ok <==> forall|i: int| 0 <= i < query@.len() ==> #[trigger] split_entry(query@[i]@) is Some,
        r matches Ok(p) ==> p@ == with_query(path@, split_entries(entries_view(query@))),
        r matches Err(e) ==> exists|i: int|
            0 <= i < query@.len() && split_entry(query@[i]@) is None && e.entry@ == query@[i]@
                && forall|k: int| 0 <= k < i ==> #[trigger] split_entry(query@[k]@) is Some,
{
    let mut out = String::new();
    push_str(&mut out, path);
    let first = query_sep(path);
    let ghost pairs = split_entries(entries_view(query@));
    let mut i: usize = 0;
    while i < query.len()
        invariant
            i <= query@.len(),
            first == page_sep(path@),
            pairs == split_entries(entries_view(query@)),
            forall|k: int| 0 <= k < i ==> #[trigger] split_entry(query@[k]@) is Some,
            out@ == path@ + query_pairs(first, pairs.subrange(0, i as int)),
        decreases query.len() - i,
    {
        match split_at_eq(query[i].as_str()) {
            Some((key, value)) => {
                let sep = if i == 0 { first } else { '&' };
                push_query_pair(&mut out, sep, key.as_str(), value.as_str());
                proof {
                    let p = pairs.subrange(0, i + 1);
                    assert(p.drop_last() =~= pairs.subrange(0, i as int));
                    assert(pairs[i as int] == split_entry(query@[i as int]@).unwrap());
                }
            },
            None => {
                return Err(QueryError { entry: query[i].clone() });
            },
        }
        i = i + 1;
    }
    assert(pairs.subrange(0, pairs.len() as int) =~= pairs);
    Ok(out)
}

/// What `raw --example` answers for `method` on `path`: the operation's
/// skeleton, or why there is none.
pub open spec fn skeleton_outcome(doc: JsonV, method: Seq<char>, path: Seq<char>, r: Result<String, ExampleError>) -> bool {
    match example_text(doc, method, path) {
        Some(t) => r matches Ok(s) && s@ == t,
        None => match spec_operations(doc) {
            None => r matches Err(ExampleError::Spec(_)),
            Some(ops) => match first_operation(ops, uppercase_of(method), path) {
                Some(_) => r matches Err(ExampleError::NoJsonBody { method: m, path: p })
                    && m@ == uppercase_of(method) && p@ == path,
                None => r matches Err(ExampleError::UnknownOperation { method: m, path: p })
                    && m@ == uppercase_of(method) && p@ == path,
            },
        },
    }
}

/// The `--example` skeleton of `method` on `path`, telling an unknown
/// operation apart from one without a JSON request body.
pub fn example_skeleton(doc: &Json, method: &str, path: &str) -> (r: Result<String, ExampleError>)
    ensures
        skeleton_outcome(doc@, method@, path@, r),
{
    match example_for_operation(doc, method, path) {
        Some(s) => Ok(s),
        None => match find_by_method_path(doc, method, path) {
            Err(e) => Err(ExampleError::Spec(e)),
            Ok(Some(_)) => Err(ExampleError::NoJsonBody { method: to_uppercase(method), path: path.to_string() }),
            Ok(None) => Err(ExampleError::UnknownOperation { method: to_uppercase(method), path: path.to_string() }),
        },
    }
}

/// The skeleton to print when this is a `raw --example` request, `None`
/// otherwise. Needs no credential.
pub fn example_if_requested(args: &RawArgs, doc: &Json) -> (r: Option<Result<String, ExampleError>>)
    ensures
        r is Some <==> args.example,
        r matches Some(x) ==> skeleton_outcome(doc@, args.method@, args.path@, x),
{
    if !args.example {
        return None;
    }
    Some(example_skeleton(doc, args.method.as_str(), args.path.as_str()))
}

} // verus!
