//! `expand[]` parameters: each sub-collection to expand is its own
//! `expand[]=<value>` pair (not a comma-separated list), with the brackets
//! percent-encoded in the key.

use vstd::prelude::*;
use crate::client::{page_sep, push_query_pair, query_pairs, query_sep, with_query};
use crate::text::push_str;

verus! {

/// The query pairs that expand each of `vals`.
pub open spec fn expand_pairs(vals: Seq<String>) -> Seq<(Seq<char>, Seq<char>)> {
    vals.map_values(|v: String| ("expand[]"@, v@))
}

/// Appends `expand[]=value` pairs to a path. No values leave the path
/// unchanged.
pub fn append_expand(path: &str, expand_vals: &[String]) -> (r: String)
    ensures
        r@ == with_query(path@, expand_pairs(expand_vals@)),
{
    let mut out = String::new();
    push_str(&mut out, path);
    let first = query_sep(path);
    let ghost pairs = expand_pairs(expand_vals@);
    let mut i: usize = 0;
    while i < expand_vals.len()
        invariant
            i <= expand_vals@.len(),
            first == page_sep(path@),
            pairs == expand_pairs(expand_vals@),
            out@ == path@ + query_pairs(first, pairs.subrange(0, i as int)),
        decreases expand_vals.len() - i,
    {
        let sep = if i == 0 { first } else { '&' };
        push_query_pair(&mut out, sep, "expand[]", expand_vals[i].as_str());
        proof {
            let p = pairs.subrange(0, i + 1);
            assert(p.drop_last() =~= pairs.subrange(0, i as int));
        }
        i = i + 1;
    }
    assert(pairs.subrange(0, pairs.len() as int) =~= pairs);
    out
}

} // verus!
