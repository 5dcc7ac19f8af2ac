//! Rendering the library's JSON model as text: the compact form (no
//! whitespace) and the pretty form (two-space indentation, `": "` after a
//! key, empty containers as `[]` / `{}`).

use vstd::prelude::*;
use crate::json::{Json, JsonV, items_view, fields_view, lemma_items_view, lemma_fields_view};
use crate::text::{push_char, push_str};

verus! {

/// The lowercase hexadecimal digit for `d < 16`.
pub open spec fn hex_lower(d: u32) -> char {
    match d {
        0u32 => '0',
        1u32 => '1',
        2u32 => '2',
        3u32 => '3',
        4u32 => '4',
        5u32 => '5',
        6u32 => '6',
        7u32 => '7',
        8u32 => '8',
        9u32 => '9',
        10u32 => 'a',
        11u32 => 'b',
        12u32 => 'c',
        13u32 => 'd',
        14u32 => 'e',
        _ => 'f',
    }
}

/// How one character of a string is written inside JSON quotes.
pub open spec fn escape_char(c: char) -> Seq<char> {
    if c == '"' {
        seq!['\\', '"']
    } else if c == '\\' {
        seq!['\\', '\\']
    } else if c == '\n' {
        seq!['\\', 'n']
    } else if c == '\r' {
        seq!['\\', 'r']
    } else if c == '\t' {
        seq!['\\', 't']
    } else if c == '\u{8}' {
        seq!['\\', 'b']
    } else if c == '\u{c}' {
        seq!['\\', 'f']
    } else if (c as u32) < 0x20 {
        seq!['\\', 'u', '0', '0', hex_lower((c as u32) / 16), hex_lower((c as u32) % 16)]
    } else {
        seq![c]
    }
}

/// A string's characters, escaped for JSON.
pub open spec fn escape_text(s: Seq<char>) -> Seq<char>
    decreases s.len(),
{
    if s.len() == 0 {
        Seq::empty()
    } else {
        escape_text(s.drop_last()) + escape_char(s.last())
    }
}

/// A string as a JSON string literal.
pub open spec fn quoted(s: Seq<char>) -> Seq<char> {
    seq!['"'] + escape_text(s) + seq!['"']
}

/// The compact JSON text of a value.
pub open spec fn compact(j: JsonV) -> Seq<char>
    decreases j,
{
    match j {
        JsonV::Null => seq!['n', 'u', 'l', 'l'],
        JsonV::Bool(b) => if b {
            seq!['t', 'r', 'u', 'e']
        } else {
            seq!['f', 'a', 'l', 's', 'e']
        },
        JsonV::Number(n) => n,
        JsonV::Str(s) => quoted(s),
        JsonV::Array(v) => seq!['['] + compact_items(v) + seq![']'],
        JsonV::Object(f) => seq!['{'] + compact_fields(f) + seq!['}'],
    }
}

/// Array elements in compact form, separated by commas.
pub open spec fn compact_items(v: Seq<JsonV>) -> Seq<char>
    decreases v,
{
    if v.len() == 0 {
        Seq::empty()
    } else if v.len() == 1 {
        compact(v[0])
    } else {
        compact_items(v.drop_last()) + seq![','] + compact(v.last())
    }
}

/// Object members in compact form, separated by commas.
pub open spec fn compact_fields(f: Seq<(Seq<char>, JsonV)>) -> Seq<char>
    decreases f,
{
    if f.len() == 0 {
        Seq::empty()
    } else if f.len() == 1 {
        quoted(f[0].0) + seq![':'] + compact(f[0].1)
    } else {
        compact_fields(f.drop_last()) + seq![','] + quoted(f.last().0) + seq![':'] + compact(f.last().1)
    }
}

/// Two spaces per level of nesting.
pub open spec fn indent(level: nat) -> Seq<char>
    decreases level,
{
    if level == 0 {
        Seq::empty()
    } else {
        indent((level - 1) as nat) + seq![' ', ' ']
    }
}

/// The pretty JSON text of a value nested `level` deep.
pub open spec fn pretty(j: JsonV, level: nat) -> Seq<char>
    decreases j,
{
    match j {
        JsonV::Array(v) => if v.len() == 0 {
            seq!['[', ']']
        } else {
            seq!['[', '\n'] + pretty_items(v, level + 1) + seq!['\n'] + indent(level) + seq![']']
        },
        JsonV::Object(f) => if f.len() == 0 {
            seq!['{', '}']
        } else {
            seq!['{', '\n'] + pretty_fields(f, level + 1) + seq!['\n'] + indent(level) + seq!['}']
        },
        _ => compact(j),
    }
}

/// Array elements in pretty form at `level`, one per line.
pub open spec fn pretty_items(v: Seq<JsonV>, level: nat) -> Seq<char>
    decreases v,
{
    if v.len() == 0 {
        Seq::empty()
    } else if v.len() == 1 {
        indent(level) + pretty(v[0], level)
    } else {
        pretty_items(v.drop_last(), level) + seq![',', '\n'] + indent(level) + pretty(v.last(), level)
    }
}

/// Object members in pretty form at `level`, one per line.
pub open spec fn pretty_fields(f: Seq<(Seq<char>, JsonV)>, level: nat) -> Seq<char>
    decreases f,
{
    if f.len() == 0 {
        Seq::empty()
    } else if f.len() == 1 {
        indent(level) + quoted(f[0].0) + seq![':', ' '] + pretty(f[0].1, level)
    } else {
        pretty_fields(f.drop_last(), level) + seq![',', '\n'] + indent(level) + quoted(f.last().0) + seq![
            ':',
            ' ',
        ] + pretty(f.last().1, level)
    }
}

fn hex_digit(d: u32) -> (c: char)
    requires
        d < 16,
    ensures
        c == hex_lower(d),
{
    match d {
        0u32 => '0',
        1u32 => '1',
        2u32 => '2',
        3u32 => '3',
        4u32 => '4',
        5u32 => '5',
        6u32 => '6',
        7u32 => '7',
        8u32 => '8',
        9u32 => '9',
        10u32 => 'a',
        11u32 => 'b',
        12u32 => 'c',
        13u32 => 'd',
        14u32 => 'e',
        _ => 'f',
    }
}

/// Appends the escaped form of one character.
fn push_escaped(out: &mut String, c: char)
    ensures
        final(out)@ == old(out)@ + escape_char(c),
{
    if c == '"' {
        push_char(out, '\\');
        push_char(out, '"');
    } else if c == '\\' {
        push_char(out, '\\');
        push_char(out, '\\');
    } else if c == '\n' {
        push_char(out, '\\');
        push_char(out, 'n');
    } else if c == '\r' {
        push_char(out, '\\');
        push_char(out, 'r');
    } else if c == '\t' {
        push_char(out, '\\');
        push_char(out, 't');
    } else if c == '\u{8}' {
        push_char(out, '\\');
        push_char(out, 'b');
    } else if c == '\u{c}' {
        push_char(out, '\\');
        push_char(out, 'f');
    } else if (c as u32) < 0x20 {
        push_char(out, '\\');
        push_char(out, 'u');
        push_char(out, '0');
        push_char(out, '0');
        push_char(out, hex_digit((c as u32) / 16));
        push_char(out, hex_digit((c as u32) % 16));
    } else {
        push_char(out, c);
    }
}

/// Appends `s` as a JSON string literal.
pub fn write_quoted(out: &mut String, s: &str)
    ensures
        final(out)@ == old(out)@ + quoted(s@),
{
    let cs = crate::text::chars_of(s);
    push_char(out, '"');
    let ghost start = old(out)@ + seq!['"'];
    let mut i: usize = 0;
    while i < cs.len()
        invariant
            i <= cs@.len(),
            cs@ == s@,
            out@ == start + escape_text(cs@.subrange(0, i as int)),
        decreases cs.len() - i,
    {
        push_escaped(out, cs[i]);
        proof {
            assert(cs@.subrange(0, i + 1).drop_last() =~= cs@.subrange(0, i as int));
        }
        i = i + 1;
    }
    assert(cs@.subrange(0, cs@.len() as int) =~= cs@);
    push_char(out, '"');
    assert(out@ =~= old(out)@ + quoted(s@));
}

/// Appends the compact JSON text of `j`.
pub fn write_compact(out: &mut String, j: &Json)
    ensures
        final(out)@ == old(out)@ + compact(j@),
    decreases j,
{
    match j {
        Json::Null => {
            push_char(out, 'n');
            push_char(out, 'u');
            push_char(out, 'l');
            push_char(out, 'l');
        },
        Json::Bool(b) => {
            if *b {
                push_char(out, 't');
                push_char(out, 'r');
                push_char(out, 'u');
                push_char(out, 'e');
            } else {
                push_char(out, 'f');
                push_char(out, 'a');
                push_char(out, 'l');
                push_char(out, 's');
                push_char(out, 'e');
            }
        },
        Json::Number(n) => {
            push_str(out, n.as_str());
        },
        Json::Str(t) => {
            write_quoted(out, t.as_str());
        },
        Json::Array(v) => {
            let ghost vv = items_view(v@);
            proof {
                lemma_items_view(v@);
            }
            push_char(out, '[');
            let ghost start = old(out)@ + seq!['['];
            let mut i: usize = 0;
            while i < v.len()
                invariant
                    i <= v@.len(),
                    *j == Json::Array(*v),
                    vv == items_view(v@),
                    vv.len() == v@.len(),
                    forall|k: int| 0 <= k < v@.len() ==> #[trigger] vv[k] == crate::json::json_view(v@[k]),
                    out@ == start + compact_items(vv.subrange(0, i as int)),
                decreases v.len() - i,
            {
                proof {
                    broadcast use vstd::std_specs::vec::axiom_vec_index_decreases;
                    assert(decreases_to!(v => v[i as int]));
                    assert(decreases_to!(*j => (*j)->Array_0));
                    assert(decreases_to!(*j => v[i as int]));
                }
                if i > 0 {
                    push_char(out, ',');
                }
                write_compact(out, &v[i]);
                proof {
                    let p = vv.subrange(0, i + 1);
                    assert(p.drop_last() =~= vv.subrange(0, i as int));
                    assert(p.last() == vv[i as int]);
                    if i == 0 {
                        assert(vv.subrange(0, 0) =~= Seq::<JsonV>::empty());
                    }
                }
                i = i + 1;
            }
            assert(vv.subrange(0, vv.len() as int) =~= vv);
            push_char(out, ']');
        },
        Json::Object(f) => {
            let ghost fv = fields_view(f@);
            proof {
                lemma_fields_view(f@);
            }
            push_char(out, '{');
            let ghost start = old(out)@ + seq!['{'];
            let mut i: usize = 0;
            while i < f.len()
                invariant
                    i <= f@.len(),
                    *j == Json::Object(*f),
                    fv == fields_view(f@),
                    fv.len() == f@.len(),
                    forall|k: int|
                        0 <= k < f@.len() ==> #[trigger] fv[k] == (f@[k].0@, crate::json::json_view(f@[k].1)),
                    out@ == start + compact_fields(fv.subrange(0, i as int)),
                decreases f.len() - i,
            {
                proof {
                    broadcast use vstd::std_specs::vec::axiom_vec_index_decreases;
                    assert(decreases_to!(f => f[i as int]));
                    assert(decreases_to!(f[i as int] => f[i as int].1));
                    assert(decreases_to!(*j => (*j)->Object_0));
                    assert(decreases_to!(*j => f[i as int].1));
                }
                if i > 0 {
                    push_char(out, ',');
                }
                write_quoted(out, f[i].0.as_str());
                push_char(out, ':');
                write_compact(out, &f[i].1);
                proof {
                    let p = fv.subrange(0, i + 1);
                    assert(p.drop_last() =~= fv.subrange(0, i as int));
                    assert(p.last() == fv[i as int]);
                    if i == 0 {
                        assert(fv.subrange(0, 0) =~= Seq::<(Seq<char>, JsonV)>::empty());
                    }
                }
                i = i + 1;
            }
            assert(fv.subrange(0, fv.len() as int) =~= fv);
            push_char(out, '}');
        },
    }
}

/// The compact JSON text of `j`.
pub fn to_compact(j: &Json) -> (r: String)
    ensures
        r@ == compact(j@),
{
    let mut out = String::new();
    write_compact(&mut out, j);
    assert(out@ =~= compact(j@));
    out
}

/// Appends the pretty JSON text of `j` nested `level` deep, where `ind` is
/// that level's indentation.
fn write_pretty(out: &mut String, j: &Json, ind: &str, Ghost(level): Ghost<nat>)
    requires
        ind@ == indent(level),
    ensures
        final(out)@ == old(out)@ + pretty(j@, level),
    decreases j,
{
    match j {
        Json::Array(v) => {
            if v.len() == 0 {
                push_char(out, '[');
                push_char(out, ']');
                return;
            }
            let ghost vv = items_view(v@);
            proof {
                lemma_items_view(v@);
            }
            let mut inner = String::new();
            push_str(&mut inner, ind);
            push_char(&mut inner, ' ');
            push_char(&mut inner, ' ');
            assert(inner@ =~= indent(level + 1));
            push_char(out, '[');
            push_char(out, '\n');
            let ghost start = old(out)@ + seq!['[', '\n'];
            let mut i: usize = 0;
            while i < v.len()
                invariant
                    i <= v@.len(),
                    *j == Json::Array(*v),
                    inner@ == indent(level + 1),
                    vv == items_view(v@),
                    vv.len() == v@.len(),
                    forall|k: int| 0 <= k < v@.len() ==> #[trigger] vv[k] == crate::json::json_view(v@[k]),
                    out@ == start + pretty_items(vv.subrange(0, i as int), level + 1),
                decreases v.len() - i,
            {
                proof {
                    broadcast use vstd::std_specs::vec::axiom_vec_index_decreases;
                    assert(decreases_to!(v => v[i as int]));
                    assert(decreases_to!(*j => (*j)->Array_0));
                    assert(decreases_to!(*j => v[i as int]));
                }
                if i > 0 {
                    push_char(out, ',');
                    push_char(out, '\n');
                }
                push_str(out, inner.as_str());
                write_pretty(out, &v[i], inner.as_str(), Ghost(level + 1));
                proof {
                    let p = vv.subrange(0, i + 1);
                    assert(p.drop_last() =~= vv.subrange(0, i as int));
                    assert(p.last() == vv[i as int]);
                    if i == 0 {
                        assert(vv.subrange(0, 0) =~= Seq::<JsonV>::empty());
                    }
                }
                i = i + 1;
            }
            assert(vv.subrange(0, vv.len() as int) =~= vv);
            push_char(out, '\n');
            push_str(out, ind);
            push_char(out, ']');
            assert(out@ =~= old(out)@ + pretty(j@, level));
        },
        Json::Object(f) => {
            if f.len() == 0 {
                push_char(out, '{');
                push_char(out, '}');
                return;
            }
            let ghost fv = fields_view(f@);
            proof {
                lemma_fields_view(f@);
            }
            let mut inner = String::new();
            push_str(&mut inner, ind);
            push_char(&mut inner, ' ');
            push_char(&mut inner, ' ');
            assert(inner@ =~= indent(level + 1));
            push_char(out, '{');
            push_char(out, '\n');
            let ghost start = old(out)@ + seq!['{', '\n'];
            let mut i: usize = 0;
            while i < f.len()
                invariant
                    i <= f@.len(),
                    *j == Json::Object(*f),
                    inner@ == indent(level + 1),
                    fv == fields_view(f@),
                    fv.len() == f@.len(),
                    forall|k: int|
                        0 <= k < f@.len() ==> #[trigger] fv[k] == (f@[k].0@, crate::json::json_view(f@[k].1)),
                    out@ == start + pretty_fields(fv.subrange(0, i as int), level + 1),
                decreases f.len() - i,
            {
                proof {
                    broadcast use vstd::std_specs::vec::axiom_vec_index_decreases;
                    assert(decreases_to!(f => f[i as int]));
                    assert(decreases_to!(f[i as int] => f[i as int].1));
                    assert(decreases_to!(*j => (*j)->Object_0));
                    assert(decreases_to!(*j => f[i as int].1));
                }
                if i > 0 {
                    push_char(out, ',');
                    push_char(out, '\n');
                }
                push_str(out, inner.as_str());
                write_quoted(out, f[i].0.as_str());
                push_char(out, ':');
                push_char(out, ' ');
                write_pretty(out, &f[i].1, inner.as_str(), Ghost(level + 1));
                proof {
                    let p = fv.subrange(0, i + 1);
                    assert(p.drop_last() =~= fv.subrange(0, i as int));
                    assert(p.last() == fv[i as int]);
                    if i == 0 {
                        assert(fv.subrange(0, 0) =~= Seq::<(Seq<char>, JsonV)>::empty());
                    }
                }
                i = i + 1;
            }
            assert(fv.subrange(0, fv.len() as int) =~= fv);
            push_char(out, '\n');
            push_str(out, ind);
            push_char(out, '}');
            assert(out@ =~= old(out)@ + pretty(j@, level));
        },
        _ => {
            write_compact(out, j);
        },
    }
}

/// The pretty JSON text of `j` (two-space indentation).
pub fn to_pretty(j: &Json) -> (r: String)
    ensures
        r@ == pretty(j@, 0),
{
    let mut out = String::new();
    let ind = String::new();
    write_pretty(&mut out, j, ind.as_str(), Ghost(0));
    assert(out@ =~= pretty(j@, 0));
    out
}

/// A character that JSON text can carry as it is inside a string.
pub open spec fn plain_char(c: char) -> bool {
    c != '"' && c != '\\' && (c as u32) >= 0x20
}

/// Escaping keeps plain text as it is, and never writes a raw control
/// character (so a JSON string stays on one line whatever it holds).
pub proof fn lemma_escape_text(s: Seq<char>)
    ensures
        (forall|i: int| 0 <= i < s.len() ==> plain_char(#[trigger] s[i])) ==> escape_text(s) == s,
        forall|i: int| 0 <= i < escape_text(s).len() ==> (#[trigger] escape_text(s)[i] as u32) >= 0x20,
    decreases s.len(),
{
    if s.len() > 0 {
        let init = s.drop_last();
        lemma_escape_text(init);
        let c = s.last();
        let e = escape_char(c);
        assert forall|i: int| 0 <= i < e.len() implies (#[trigger] e[i] as u32) >= 0x20 by {
            if (c as u32) < 0x20 && c != '\n' && c != '\r' && c != '\t' && c != '\u{8}' && c != '\u{c}' {
                let hi = (c as u32) / 16;
                let lo = (c as u32) % 16;
                assert(hi < 16 && lo < 16);
            }
        }
        let t = escape_text(s);
        assert(t == escape_text(init) + e);
        assert forall|i: int| 0 <= i < t.len() implies (#[trigger] t[i] as u32) >= 0x20 by {
            if i < escape_text(init).len() {
                assert(t[i] == escape_text(init)[i]);
            } else {
                assert(t[i] == e[i - escape_text(init).len()]);
            }
        }
        if forall|i: int| 0 <= i < s.len() ==> plain_char(#[trigger] s[i]) {
            assert forall|i: int| 0 <= i < init.len() implies plain_char(#[trigger] init[i]) by {
                assert(init[i] == s[i]);
            }
            assert(plain_char(s[s.len() - 1]));
            assert(t =~= s);
        }
    }
}

/// A string whose characters are all plain is written as itself between
/// double quotes.
pub proof fn lemma_plain_string_quoted(s: Seq<char>)
    requires
        forall|i: int| 0 <= i < s.len() ==> plain_char(#[trigger] s[i]),
    ensures
        compact(JsonV::Str(s)) == seq!['"'] + s + seq!['"'],
{
    lemma_escape_text(s);
}

} // verus!
