//! Table rendering for known Drata response shapes.
//!
//! A list response is `{ "data": [...] }`; the shape of its first row picks
//! the renderer. A single-object response is rendered as a one-row table.
//! Unknown shapes give `None`, so the caller falls back to JSON. Columns are
//! shrunk one character at a time, widest first, until the table fits the
//! terminal width; cells are truncated on character boundaries with a
//! trailing ellipsis.

use vstd::prelude::*;
use crate::text::{chars_of, push_char, push_str, string_from_chars};
use crate::json::{Json, JsonV, member, member_str, member_array};

verus! {

/// Width used when the terminal size cannot be detected.
pub const DEFAULT_WIDTH: usize = 120;

/// The ellipsis that marks a truncated cell.
pub open spec fn ellipsis() -> char {
    '\u{2026}'
}

/// `n` copies of `c`.
pub open spec fn repeat(c: char, n: nat) -> Seq<char>
    decreases n,
{
    if n == 0 {
        Seq::empty()
    } else {
        repeat(c, (n - 1) as nat).push(c)
    }
}

/// `s` cut to at most `max` characters; a cut string ends in an ellipsis.
pub open spec fn truncated(s: Seq<char>, max: nat) -> Seq<char> {
    if s.len() <= max {
        s
    } else if max <= 1 {
        repeat(ellipsis(), max)
    } else {
        s.take(max - 1).push(ellipsis())
    }
}

/// `repeat` has the requested length and holds only `c`.
pub proof fn lemma_repeat(c: char, n: nat)
    ensures
        repeat(c, n).len() == n,
        forall|i: int| 0 <= i < n ==> #[trigger] repeat(c, n)[i] == c,
    decreases n,
{
    if n > 0 {
        lemma_repeat(c, (n - 1) as nat);
    }
}

/// A truncated cell is never wider than `max`.
pub proof fn lemma_truncated_len(s: Seq<char>, max: nat)
    ensures
        truncated(s, max).len() <= max,
        s.len() <= max ==> truncated(s, max) == s,
{
    lemma_repeat(ellipsis(), max);
}

/// Appends `n` copies of `c`.
fn push_repeat(out: &mut String, c: char, n: usize)
    ensures
        final(out)@ == old(out)@ + repeat(c, n as nat),
{
    let mut i: usize = 0;
    while i < n
        invariant
            i <= n,
            out@ == old(out)@ + repeat(c, i as nat),
        decreases n - i,
    {
        push_char(out, c);
        i = i + 1;
    }
}

/// `cs` cut to at most `max` characters, ending in an ellipsis when cut.
fn truncate_chars(cs: &[char], max: usize) -> (r: String)
    ensures
        r@ == truncated(cs@, max as nat),
{
    if cs.len() <= max {
        return string_from_chars(cs);
    }
    if max <= 1 {
        let mut r = String::new();
        push_repeat(&mut r, '\u{2026}', max);
        assert(r@ =~= truncated(cs@, max as nat));
        return r;
    }
    let mut r = string_from_chars(&cs[0..max - 1]);
    push_char(&mut r, '\u{2026}');
    assert(r@ =~= truncated(cs@, max as nat));
    r
}

/// Character-boundary-safe truncation with a trailing ellipsis.
pub fn truncate(s: &str, max: usize) -> (r: String)
    ensures
        r@ == truncated(s@, max as nat),
{
    let cs = chars_of(s);
    truncate_chars(cs.as_slice(), max)
}

/// The total of the column widths.
pub open spec fn width_sum(ws: Seq<nat>) -> nat
    decreases ws.len(),
{
    if ws.len() == 0 {
        0
    } else {
        width_sum(ws.drop_last()) + ws.last()
    }
}

/// The largest column width (0 for no columns).
pub open spec fn max_width(ws: Seq<nat>) -> nat
    decreases ws.len(),
{
    if ws.len() == 0 {
        0
    } else if ws.last() >= max_width(ws.drop_last()) {
        ws.last()
    } else {
        max_width(ws.drop_last())
    }
}

/// The last position holding `m`, or -1.
pub open spec fn last_index_of(ws: Seq<nat>, m: nat) -> int
    decreases ws.len(),
{
    if ws.len() == 0 {
        -1
    } else if ws.last() == m {
        ws.len() - 1
    } else {
        last_index_of(ws.drop_last(), m)
    }
}

/// The column to shrink next: the last of the widest columns, as long as
/// it is wider than one character.
pub open spec fn widest(ws: Seq<nat>) -> Option<int> {
    if max_width(ws) > 1 {
        Some(last_index_of(ws, max_width(ws)))
    } else {
        None
    }
}

/// The maximum is attained, and bounds every width.
pub proof fn lemma_max_width(ws: Seq<nat>)
    ensures
        forall|i: int| 0 <= i < ws.len() ==> #[trigger] ws[i] <= max_width(ws),
        ws.len() > 0 ==> 0 <= last_index_of(ws, max_width(ws)) < ws.len() && ws[last_index_of(
            ws,
            max_width(ws),
        )] == max_width(ws),
        ws.len() == 0 ==> max_width(ws) == 0,
    decreases ws.len(),
{
    if ws.len() > 0 {
        lemma_max_width(ws.drop_last());
        let p = ws.drop_last();
        assert forall|i: int| 0 <= i < ws.len() implies #[trigger] ws[i] <= max_width(ws) by {
            if i < ws.len() - 1 {
                assert(ws[i] == p[i]);
            }
        }
        if ws.last() != max_width(ws) {
            lemma_last_index_prefix(ws, max_width(ws));
        }
    }
}

/// A value found before the last position keeps its last index.
pub proof fn lemma_last_index_prefix(ws: Seq<nat>, m: nat)
    requires
        ws.len() > 0,
        ws.last() != m,
    ensures
        last_index_of(ws, m) == last_index_of(ws.drop_last(), m),
{
}

/// Lowering one width by one lowers the total by one.
pub proof fn lemma_width_sum_update(ws: Seq<nat>, i: int)
    requires
        0 <= i < ws.len(),
        ws[i] >= 1,
    ensures
        width_sum(ws.update(i, (ws[i] - 1) as nat)) + 1 == width_sum(ws),
    decreases ws.len(),
{
    let u = ws.update(i, (ws[i] - 1) as nat);
    if i < ws.len() - 1 {
        lemma_width_sum_update(ws.drop_last(), i);
        assert(u.drop_last() =~= ws.drop_last().update(i, (ws[i] - 1) as nat));
    } else {
        assert(u.drop_last() =~= ws.drop_last());
    }
}

/// The widths after shrinking: while the table (widths plus `sep`
/// separator characters) is wider than `width`, the widest column loses one
/// character; shrinking stops when the table fits or every column is one
/// character wide.
pub open spec fn shrink(ws: Seq<nat>, width: nat, sep: nat) -> Seq<nat>
    decreases width_sum(ws),
{
    if width_sum(ws) + sep <= width {
        ws
    } else {
        match widest(ws) {
            None => ws,
            Some(i) => {
                proof {
                    lemma_max_width(ws);
                    lemma_width_sum_update(ws, i);
                }
                shrink(ws.update(i, (ws[i] - 1) as nat), width, sep)
            },
        }
    }
}

/// The widths of a vector of column widths, as naturals.
pub open spec fn nats(v: Seq<usize>) -> Seq<nat> {
    v.map_values(|w: usize| w as nat)
}

/// Whether the columns plus `seps` two-character separators fit `width`.
fn fits(ws: &Vec<usize>, seps: usize, width: usize) -> (r: bool)
    ensures
        r == (width_sum(nats(ws@)) + 2 * seps <= width),
{
    let mut room: usize = width;
    let mut k: usize = 0;
    while k < seps
        invariant
            k <= seps,
            room + 2 * k == width,
        decreases seps - k,
    {
        if room < 2 {
            return false;
        }
        room = room - 2;
        k = k + 1;
    }
    let mut i: usize = 0;
    while i < ws.len()
        invariant
            i <= ws@.len(),
            room + 2 * seps + width_sum(nats(ws@).subrange(0, i as int)) == width,
        decreases ws.len() - i,
    {
        proof {
            assert(nats(ws@).subrange(0, i + 1).drop_last() =~= nats(ws@).subrange(0, i as int));
        }
        if room < ws[i] {
            proof {
                lemma_width_sum_prefix_le(nats(ws@), i as int + 1);
            }
            return false;
        }
        room = room - ws[i];
        i = i + 1;
    }
    assert(nats(ws@).subrange(0, ws@.len() as int) =~= nats(ws@));
    true
}

/// A prefix never totals more than the whole.
pub proof fn lemma_width_sum_prefix_le(ws: Seq<nat>, n: int)
    requires
        0 <= n <= ws.len(),
    ensures
        width_sum(ws.subrange(0, n)) <= width_sum(ws),
    decreases ws.len() - n,
{
    if n < ws.len() {
        lemma_width_sum_prefix_le(ws, n + 1);
        assert(ws.subrange(0, n + 1).drop_last() =~= ws.subrange(0, n));
    } else {
        assert(ws.subrange(0, n) =~= ws);
    }
}

/// The column the next shrinking step narrows, if any.
fn find_widest(ws: &Vec<usize>) -> (r: Option<usize>)
    ensures
        r matches Some(b) ==> widest(nats(ws@)) == Some(b as int),
        r is None ==> widest(nats(ws@)) is None,
{
    let ghost v = nats(ws@);
    let mut best: Option<usize> = None;
    let mut i: usize = 0;
    while i < ws.len()
        invariant
            i <= ws@.len(),
            v == nats(ws@),
            v.len() == ws@.len(),
            match best {
                Some(b) => max_width(v.subrange(0, i as int)) > 1 && b as int == last_index_of(
                    v.subrange(0, i as int),
                    max_width(v.subrange(0, i as int)),
                ) && b < i && v[b as int] == max_width(v.subrange(0, i as int)),
                None => max_width(v.subrange(0, i as int)) <= 1,
            },
        decreases ws.len() - i,
    {
        let ghost p = v.subrange(0, i as int);
        let ghost q = v.subrange(0, i + 1);
        proof {
            assert(q.drop_last() =~= p);
            assert(q.last() == v[i as int]);
        }
        let w = ws[i];
        let take = match best {
            Some(b) => w > 1 && w >= ws[b],
            None => w > 1,
        };
        if take {
            best = Some(i);
        } else {
            proof {
                match best {
                    Some(b) => {
                        lemma_last_index_prefix(q, max_width(q));
                    },
                    None => {},
                }
            }
        }
        i = i + 1;
    }
    assert(v.subrange(0, ws@.len() as int) =~= v);
    best
}

/// Narrows columns until the table fits `width` (see `shrink`).
fn shrink_widths(ws: &mut Vec<usize>, seps: usize, width: usize)
    ensures
        nats(final(ws)@) == shrink(nats(old(ws)@), width as nat, 2 * seps as nat),
{
    loop
        invariant
            shrink(nats(ws@), width as nat, 2 * seps as nat) == shrink(nats(old(ws)@), width as nat, 2 * seps as nat),
        decreases width_sum(nats(ws@)),
    {
        if fits(ws, seps, width) {
            return;
        }
        match find_widest(ws) {
            Some(i) => {
                let ghost v = nats(ws@);
                proof {
                    lemma_max_width(v);
                    assert(widest(v) == Some(i as int));
                    assert(max_width(v) > 1);
                    assert(v[i as int] == max_width(v));
                    assert(v[i as int] == ws@[i as int] as nat);
                    lemma_width_sum_update(v, i as int);
                }
                let w = ws[i];
                let ghost before = nats(ws@);
                ws.set(i, w - 1);
                assert(nats(ws@) =~= before.update(i as int, (before[i as int] - 1) as nat));
            },
            None => {
                return;
            },
        }
    }
}

/// The widest cell of column `i` over the rows of `grid`.
pub open spec fn column_width(grid: Seq<Seq<Seq<char>>>, i: int) -> nat
    decreases grid.len(),
{
    if grid.len() == 0 {
        0
    } else {
        let w = grid.last()[i].len();
        let prev = column_width(grid.drop_last(), i);
        if w >= prev {
            w
        } else {
            prev
        }
    }
}

/// The natural width of each of the `cols` columns.
pub open spec fn natural_widths(grid: Seq<Seq<Seq<char>>>, cols: nat) -> Seq<nat> {
    Seq::new(cols, |i: int| column_width(grid, i))
}

/// A table's rows as cells of characters.
pub open spec fn grid_view(grid: Seq<Vec<Vec<char>>>) -> Seq<Seq<Seq<char>>> {
    grid.map_values(|r: Vec<Vec<char>>| r@.map_values(|c: Vec<char>| c@))
}

/// Every row has exactly `cols` cells.
pub open spec fn rectangular(grid: Seq<Seq<Seq<char>>>, cols: nat) -> bool {
    forall|r: int| 0 <= r < grid.len() ==> #[trigger] grid[r].len() == cols
}

/// The natural column widths of a rectangular grid.
fn measure(grid: &Vec<Vec<Vec<char>>>, cols: usize) -> (ws: Vec<usize>)
    requires
        rectangular(grid_view(grid@), cols as nat),
    ensures
        nats(ws@) == natural_widths(grid_view(grid@), cols as nat),
{
    let ghost g = grid_view(grid@);
    let mut ws: Vec<usize> = Vec::new();
    let mut i: usize = 0;
    while i < cols
        invariant
            i <= cols,
            ws@.len() == i,
            forall|k: int| 0 <= k < i ==> #[trigger] ws@[k] == 0,
        decreases cols - i,
    {
        ws.push(0);
        i = i + 1;
    }
    let mut r: usize = 0;
    while r < grid.len()
        invariant
            r <= grid@.len(),
            g == grid_view(grid@),
            rectangular(g, cols as nat),
            ws@.len() == cols,
            forall|k: int| 0 <= k < cols ==> #[trigger] ws@[k] == column_width(g.subrange(0, r as int), k),
        decreases grid.len() - r,
    {
        let row = &grid[r];
        proof {
            assert(g[r as int].len() == cols);
            assert(g.subrange(0, r + 1).drop_last() =~= g.subrange(0, r as int));
        }
        let mut k: usize = 0;
        while k < cols
            invariant
                k <= cols,
                r < grid@.len(),
                g == grid_view(grid@),
                *row == grid@[r as int],
                row@.len() == cols,
                ws@.len() == cols,
                g.subrange(0, r + 1).drop_last() == g.subrange(0, r as int),
                forall|m: int| 0 <= m < k ==> #[trigger] ws@[m] == column_width(g.subrange(0, r + 1), m),
                forall|m: int| k <= m < cols ==> #[trigger] ws@[m] == column_width(g.subrange(0, r as int), m),
            decreases cols - k,
        {
            let len = row[k].len();
            proof {
                assert(g.subrange(0, r + 1).last() == g[r as int]);
                assert(g[r as int][k as int] == row@[k as int]@);
            }
            if len > ws[k] {
                ws.set(k, len);
            }
            k = k + 1;
        }
        r = r + 1;
    }
    assert(g.subrange(0, grid@.len() as int) =~= g);
    assert(nats(ws@) =~= natural_widths(g, cols as nat));
    ws
}

/// A cell cut to width `w` and padded with spaces to exactly `w`.
pub open spec fn cell_text(c: Seq<char>, w: nat) -> Seq<char> {
    truncated(c, w) + repeat(' ', (w - truncated(c, w).len()) as nat)
}

/// A row's cells laid out at the column widths, two spaces apart.
pub open spec fn row_text(cells: Seq<Seq<char>>, ws: Seq<nat>) -> Seq<char>
    decreases cells.len(),
{
    if cells.len() == 0 {
        Seq::empty()
    } else {
        row_text(cells.drop_last(), ws) + (if cells.len() > 1 {
            seq![' ', ' ']
        } else {
            Seq::empty()
        }) + cell_text(cells.last(), ws[cells.len() - 1])
    }
}

/// Every row laid out, each followed by a newline.
pub open spec fn rows_text(grid: Seq<Seq<Seq<char>>>, ws: Seq<nat>) -> Seq<char>
    decreases grid.len(),
{
    if grid.len() == 0 {
        Seq::empty()
    } else {
        rows_text(grid.drop_last(), ws) + row_text(grid.last(), ws) + seq!['\n']
    }
}

/// The number of two-space separators between `cols` columns.
pub open spec fn separators(cols: nat) -> nat {
    if cols == 0 {
        0
    } else {
        (cols - 1) as nat
    }
}

/// A grid of `cols` columns laid out to fit `width`: natural widths shrunk
/// as `shrink` says, every cell truncated and padded to its column's width.
pub open spec fn table_text(grid: Seq<Seq<Seq<char>>>, cols: nat, width: nat) -> Seq<char> {
    rows_text(grid, shrink(natural_widths(grid, cols), width, 2 * separators(cols)))
}

/// After shrinking, the table fits the width, or every column is down to
/// one character.
pub proof fn lemma_shrink_fits(ws: Seq<nat>, width: nat, sep: nat)
    ensures
        width_sum(shrink(ws, width, sep)) + sep <= width || forall|i: int|
            0 <= i < shrink(ws, width, sep).len() ==> #[trigger] shrink(ws, width, sep)[i] <= 1,
    decreases width_sum(ws),
{
    if width_sum(ws) + sep <= width {
    } else {
        match widest(ws) {
            None => {
                lemma_max_width(ws);
            },
            Some(i) => {
                lemma_max_width(ws);
                lemma_width_sum_update(ws, i);
                lemma_shrink_fits(ws.update(i, (ws[i] - 1) as nat), width, sep);
            },
        }
    }
}

/// A table that already fits keeps its natural widths.
pub proof fn lemma_shrink_fitting(ws: Seq<nat>, width: nat, sep: nat)
    requires
        width_sum(ws) + sep <= width,
    ensures
        shrink(ws, width, sep) == ws,
{
}

/// Shrinking never widens a column and never changes the number of columns.
pub proof fn lemma_shrink_shape(ws: Seq<nat>, width: nat, sep: nat)
    ensures
        shrink(ws, width, sep).len() == ws.len(),
        forall|i: int| 0 <= i < ws.len() ==> #[trigger] shrink(ws, width, sep)[i] <= ws[i],
    decreases width_sum(ws),
{
    if width_sum(ws) + sep <= width {
    } else {
        match widest(ws) {
            None => {},
            Some(i) => {
                lemma_max_width(ws);
                lemma_width_sum_update(ws, i);
                let u = ws.update(i, (ws[i] - 1) as nat);
                lemma_shrink_shape(u, width, sep);
                assert forall|k: int| 0 <= k < ws.len() implies #[trigger] shrink(ws, width, sep)[k] <= ws[k] by {
                    assert(shrink(u, width, sep)[k] <= u[k]);
                }
            },
        }
    }
}

/// Lays out a rectangular grid of `cols` columns to fit `width`.
fn layout(grid: &Vec<Vec<Vec<char>>>, cols: usize, width: usize) -> (r: String)
    requires
        rectangular(grid_view(grid@), cols as nat),
    ensures
        r@ == table_text(grid_view(grid@), cols as nat, width as nat),
{
    let ghost g = grid_view(grid@);
    let mut ws = measure(grid, cols);
    let seps: usize = if cols == 0 { 0 } else { cols - 1 };
    shrink_widths(&mut ws, seps, width);
    let ghost wv = nats(ws@);
    proof {
        lemma_shrink_shape(natural_widths(g, cols as nat), width as nat, 2 * seps as nat);
    }
    let mut out = String::new();
    let mut r: usize = 0;
    while r < grid.len()
        invariant
            r <= grid@.len(),
            g == grid_view(grid@),
            rectangular(g, cols as nat),
            ws@.len() == cols,
            wv == nats(ws@),
            out@ == rows_text(g.subrange(0, r as int), wv),
        decreases grid.len() - r,
    {
        let row = &grid[r];
        let ghost cells = g[r as int];
        proof {
            assert(cells.len() == cols);
        }
        let ghost line_start = out@;
        let mut k: usize = 0;
        while k < row.len()
            invariant
                k <= row@.len(),
                r < grid@.len(),
                g == grid_view(grid@),
                *row == grid@[r as int],
                cells == g[r as int],
                cells.len() == row@.len(),
                row@.len() == cols,
                ws@.len() == cols,
                wv == nats(ws@),
                out@ == line_start + row_text(cells.subrange(0, k as int), wv),
            decreases row.len() - k,
        {
            if k > 0 {
                push_char(&mut out, ' ');
                push_char(&mut out, ' ');
            }
            let w = ws[k];
            let t = truncate_chars(row[k].as_slice(), w);
            proof {
                assert(cells[k as int] == row@[k as int]@);
                lemma_truncated_len(row@[k as int]@, w as nat);
            }
            let tl = chars_of(t.as_str()).len();
            push_str(&mut out, t.as_str());
            push_repeat(&mut out, ' ', w - tl);
            proof {
                let p = cells.subrange(0, k + 1);
                assert(p.drop_last() =~= cells.subrange(0, k as int));
                assert(p.last() == cells[k as int]);
                assert(wv[k as int] == w as nat);
            }
            k = k + 1;
        }
        push_char(&mut out, '\n');
        proof {
            assert(cells.subrange(0, cells.len() as int) =~= cells);
            let p = g.subrange(0, r + 1);
            assert(p.drop_last() =~= g.subrange(0, r as int));
            assert(p.last() == cells);
        }
        r = r + 1;
    }
    assert(g.subrange(0, grid@.len() as int) =~= g);
    out
}

/// The known response shapes, one per resource renderer.
#[derive(Debug, Clone, Copy, PartialEq, Eq)]
pub enum Shape {
    Vendors,
    Questionnaires,
    Risks,
    Controls,
    Devices,
    Personnel,
    Policies,
    Evidence,
    Frameworks,
    Assets,
    Workspaces,
    Registers,
    Users,
    Roles,
    Monitors,
    Audits,
    Events,
    SecurityReviews,
}

/// How a column's cell is read from a row.
#[derive(Debug, Clone, Copy, PartialEq, Eq)]
pub enum ColumnKind {
    /// A string, number or boolean member, shown as text.
    Scalar,
    /// A string member.
    Text,
    /// A boolean member, shown as `true`/`false`.
    Flag,
    /// The `email` of the row's `user` object.
    UserEmail,
}

/// Whether the object `o` has a member `key`.
pub open spec fn has_key(o: JsonV, key: Seq<char>) -> bool {
    member(o, key) is Some
}

/// The renderer a sample row selects, by the members it carries; `None` for
/// a value that is not an object or has no known shape.
pub open spec fn shape_of(o: JsonV) -> Option<Shape> {
    if !(o is Object) {
        None
    } else if has_key(o, "recipientEmail"@) || has_key(o, "isCompleted"@) {
        Some(Shape::Questionnaires)
    } else if has_key(o, "category"@) && has_key(o, "risk"@) {
        Some(Shape::Vendors)
    } else if has_key(o, "treatmentPlan"@) || has_key(o, "riskId"@) {
        Some(Shape::Risks)
    } else if has_key(o, "code"@) && (has_key(o, "question"@) || has_key(o, "activity"@)) {
        Some(Shape::Controls)
    } else if has_key(o, "serialNumber"@) || has_key(o, "isDeviceCompliant"@) {
        Some(Shape::Devices)
    } else if has_key(o, "employmentStatus"@) {
        Some(Shape::Personnel)
    } else if has_key(o, "currentVersionId"@) || has_key(o, "scope"@) {
        Some(Shape::Policies)
    } else if has_key(o, "evidenceTemplateCode"@) || has_key(o, "implementationGuidance"@) {
        Some(Shape::Evidence)
    } else if has_key(o, "numInScopeControls"@) || (has_key(o, "shortName"@) && has_key(o, "slug"@)) {
        Some(Shape::Frameworks)
    } else if has_key(o, "assetType"@) || has_key(o, "assetProvider"@) {
        Some(Shape::Assets)
    } else if has_key(o, "primary"@) && has_key(o, "name"@) {
        Some(Shape::Workspaces)
    } else if has_key(o, "owners"@) && has_key(o, "workspaces"@) {
        Some(Shape::Registers)
    } else if has_key(o, "firstName"@) && has_key(o, "lastName"@) {
        Some(Shape::Users)
    } else if has_key(o, "role"@) && has_key(o, "permissions"@) {
        Some(Shape::Roles)
    } else if has_key(o, "checkResultStatus"@) || has_key(o, "checkStatus"@) {
        Some(Shape::Monitors)
    } else if has_key(o, "auditType"@) || has_key(o, "frameworkType"@) {
        Some(Shape::Audits)
    } else if has_key(o, "requestDescription"@) || has_key(o, "testName"@) {
        Some(Shape::Events)
    } else if has_key(o, "reviewDeadlineAt"@) {
        Some(Shape::SecurityReviews)
    } else {
        None
    }
}

/// Chooses the renderer for a sample row by the members it carries.
pub fn pick_renderer(o: &Json) -> (r: Option<Shape>)
    ensures
        r == shape_of(o@),
{
    if !o.is_object() {
        return None;
    }
    if o.get("recipientEmail").is_some() || o.get("isCompleted").is_some() {
        return Some(Shape::Questionnaires);
    }
    if o.get("category").is_some() && o.get("risk").is_some() {
        return Some(Shape::Vendors);
    }
    if o.get("treatmentPlan").is_some() || o.get("riskId").is_some() {
        return Some(Shape::Risks);
    }
    if o.get("code").is_some() && (o.get("question").is_some() || o.get("activity").is_some()) {
        return Some(Shape::Controls);
    }
    if o.get("serialNumber").is_some() || o.get("isDeviceCompliant").is_some() {
        return Some(Shape::Devices);
    }
    if o.get("employmentStatus").is_some() {
        return Some(Shape::Personnel);
    }
    if o.get("currentVersionId").is_some() || o.get("scope").is_some() {
        return Some(Shape::Policies);
    }
    if o.get("evidenceTemplateCode").is_some() || o.get("implementationGuidance").is_some() {
        return Some(Shape::Evidence);
    }
    if o.get("numInScopeControls").is_some() || (o.get("shortName").is_some() && o.get("slug").is_some()) {
        return Some(Shape::Frameworks);
    }
    if o.get("assetType").is_some() || o.get("assetProvider").is_some() {
        return Some(Shape::Assets);
    }
    if o.get("primary").is_some() && o.get("name").is_some() {
        return Some(Shape::Workspaces);
    }
    if o.get("owners").is_some() && o.get("workspaces").is_some() {
        return Some(Shape::Registers);
    }
    if o.get("firstName").is_some() && o.get("lastName").is_some() {
        return Some(Shape::Users);
    }
    if o.get("role").is_some() && o.get("permissions").is_some() {
        return Some(Shape::Roles);
    }
    if o.get("checkResultStatus").is_some() || o.get("checkStatus").is_some() {
        return Some(Shape::Monitors);
    }
    if o.get("auditType").is_some() || o.get("frameworkType").is_some() {
        return Some(Shape::Audits);
    }
    if o.get("requestDescription").is_some() || o.get("testName").is_some() {
        return Some(Shape::Events);
    }
    if o.get("reviewDeadlineAt").is_some() {
        return Some(Shape::SecurityReviews);
    }
    None
}

/// The columns of a shape: header, how the cell is read, and the member key.
pub open spec fn shape_columns(shape: Shape) -> Seq<(Seq<char>, ColumnKind, Seq<char>)> {
    match shape {
        Shape::Vendors => seq![("ID"@, ColumnKind::Scalar, "id"@), ("NAME"@, ColumnKind::Text, "name"@), ("CATEGORY"@, ColumnKind::Text, "category"@), ("RISK"@, ColumnKind::Text, "risk"@), ("STATUS"@, ColumnKind::Text, "status"@), ("RENEWAL"@, ColumnKind::Text, "renewalDate"@)],
        Shape::Questionnaires => seq![("ID"@, ColumnKind::Scalar, "id"@), ("TITLE"@, ColumnKind::Text, "title"@), ("RECIPIENT"@, ColumnKind::Text, "recipientEmail"@), ("COMPLETED"@, ColumnKind::Flag, "isCompleted"@), ("DATE_SENT"@, ColumnKind::Text, "dateSent"@)],
        Shape::Risks => seq![("ID"@, ColumnKind::Scalar, "id"@), ("TITLE"@, ColumnKind::Text, "title"@), ("TREATMENT"@, ColumnKind::Text, "treatmentPlan"@), ("IMPACT"@, ColumnKind::Scalar, "impact"@), ("LIKELIHOOD"@, ColumnKind::Scalar, "likelihood"@), ("STATUS"@, ColumnKind::Text, "status"@)],
        Shape::Controls => seq![("ID"@, ColumnKind::Scalar, "id"@), ("CODE"@, ColumnKind::Text, "code"@), ("NAME"@, ColumnKind::Text, "name"@), ("CREATED"@, ColumnKind::Text, "createdAt"@)],
        Shape::Devices => seq![("ID"@, ColumnKind::Scalar, "id"@), ("MODEL"@, ColumnKind::Text, "model"@), ("SERIAL"@, ColumnKind::Text, "serialNumber"@), ("OS"@, ColumnKind::Text, "osVersion"@), ("COMPLIANT"@, ColumnKind::Flag, "isDeviceCompliant"@), ("LAST_CHECKED"@, ColumnKind::Text, "lastCheckedAt"@)],
        Shape::Personnel => seq![("ID"@, ColumnKind::Scalar, "id"@), ("EMAIL"@, ColumnKind::UserEmail, "email"@), ("STATUS"@, ColumnKind::Text, "employmentStatus"@), ("STARTED"@, ColumnKind::Text, "startedAt"@), ("SEPARATED"@, ColumnKind::Text, "separatedAt"@)],
        Shape::Policies => seq![("ID"@, ColumnKind::Scalar, "id"@), ("NAME"@, ColumnKind::Text, "name"@), ("STATUS"@, ColumnKind::Text, "status"@), ("RENEWAL"@, ColumnKind::Text, "renewalDate"@), ("PUBLISHED"@, ColumnKind::Text, "publishedAt"@)],
        Shape::Evidence => seq![("ID"@, ColumnKind::Scalar, "id"@), ("NAME"@, ColumnKind::Text, "name"@), ("TEMPLATE_CODE"@, ColumnKind::Text, "evidenceTemplateCode"@), ("CREATED"@, ColumnKind::Text, "createdAt"@)],
        Shape::Frameworks => seq![("ID"@, ColumnKind::Scalar, "id"@), ("NAME"@, ColumnKind::Text, "name"@), ("SHORT_NAME"@, ColumnKind::Text, "shortName"@), ("ENABLED"@, ColumnKind::Flag, "isEnabled"@), ("CONTROLS"@, ColumnKind::Scalar, "numInScopeControls"@)],
        Shape::Assets => seq![("ID"@, ColumnKind::Scalar, "id"@), ("NAME"@, ColumnKind::Text, "name"@), ("TYPE"@, ColumnKind::Text, "assetType"@), ("PROVIDER"@, ColumnKind::Text, "assetProvider"@), ("CREATED"@, ColumnKind::Text, "createdAt"@)],
        Shape::Workspaces => seq![("ID"@, ColumnKind::Scalar, "id"@), ("NAME"@, ColumnKind::Text, "name"@), ("PRIMARY"@, ColumnKind::Flag, "primary"@), ("CREATED"@, ColumnKind::Text, "createdAt"@)],
        Shape::Registers => seq![("ID"@, ColumnKind::Scalar, "id"@), ("NAME"@, ColumnKind::Text, "name"@), ("DESCRIPTION"@, ColumnKind::Text, "description"@), ("CREATED"@, ColumnKind::Text, "createdAt"@)],
        Shape::Users => seq![("ID"@, ColumnKind::Scalar, "id"@), ("EMAIL"@, ColumnKind::Text, "email"@), ("FIRST_NAME"@, ColumnKind::Text, "firstName"@), ("LAST_NAME"@, ColumnKind::Text, "lastName"@), ("JOB_TITLE"@, ColumnKind::Text, "jobTitle"@)],
        Shape::Roles => seq![("ID"@, ColumnKind::Scalar, "id"@), ("ROLE"@, ColumnKind::Text, "role"@), ("CREATED"@, ColumnKind::Text, "createdAt"@)],
        Shape::Monitors => seq![("ID"@, ColumnKind::Scalar, "id"@), ("NAME"@, ColumnKind::Text, "name"@), ("CHECK_STATUS"@, ColumnKind::Text, "checkStatus"@), ("RESULT_STATUS"@, ColumnKind::Text, "checkResultStatus"@), ("LAST_PASSED"@, ColumnKind::Text, "lastPassedAt"@)],
        Shape::Audits => seq![("ID"@, ColumnKind::Scalar, "id"@), ("FRAMEWORK"@, ColumnKind::Text, "frameworkType"@), ("AUDIT_TYPE"@, ColumnKind::Text, "auditType"@), ("STATUS"@, ColumnKind::Text, "status"@), ("START"@, ColumnKind::Text, "startDate"@), ("END"@, ColumnKind::Text, "endDate"@)],
        Shape::Events => seq![("ID"@, ColumnKind::Scalar, "id"@), ("TYPE"@, ColumnKind::Text, "type"@), ("CATEGORY"@, ColumnKind::Text, "category"@), ("SOURCE"@, ColumnKind::Text, "source"@), ("CREATED"@, ColumnKind::Text, "createdAt"@)],
        Shape::SecurityReviews => seq![("ID"@, ColumnKind::Scalar, "id"@), ("TITLE"@, ColumnKind::Text, "title"@), ("STATUS"@, ColumnKind::Text, "status"@), ("TYPE"@, ColumnKind::Text, "type"@), ("DECISION"@, ColumnKind::Text, "decision"@), ("DEADLINE"@, ColumnKind::Text, "reviewDeadlineAt"@)],
    }
}

/// The columns of a vector, as character sequences.
pub open spec fn columns_view(v: Seq<(&'static str, ColumnKind, &'static str)>) -> Seq<(Seq<char>, ColumnKind, Seq<char>)> {
    v.map_values(|c: (&'static str, ColumnKind, &'static str)| (c.0@, c.1, c.2@))
}

/// The columns of a shape.
pub fn columns(shape: Shape) -> (r: Vec<(&'static str, ColumnKind, &'static str)>)
    ensures
        columns_view(r@) == shape_columns(shape),
{
    let r = match shape {
        Shape::Vendors => vec![("ID", ColumnKind::Scalar, "id"), ("NAME", ColumnKind::Text, "name"), ("CATEGORY", ColumnKind::Text, "category"), ("RISK", ColumnKind::Text, "risk"), ("STATUS", ColumnKind::Text, "status"), ("RENEWAL", ColumnKind::Text, "renewalDate")],
        Shape::Questionnaires => vec![("ID", ColumnKind::Scalar, "id"), ("TITLE", ColumnKind::Text, "title"), ("RECIPIENT", ColumnKind::Text, "recipientEmail"), ("COMPLETED", ColumnKind::Flag, "isCompleted"), ("DATE_SENT", ColumnKind::Text, "dateSent")],
        Shape::Risks => vec![("ID", ColumnKind::Scalar, "id"), ("TITLE", ColumnKind::Text, "title"), ("TREATMENT", ColumnKind::Text, "treatmentPlan"), ("IMPACT", ColumnKind::Scalar, "impact"), ("LIKELIHOOD", ColumnKind::Scalar, "likelihood"), ("STATUS", ColumnKind::Text, "status")],
        Shape::Controls => vec![("ID", ColumnKind::Scalar, "id"), ("CODE", ColumnKind::Text, "code"), ("NAME", ColumnKind::Text, "name"), ("CREATED", ColumnKind::Text, "createdAt")],
        Shape::Devices => vec![("ID", ColumnKind::Scalar, "id"), ("MODEL", ColumnKind::Text, "model"), ("SERIAL", ColumnKind::Text, "serialNumber"), ("OS", ColumnKind::Text, "osVersion"), ("COMPLIANT", ColumnKind::Flag, "isDeviceCompliant"), ("LAST_CHECKED", ColumnKind::Text, "lastCheckedAt")],
        Shape::Personnel => vec![("ID", ColumnKind::Scalar, "id"), ("EMAIL", ColumnKind::UserEmail, "email"), ("STATUS", ColumnKind::Text, "employmentStatus"), ("STARTED", ColumnKind::Text, "startedAt"), ("SEPARATED", ColumnKind::Text, "separatedAt")],
        Shape::Policies => vec![("ID", ColumnKind::Scalar, "id"), ("NAME", ColumnKind::Text, "name"), ("STATUS", ColumnKind::Text, "status"), ("RENEWAL", ColumnKind::Text, "renewalDate"), ("PUBLISHED", ColumnKind::Text, "publishedAt")],
        Shape::Evidence => vec![("ID", ColumnKind::Scalar, "id"), ("NAME", ColumnKind::Text, "name"), ("TEMPLATE_CODE", ColumnKind::Text, "evidenceTemplateCode"), ("CREATED", ColumnKind::Text, "createdAt")],
        Shape::Frameworks => vec![("ID", ColumnKind::Scalar, "id"), ("NAME", ColumnKind::Text, "name"), ("SHORT_NAME", ColumnKind::Text, "shortName"), ("ENABLED", ColumnKind::Flag, "isEnabled"), ("CONTROLS", ColumnKind::Scalar, "numInScopeControls")],
        Shape::Assets => vec![("ID", ColumnKind::Scalar, "id"), ("NAME", ColumnKind::Text, "name"), ("TYPE", ColumnKind::Text, "assetType"), ("PROVIDER", ColumnKind::Text, "assetProvider"), ("CREATED", ColumnKind::Text, "createdAt")],
        Shape::Workspaces => vec![("ID", ColumnKind::Scalar, "id"), ("NAME", ColumnKind::Text, "name"), ("PRIMARY", ColumnKind::Flag, "primary"), ("CREATED", ColumnKind::Text, "createdAt")],
        Shape::Registers => vec![("ID", ColumnKind::Scalar, "id"), ("NAME", ColumnKind::Text, "name"), ("DESCRIPTION", ColumnKind::Text, "description"), ("CREATED", ColumnKind::Text, "createdAt")],
        Shape::Users => vec![("ID", ColumnKind::Scalar, "id"), ("EMAIL", ColumnKind::Text, "email"), ("FIRST_NAME", ColumnKind::Text, "firstName"), ("LAST_NAME", ColumnKind::Text, "lastName"), ("JOB_TITLE", ColumnKind::Text, "jobTitle")],
        Shape::Roles => vec![("ID", ColumnKind::Scalar, "id"), ("ROLE", ColumnKind::Text, "role"), ("CREATED", ColumnKind::Text, "createdAt")],
        Shape::Monitors => vec![("ID", ColumnKind::Scalar, "id"), ("NAME", ColumnKind::Text, "name"), ("CHECK_STATUS", ColumnKind::Text, "checkStatus"), ("RESULT_STATUS", ColumnKind::Text, "checkResultStatus"), ("LAST_PASSED", ColumnKind::Text, "lastPassedAt")],
        Shape::Audits => vec![("ID", ColumnKind::Scalar, "id"), ("FRAMEWORK", ColumnKind::Text, "frameworkType"), ("AUDIT_TYPE", ColumnKind::Text, "auditType"), ("STATUS", ColumnKind::Text, "status"), ("START", ColumnKind::Text, "startDate"), ("END", ColumnKind::Text, "endDate")],
        Shape::Events => vec![("ID", ColumnKind::Scalar, "id"), ("TYPE", ColumnKind::Text, "type"), ("CATEGORY", ColumnKind::Text, "category"), ("SOURCE", ColumnKind::Text, "source"), ("CREATED", ColumnKind::Text, "createdAt")],
        Shape::SecurityReviews => vec![("ID", ColumnKind::Scalar, "id"), ("TITLE", ColumnKind::Text, "title"), ("STATUS", ColumnKind::Text, "status"), ("TYPE", ColumnKind::Text, "type"), ("DECISION", ColumnKind::Text, "decision"), ("DEADLINE", ColumnKind::Text, "reviewDeadlineAt")],
    };
    assert(columns_view(r@) =~= shape_columns(shape));
    r
}

/// `true` or `false`.
pub open spec fn bool_text(b: bool) -> Seq<char> {
    if b {
        seq!['t', 'r', 'u', 'e']
    } else {
        seq!['f', 'a', 'l', 's', 'e']
    }
}

/// The text of one cell: empty when the member is missing or of another
/// kind (so a JSON `null` shows as an empty cell).
pub open spec fn cell_value(row: JsonV, kind: ColumnKind, key: Seq<char>) -> Seq<char> {
    match kind {
        ColumnKind::Text => match member_str(row, key) {
            Some(s) => s,
            None => Seq::empty(),
        },
        ColumnKind::Flag => match member(row, key) {
            Some(JsonV::Bool(b)) => bool_text(b),
            _ => Seq::empty(),
        },
        ColumnKind::Scalar => match member(row, key) {
            Some(JsonV::Str(s)) => s,
            Some(JsonV::Number(n)) => n,
            Some(JsonV::Bool(b)) => bool_text(b),
            _ => Seq::empty(),
        },
        ColumnKind::UserEmail => match member(row, "user"@) {
            Some(u) => match member_str(u, "email"@) {
                Some(e) => e,
                None => Seq::empty(),
            },
            None => Seq::empty(),
        },
    }
}

fn push_bool(out: &mut Vec<char>, b: bool)
    ensures
        final(out)@ == old(out)@ + bool_text(b),
{
    if b {
        out.push('t');
        out.push('r');
        out.push('u');
        out.push('e');
    } else {
        out.push('f');
        out.push('a');
        out.push('l');
        out.push('s');
        out.push('e');
    }
    assert(final(out)@ =~= old(out)@ + bool_text(b));
}

/// Reads one cell of a row.
fn cell(row: &Json, kind: ColumnKind, key: &str) -> (r: Vec<char>)
    ensures
        r@ == cell_value(row@, kind, key@),
{
    let mut out: Vec<char> = Vec::new();
    match kind {
        ColumnKind::Text => match row.get(key) {
            Some(v) => match v.as_str() {
                Some(t) => {
                    out = chars_of(t);
                },
                None => {},
            },
            None => {},
        },
        ColumnKind::Flag => match row.get(key) {
            Some(v) => match v.as_bool() {
                Some(b) => push_bool(&mut out, b),
                None => {},
            },
            None => {},
        },
        ColumnKind::Scalar => match row.get(key) {
            Some(v) => match v {
                Json::Str(t) => {
                    out = chars_of(t.as_str());
                },
                Json::Number(n) => {
                    out = chars_of(n.as_str());
                },
                Json::Bool(b) => push_bool(&mut out, *b),
                _ => {},
            },
            None => {},
        },
        ColumnKind::UserEmail => match row.get("user") {
            Some(u) => match u.get("email") {
                Some(e) => match e.as_str() {
                    Some(t) => {
                        out = chars_of(t);
                    },
                    None => {},
                },
                None => {},
            },
            None => {},
        },
    }
    assert(out@ =~= cell_value(row@, kind, key@));
    out
}

/// The header row and one row of cells per item.
pub open spec fn shape_grid(shape: Shape, rows: Seq<JsonV>) -> Seq<Seq<Seq<char>>> {
    seq![shape_columns(shape).map_values(|c: (Seq<char>, ColumnKind, Seq<char>)| c.0)] + rows.map_values(
        |r: JsonV| shape_columns(shape).map_values(|c: (Seq<char>, ColumnKind, Seq<char>)| cell_value(r, c.1, c.2)),
    )
}

/// The table of a shape over some rows.
pub open spec fn shape_table(shape: Shape, rows: Seq<JsonV>, width: nat) -> Seq<char> {
    table_text(shape_grid(shape, rows), shape_columns(shape).len(), width)
}

/// The table rendering of a response, when its shape is known: a `data`
/// array by the shape of its first row (an empty one as `(no results)`), a
/// single object as a one-row table.
pub open spec fn render_text(v: JsonV, width: nat) -> Option<Seq<char>> {
    match member_array(v, "data"@) {
        Some(arr) => if arr.len() == 0 {
            Some("(no results)"@)
        } else {
            match shape_of(arr[0]) {
                Some(sh) => Some(shape_table(sh, arr, width)),
                None => None,
            }
        },
        None => match shape_of(v) {
            Some(sh) => Some(shape_table(sh, seq![v], width)),
            None => None,
        },
    }
}

/// Renders rows of a known shape as a table fitting `width`.
fn render_rows(shape: Shape, rows: &Vec<&Json>, width: usize) -> (r: String)
    ensures
        r@ == shape_table(shape, rows@.map_values(|x: &Json| x@), width as nat),
{
    let cols = columns(shape);
    let ghost cv = shape_columns(shape);
    let ghost rv = rows@.map_values(|x: &Json| x@);
    let ghost want = shape_grid(shape, rv);
    let mut grid: Vec<Vec<Vec<char>>> = Vec::new();
    let mut header: Vec<Vec<char>> = Vec::new();
    let mut k: usize = 0;
    while k < cols.len()
        invariant
            k <= cols@.len(),
            columns_view(cols@) == cv,
            header@.len() == k,
            forall|m: int| 0 <= m < k ==> #[trigger] header@[m]@ == cv[m].0,
        decreases cols.len() - k,
    {
        header.push(chars_of(cols[k].0));
        k = k + 1;
    }
    let ghost hv = header@.map_values(|c: Vec<char>| c@);
    grid.push(header);
    proof {
        assert(hv =~= cv.map_values(|c: (Seq<char>, ColumnKind, Seq<char>)| c.0));
        assert(want[0] == cv.map_values(|c: (Seq<char>, ColumnKind, Seq<char>)| c.0));
        assert(grid_view(grid@) =~= want.subrange(0, 1));
    }
    let mut i: usize = 0;
    while i < rows.len()
        invariant
            i <= rows@.len(),
            columns_view(cols@) == cv,
            cv == shape_columns(shape),
            rv == rows@.map_values(|x: &Json| x@),
            want == shape_grid(shape, rv),
            grid@.len() == i + 1,
            grid_view(grid@) == want.subrange(0, i + 1),
        decreases rows.len() - i,
    {
        let mut line: Vec<Vec<char>> = Vec::new();
        let mut k: usize = 0;
        while k < cols.len()
            invariant
                k <= cols@.len(),
                i < rows@.len(),
                columns_view(cols@) == cv,
                line@.len() == k,
                forall|m: int| 0 <= m < k ==> #[trigger] line@[m]@ == cell_value(rows@[i as int]@, cv[m].1, cv[m].2),
            decreases cols.len() - k,
        {
            let c = cols[k];
            line.push(cell(rows[i], c.1, c.2));
            k = k + 1;
        }
        let ghost before = grid@;
        grid.push(line);
        proof {
            assert(grid@ == before.push(line));
            assert(line@.map_values(|c: Vec<char>| c@) =~= want[i + 1]);
            assert(grid_view(grid@) =~= want.subrange(0, i + 2));
        }
        i = i + 1;
    }
    proof {
        assert(want.len() == rows@.len() + 1);
        assert(want.subrange(0, rows@.len() as int + 1) =~= want);
        assert(rectangular(want, cv.len()));
    }
    layout(&grid, cols.len(), width)
}

/// Dispatches on the shape of a response. `Some(table)` when a renderer
/// matches, `None` otherwise (the caller falls back to JSON).
pub fn render(value: &Json, width: usize) -> (r: Option<String>)
    ensures
        match r {
            Some(t) => render_text(value@, width as nat) == Some(t@),
            None => render_text(value@, width as nat) is None,
        },
{
    match value.get("data") {
        Some(d) => match d.as_array() {
            Some(arr) => {
                if arr.len() == 0 {
                    return Some("(no results)".to_string());
                }
                proof {
                    crate::json::lemma_items_view(arr@);
                }
                match pick_renderer(&arr[0]) {
                    Some(shape) => {
                        let mut rows: Vec<&Json> = Vec::new();
                        let mut i: usize = 0;
                        while i < arr.len()
                            invariant
                                i <= arr@.len(),
                                rows@.len() == i,
                                forall|m: int| 0 <= m < i ==> *#[trigger] rows@[m] == arr@[m],
                            decreases arr.len() - i,
                        {
                            rows.push(&arr[i]);
                            i = i + 1;
                        }
                        let t = render_rows(shape, &rows, width);
                        proof {
                            assert(rows@.map_values(|x: &Json| x@) =~= crate::json::items_view(arr@));
                        }
                        return Some(t);
                    },
                    None => {
                        return None;
                    },
                }
            },
            None => {},
        },
        None => {},
    }
    match pick_renderer(value) {
        Some(shape) => {
            let mut rows: Vec<&Json> = Vec::new();
            rows.push(value);
            let t = render_rows(shape, &rows, width);
            proof {
                assert(rows@.map_values(|x: &Json| x@) =~= seq![value@]);
            }
            Some(t)
        },
        None => None,
    }
}

} // verus!

verus! {

/// A letter in lower case; other characters are kept.
pub open spec fn lower_char(c: char) -> char {
    if 'A' <= c && c <= 'Z' {
        ((c as u32) + 32) as char
    } else {
        c
    }
}

/// The word a column header names: its letters in lower case, underscores
/// dropped (`DATE_SENT` names `datesent`).
pub open spec fn header_word(h: Seq<char>) -> Seq<char>
    decreases h.len(),
{
    if h.len() == 0 {
        Seq::empty()
    } else if h[0] == '_' {
        header_word(h.drop_first())
    } else {
        seq![lower_char(h[0])] + header_word(h.drop_first())
    }
}

/// `s` with its letters in lower case.
pub open spec fn lower_text(s: Seq<char>) -> Seq<char>
    decreases s.len(),
{
    if s.len() == 0 {
        Seq::empty()
    } else {
        seq![lower_char(s[0])] + lower_text(s.drop_first())
    }
}

/// `p` is a prefix of `s`.
pub open spec fn starts(p: Seq<char>, s: Seq<char>) -> bool
    decreases p.len(),
{
    if p.len() == 0 {
        true
    } else if s.len() == 0 {
        false
    } else {
        p[0] == s[0] && starts(p.drop_first(), s.drop_first())
    }
}

/// `p` occurs somewhere in `s`.
pub open spec fn infix(p: Seq<char>, s: Seq<char>) -> bool
    decreases s.len(),
{
    if starts(p, s) {
        true
    } else if s.len() == 0 {
        false
    } else {
        infix(p, s.drop_first())
    }
}

/// A column reads the member its header names: the header's word occurs in
/// the member's key, ignoring case (`IMPACT` reads `impact`, `TEMPLATE_CODE`
/// reads `evidenceTemplateCode`).
pub open spec fn column_reads_header(c: (Seq<char>, ColumnKind, Seq<char>)) -> bool {
    infix(header_word(c.0), lower_text(c.2))
}

/// Every column reads the member its header names, and no two columns
/// read the same member.
pub open spec fn columns_named(cs: Seq<(Seq<char>, ColumnKind, Seq<char>)>) -> bool {
    &&& forall|i: int| 0 <= i < cs.len() ==> #[trigger] column_reads_header(cs[i])
    &&& forall|i: int, j: int| 0 <= i < j < cs.len() ==> #[trigger] cs[i].2 != #[trigger] cs[j].2
}

/// The columns of the Vendors table read the members their headers name.
#[verifier::spinoff_prover]
#[verifier::rlimit(60)]
proof fn columns_of_vendors()
    ensures
        columns_named(shape_columns(Shape::Vendors)),
{
    let cs = shape_columns(Shape::Vendors);
    reveal_strlit("CATEGORY");
    reveal_strlit("ID");
    reveal_strlit("NAME");
    reveal_strlit("RENEWAL");
    reveal_strlit("RISK");
    reveal_strlit("STATUS");
    reveal_strlit("category");
    reveal_strlit("id");
    reveal_strlit("name");
    reveal_strlit("renewalDate");
    reveal_strlit("risk");
    reveal_strlit("status");
    reveal_with_fuel(header_word, 9);
    reveal_with_fuel(lower_text, 12);
    reveal_with_fuel(starts, 9);
    reveal_with_fuel(infix, 12);
    assert(infix(header_word("ID"@), lower_text("id"@)));
    assert(infix(header_word("NAME"@), lower_text("name"@)));
    assert(infix(header_word("CATEGORY"@), lower_text("category"@)));
    assert(infix(header_word("RISK"@), lower_text("risk"@)));
    assert(infix(header_word("STATUS"@), lower_text("status"@)));
    assert(infix(header_word("RENEWAL"@), lower_text("renewalDate"@)));
    assert forall|i: int| 0 <= i < cs.len() implies #[trigger] column_reads_header(cs[i]) by {
        assert(i == 0 || i == 1 || i == 2 || i == 3 || i == 4 || i == 5);
    }
    assert forall|i: int, j: int| 0 <= i < j < cs.len() implies #[trigger] cs[i].2 != #[trigger] cs[j].2 by {
        assert(i == 0 || i == 1 || i == 2 || i == 3 || i == 4 || i == 5);
        assert(j == 0 || j == 1 || j == 2 || j == 3 || j == 4 || j == 5);
    }
}

/// The columns of the Questionnaires table read the members their headers name.
#[verifier::spinoff_prover]
#[verifier::rlimit(60)]
proof fn columns_of_questionnaires()
    ensures
        columns_named(shape_columns(Shape::Questionnaires)),
{
    let cs = shape_columns(Shape::Questionnaires);
    reveal_strlit("COMPLETED");
    reveal_strlit("DATE_SENT");
    reveal_strlit("ID");
    reveal_strlit("RECIPIENT");
    reveal_strlit("TITLE");
    reveal_strlit("dateSent");
    reveal_strlit("id");
    reveal_strlit("isCompleted");
    reveal_strlit("recipientEmail");
    reveal_strlit("title");
    reveal_with_fuel(header_word, 10);
    reveal_with_fuel(lower_text, 15);
    reveal_with_fuel(starts, 10);
    reveal_with_fuel(infix, 15);
    assert(infix(header_word("ID"@), lower_text("id"@)));
    assert(infix(header_word("TITLE"@), lower_text("title"@)));
    assert(infix(header_word("RECIPIENT"@), lower_text("recipientEmail"@)));
    assert(infix(header_word("COMPLETED"@), lower_text("isCompleted"@)));
    assert(infix(header_word("DATE_SENT"@), lower_text("dateSent"@)));
    assert forall|i: int| 0 <= i < cs.len() implies #[trigger] column_reads_header(cs[i]) by {
        assert(i == 0 || i == 1 || i == 2 || i == 3 || i == 4);
    }
    assert forall|i: int, j: int| 0 <= i < j < cs.len() implies #[trigger] cs[i].2 != #[trigger] cs[j].2 by {
        assert(i == 0 || i == 1 || i == 2 || i == 3 || i == 4);
        assert(j == 0 || j == 1 || j == 2 || j == 3 || j == 4);
    }
}

/// The columns of the Risks table read the members their headers name.
#[verifier::spinoff_prover]
#[verifier::rlimit(60)]
proof fn columns_of_risks()
    ensures
        columns_named(shape_columns(Shape::Risks)),
{
    let cs = shape_columns(Shape::Risks);
    reveal_strlit("ID");
    reveal_strlit("IMPACT");
    reveal_strlit("LIKELIHOOD");
    reveal_strlit("STATUS");
    reveal_strlit("TITLE");
    reveal_strlit("TREATMENT");
    reveal_strlit("id");
    reveal_strlit("impact");
    reveal_strlit("likelihood");
    reveal_strlit("status");
    reveal_strlit("title");
    reveal_strlit("treatmentPlan");
    reveal_with_fuel(header_word, 11);
    reveal_with_fuel(lower_text, 14);
    reveal_with_fuel(starts, 11);
    reveal_with_fuel(infix, 14);
    assert(infix(header_word("ID"@), lower_text("id"@)));
    assert(infix(header_word("TITLE"@), lower_text("title"@)));
    assert(infix(header_word("TREATMENT"@), lower_text("treatmentPlan"@)));
    assert(infix(header_word("IMPACT"@), lower_text("impact"@)));
    assert(infix(header_word("LIKELIHOOD"@), lower_text("likelihood"@)));
    assert(infix(header_word("STATUS"@), lower_text("status"@)));
    assert forall|i: int| 0 <= i < cs.len() implies #[trigger] column_reads_header(cs[i]) by {
        assert(i == 0 || i == 1 || i == 2 || i == 3 || i == 4 || i == 5);
    }
    assert forall|i: int, j: int| 0 <= i < j < cs.len() implies #[trigger] cs[i].2 != #[trigger] cs[j].2 by {
        assert(i == 0 || i == 1 || i == 2 || i == 3 || i == 4 || i == 5);
        assert(j == 0 || j == 1 || j == 2 || j == 3 || j == 4 || j == 5);
    }
}

/// The columns of the Controls table read the members their headers name.
#[verifier::spinoff_prover]
#[verifier::rlimit(60)]
proof fn columns_of_controls()
    ensures
        columns_named(shape_columns(Shape::Controls)),
{
    let cs = shape_columns(Shape::Controls);
    reveal_strlit("CODE");
    reveal_strlit("CREATED");
    reveal_strlit("ID");
    reveal_strlit("NAME");
    reveal_strlit("code");
    reveal_strlit("createdAt");
    reveal_strlit("id");
    reveal_strlit("name");
    reveal_with_fuel(header_word, 8);
    reveal_with_fuel(lower_text, 10);
    reveal_with_fuel(starts, 8);
    reveal_with_fuel(infix, 10);
    assert(infix(header_word("ID"@), lower_text("id"@)));
    assert(infix(header_word("CODE"@), lower_text("code"@)));
    assert(infix(header_word("NAME"@), lower_text("name"@)));
    assert(infix(header_word("CREATED"@), lower_text("createdAt"@)));
    assert forall|i: int| 0 <= i < cs.len() implies #[trigger] column_reads_header(cs[i]) by {
        assert(i == 0 || i == 1 || i == 2 || i == 3);
    }
    assert forall|i: int, j: int| 0 <= i < j < cs.len() implies #[trigger] cs[i].2 != #[trigger] cs[j].2 by {
        assert(i == 0 || i == 1 || i == 2 || i == 3);
        assert(j == 0 || j == 1 || j == 2 || j == 3);
    }
}

/// The columns of the Devices table read the members their headers name.
#[verifier::spinoff_prover]
#[verifier::rlimit(60)]
proof fn columns_of_devices()
    ensures
        columns_named(shape_columns(Shape::Devices)),
{
    let cs = shape_columns(Shape::Devices);
    reveal_strlit("COMPLIANT");
    reveal_strlit("ID");
    reveal_strlit("LAST_CHECKED");
    reveal_strlit("MODEL");
    reveal_strlit("OS");
    reveal_strlit("SERIAL");
    reveal_strlit("id");
    reveal_strlit("isDeviceCompliant");
    reveal_strlit("lastCheckedAt");
    reveal_strlit("model");
    reveal_strlit("osVersion");
    reveal_strlit("serialNumber");
    reveal_with_fuel(header_word, 13);
    reveal_with_fuel(lower_text, 18);
    reveal_with_fuel(starts, 13);
    reveal_with_fuel(infix, 18);
    assert(infix(header_word("ID"@), lower_text("id"@)));
    assert(infix(header_word("MODEL"@), lower_text("model"@)));
    assert(infix(header_word("SERIAL"@), lower_text("serialNumber"@)));
    assert(infix(header_word("OS"@), lower_text("osVersion"@)));
    assert(infix(header_word("COMPLIANT"@), lower_text("isDeviceCompliant"@)));
    assert(infix(header_word("LAST_CHECKED"@), lower_text("lastCheckedAt"@)));
    assert forall|i: int| 0 <= i < cs.len() implies #[trigger] column_reads_header(cs[i]) by {
        assert(i == 0 || i == 1 || i == 2 || i == 3 || i == 4 || i == 5);
    }
    assert forall|i: int, j: int| 0 <= i < j < cs.len() implies #[trigger] cs[i].2 != #[trigger] cs[j].2 by {
        assert(i == 0 || i == 1 || i == 2 || i == 3 || i == 4 || i == 5);
        assert(j == 0 || j == 1 || j == 2 || j == 3 || j == 4 || j == 5);
    }
}

/// The columns of the Personnel table read the members their headers name.
#[verifier::spinoff_prover]
#[verifier::rlimit(60)]
proof fn columns_of_personnel()
    ensures
        columns_named(shape_columns(Shape::Personnel)),
{
    let cs = shape_columns(Shape::Personnel);
    reveal_strlit("EMAIL");
    reveal_strlit("ID");
    reveal_strlit("SEPARATED");
    reveal_strlit("STARTED");
    reveal_strlit("STATUS");
    reveal_strlit("email");
    reveal_strlit("employmentStatus");
    reveal_strlit("id");
    reveal_strlit("separatedAt");
    reveal_strlit("startedAt");
    reveal_with_fuel(header_word, 10);
    reveal_with_fuel(lower_text, 17);
    reveal_with_fuel(starts, 10);
    reveal_with_fuel(infix, 17);
    assert(infix(header_word("ID"@), lower_text("id"@)));
    assert(infix(header_word("EMAIL"@), lower_text("email"@)));
    assert(infix(header_word("STATUS"@), lower_text("employmentStatus"@)));
    assert(infix(header_word("STARTED"@), lower_text("startedAt"@)));
    assert(infix(header_word("SEPARATED"@), lower_text("separatedAt"@)));
    assert forall|i: int| 0 <= i < cs.len() implies #[trigger] column_reads_header(cs[i]) by {
        assert(i == 0 || i == 1 || i == 2 || i == 3 || i == 4);
    }
    assert forall|i: int, j: int| 0 <= i < j < cs.len() implies #[trigger] cs[i].2 != #[trigger] cs[j].2 by {
        assert(i == 0 || i == 1 || i == 2 || i == 3 || i == 4);
        assert(j == 0 || j == 1 || j == 2 || j == 3 || j == 4);
    }
}

/// The columns of the Policies table read the members their headers name.
#[verifier::spinoff_prover]
#[verifier::rlimit(60)]
proof fn columns_of_policies()
    ensures
        columns_named(shape_columns(Shape::Policies)),
{
    let cs = shape_columns(Shape::Policies);
    reveal_strlit("ID");
    reveal_strlit("NAME");
    reveal_strlit("PUBLISHED");
    reveal_strlit("RENEWAL");
    reveal_strlit("STATUS");
    reveal_strlit("id");
    reveal_strlit("name");
    reveal_strlit("publishedAt");
    reveal_strlit("renewalDate");
    reveal_strlit("status");
    reveal_with_fuel(header_word, 10);
    reveal_with_fuel(lower_text, 12);
    reveal_with_fuel(starts, 10);
    reveal_with_fuel(infix, 12);
    assert(infix(header_word("ID"@), lower_text("id"@)));
    assert(infix(header_word("NAME"@), lower_text("name"@)));
    assert(infix(header_word("STATUS"@), lower_text("status"@)));
    assert(infix(header_word("RENEWAL"@), lower_text("renewalDate"@)));
    assert(infix(header_word("PUBLISHED"@), lower_text("publishedAt"@)));
    assert forall|i: int| 0 <= i < cs.len() implies #[trigger] column_reads_header(cs[i]) by {
        assert(i == 0 || i == 1 || i == 2 || i == 3 || i == 4);
    }
    assert forall|i: int, j: int| 0 <= i < j < cs.len() implies #[trigger] cs[i].2 != #[trigger] cs[j].2 by {
        assert(i == 0 || i == 1 || i == 2 || i == 3 || i == 4);
        assert(j == 0 || j == 1 || j == 2 || j == 3 || j == 4);
    }
}

/// The columns of the Evidence table read the members their headers name.
#[verifier::spinoff_prover]
#[verifier::rlimit(60)]
proof fn columns_of_evidence()
    ensures
        columns_named(shape_columns(Shape::Evidence)),
{
    let cs = shape_columns(Shape::Evidence);
    reveal_strlit("CREATED");
    reveal_strlit("ID");
    reveal_strlit("NAME");
    reveal_strlit("TEMPLATE_CODE");
    reveal_strlit("createdAt");
    reveal_strlit("evidenceTemplateCode");
    reveal_strlit("id");
    reveal_strlit("name");
    reveal_with_fuel(header_word, 14);
    reveal_with_fuel(lower_text, 21);
    reveal_with_fuel(starts, 14);
    reveal_with_fuel(infix, 21);
    assert(infix(header_word("ID"@), lower_text("id"@)));
    assert(infix(header_word("NAME"@), lower_text("name"@)));
    assert(infix(header_word("TEMPLATE_CODE"@), lower_text("evidenceTemplateCode"@)));
    assert(infix(header_word("CREATED"@), lower_text("createdAt"@)));
    assert forall|i: int| 0 <= i < cs.len() implies #[trigger] column_reads_header(cs[i]) by {
        assert(i == 0 || i == 1 || i == 2 || i == 3);
    }
    assert forall|i: int, j: int| 0 <= i < j < cs.len() implies #[trigger] cs[i].2 != #[trigger] cs[j].2 by {
        assert(i == 0 || i == 1 || i == 2 || i == 3);
        assert(j == 0 || j == 1 || j == 2 || j == 3);
    }
}

/// The columns of the Frameworks table read the members their headers name.
#[verifier::spinoff_prover]
#[verifier::rlimit(60)]
proof fn columns_of_frameworks()
    ensures
        columns_named(shape_columns(Shape::Frameworks)),
{
    let cs = shape_columns(Shape::Frameworks);
    reveal_strlit("CONTROLS");
    reveal_strlit("ENABLED");
    reveal_strlit("ID");
    reveal_strlit("NAME");
    reveal_strlit("SHORT_NAME");
    reveal_strlit("id");
    reveal_strlit("isEnabled");
    reveal_strlit("name");
    reveal_strlit("numInScopeControls");
    reveal_strlit("shortName");
    reveal_with_fuel(header_word, 11);
    reveal_with_fuel(lower_text, 19);
    reveal_with_fuel(starts, 11);
    reveal_with_fuel(infix, 19);
    assert(infix(header_word("ID"@), lower_text("id"@)));
    assert(infix(header_word("NAME"@), lower_text("name"@)));
    assert(infix(header_word("SHORT_NAME"@), lower_text("shortName"@)));
    assert(infix(header_word("ENABLED"@), lower_text("isEnabled"@)));
    assert(infix(header_word("CONTROLS"@), lower_text("numInScopeControls"@)));
    assert forall|i: int| 0 <= i < cs.len() implies #[trigger] column_reads_header(cs[i]) by {
        assert(i == 0 || i == 1 || i == 2 || i == 3 || i == 4);
    }
    assert forall|i: int, j: int| 0 <= i < j < cs.len() implies #[trigger] cs[i].2 != #[trigger] cs[j].2 by {
        assert(i == 0 || i == 1 || i == 2 || i == 3 || i == 4);
        assert(j == 0 || j == 1 || j == 2 || j == 3 || j == 4);
    }
}

/// The columns of the Assets table read the members their headers name.
#[verifier::spinoff_prover]
#[verifier::rlimit(60)]
proof fn columns_of_assets()
    ensures
        columns_named(shape_columns(Shape::Assets)),
{
    let cs = shape_columns(Shape::Assets);
    reveal_strlit("CREATED");
    reveal_strlit("ID");
    reveal_strlit("NAME");
    reveal_strlit("PROVIDER");
    reveal_strlit("TYPE");
    reveal_strlit("assetProvider");
    reveal_strlit("assetType");
    reveal_strlit("createdAt");
    reveal_strlit("id");
    reveal_strlit("name");
    reveal_with_fuel(header_word, 9);
    reveal_with_fuel(lower_text, 14);
    reveal_with_fuel(starts, 9);
    reveal_with_fuel(infix, 14);
    assert(infix(header_word("ID"@), lower_text("id"@)));
    assert(infix(header_word("NAME"@), lower_text("name"@)));
    assert(infix(header_word("TYPE"@), lower_text("assetType"@)));
    assert(infix(header_word("PROVIDER"@), lower_text("assetProvider"@)));
    assert(infix(header_word("CREATED"@), lower_text("createdAt"@)));
    assert forall|i: int| 0 <= i < cs.len() implies #[trigger] column_reads_header(cs[i]) by {
        assert(i == 0 || i == 1 || i == 2 || i == 3 || i == 4);
    }
    assert forall|i: int, j: int| 0 <= i < j < cs.len() implies #[trigger] cs[i].2 != #[trigger] cs[j].2 by {
        assert(i == 0 || i == 1 || i == 2 || i == 3 || i == 4);
        assert(j == 0 || j == 1 || j == 2 || j == 3 || j == 4);
    }
}

/// The columns of the Workspaces table read the members their headers name.
#[verifier::spinoff_prover]
#[verifier::rlimit(60)]
proof fn columns_of_workspaces()
    ensures
        columns_named(shape_columns(Shape::Workspaces)),
{
    let cs = shape_columns(Shape::Workspaces);
    reveal_strlit("CREATED");
    reveal_strlit("ID");
    reveal_strlit("NAME");
    reveal_strlit("PRIMARY");
    reveal_strlit("createdAt");
    reveal_strlit("id");
    reveal_strlit("name");
    reveal_strlit("primary");
    reveal_with_fuel(header_word, 8);
    reveal_with_fuel(lower_text, 10);
    reveal_with_fuel(starts, 8);
    reveal_with_fuel(infix, 10);
    assert(infix(header_word("ID"@), lower_text("id"@)));
    assert(infix(header_word("NAME"@), lower_text("name"@)));
    assert(infix(header_word("PRIMARY"@), lower_text("primary"@)));
    assert(infix(header_word("CREATED"@), lower_text("createdAt"@)));
    assert forall|i: int| 0 <= i < cs.len() implies #[trigger] column_reads_header(cs[i]) by {
        assert(i == 0 || i == 1 || i == 2 || i == 3);
    }
    assert forall|i: int, j: int| 0 <= i < j < cs.len() implies #[trigger] cs[i].2 != #[trigger] cs[j].2 by {
        assert(i == 0 || i == 1 || i == 2 || i == 3);
        assert(j == 0 || j == 1 || j == 2 || j == 3);
    }
}

/// The columns of the Registers table read the members their headers name.
#[verifier::spinoff_prover]
#[verifier::rlimit(60)]
proof fn columns_of_registers()
    ensures
        columns_named(shape_columns(Shape::Registers)),
{
    let cs = shape_columns(Shape::Registers);
    reveal_strlit("CREATED");
    reveal_strlit("DESCRIPTION");
    reveal_strlit("ID");
    reveal_strlit("NAME");
    reveal_strlit("createdAt");
    reveal_strlit("description");
    reveal_strlit("id");
    reveal_strlit("name");
    reveal_with_fuel(header_word, 12);
    reveal_with_fuel(lower_text, 12);
    reveal_with_fuel(starts, 12);
    reveal_with_fuel(infix, 12);
    assert(infix(header_word("ID"@), lower_text("id"@)));
    assert(infix(header_word("NAME"@), lower_text("name"@)));
    assert(infix(header_word("DESCRIPTION"@), lower_text("description"@)));
    assert(infix(header_word("CREATED"@), lower_text("createdAt"@)));
    assert forall|i: int| 0 <= i < cs.len() implies #[trigger] column_reads_header(cs[i]) by {
        assert(i == 0 || i == 1 || i == 2 || i == 3);
    }
    assert forall|i: int, j: int| 0 <= i < j < cs.len() implies #[trigger] cs[i].2 != #[trigger] cs[j].2 by {
        assert(i == 0 || i == 1 || i == 2 || i == 3);
        assert(j == 0 || j == 1 || j == 2 || j == 3);
    }
}

/// The columns of the Users table read the members their headers name.
#[verifier::spinoff_prover]
#[verifier::rlimit(60)]
proof fn columns_of_users()
    ensures
        columns_named(shape_columns(Shape::Users)),
{
    let cs = shape_columns(Shape::Users);
    reveal_strlit("EMAIL");
    reveal_strlit("FIRST_NAME");
    reveal_strlit("ID");
    reveal_strlit("JOB_TITLE");
    reveal_strlit("LAST_NAME");
    reveal_strlit("email");
    reveal_strlit("firstName");
    reveal_strlit("id");
    reveal_strlit("jobTitle");
    reveal_strlit("lastName");
    reveal_with_fuel(header_word, 11);
    reveal_with_fuel(lower_text, 10);
    reveal_with_fuel(starts, 11);
    reveal_with_fuel(infix, 10);
    assert(infix(header_word("ID"@), lower_text("id"@)));
    assert(infix(header_word("EMAIL"@), lower_text("email"@)));
    assert(infix(header_word("FIRST_NAME"@), lower_text("firstName"@)));
    assert(infix(header_word("LAST_NAME"@), lower_text("lastName"@)));
    assert(infix(header_word("JOB_TITLE"@), lower_text("jobTitle"@)));
    assert forall|i: int| 0 <= i < cs.len() implies #[trigger] column_reads_header(cs[i]) by {
        assert(i == 0 || i == 1 || i == 2 || i == 3 || i == 4);
    }
    assert forall|i: int, j: int| 0 <= i < j < cs.len() implies #[trigger] cs[i].2 != #[trigger] cs[j].2 by {
        assert(i == 0 || i == 1 || i == 2 || i == 3 || i == 4);
        assert(j == 0 || j == 1 || j == 2 || j == 3 || j == 4);
    }
}

/// The columns of the Roles table read the members their headers name.
#[verifier::spinoff_prover]
#[verifier::rlimit(60)]
proof fn columns_of_roles()
    ensures
        columns_named(shape_columns(Shape::Roles)),
{
    let cs = shape_columns(Shape::Roles);
    reveal_strlit("CREATED");
    reveal_strlit("ID");
    reveal_strlit("ROLE");
    reveal_strlit("createdAt");
    reveal_strlit("id");
    reveal_strlit("role");
    reveal_with_fuel(header_word, 8);
    reveal_with_fuel(lower_text, 10);
    reveal_with_fuel(starts, 8);
    reveal_with_fuel(infix, 10);
    assert(infix(header_word("ID"@), lower_text("id"@)));
    assert(infix(header_word("ROLE"@), lower_text("role"@)));
    assert(infix(header_word("CREATED"@), lower_text("createdAt"@)));
    assert forall|i: int| 0 <= i < cs.len() implies #[trigger] column_reads_header(cs[i]) by {
        assert(i == 0 || i == 1 || i == 2);
    }
    assert forall|i: int, j: int| 0 <= i < j < cs.len() implies #[trigger] cs[i].2 != #[trigger] cs[j].2 by {
        assert(i == 0 || i == 1 || i == 2);
        assert(j == 0 || j == 1 || j == 2);
    }
}

/// The columns of the Monitors table read the members their headers name.
#[verifier::spinoff_prover]
#[verifier::rlimit(60)]
proof fn columns_of_monitors()
    ensures
        columns_named(shape_columns(Shape::Monitors)),
{
    let cs = shape_columns(Shape::Monitors);
    reveal_strlit("CHECK_STATUS");
    reveal_strlit("ID");
    reveal_strlit("LAST_PASSED");
    reveal_strlit("NAME");
    reveal_strlit("RESULT_STATUS");
    reveal_strlit("checkResultStatus");
    reveal_strlit("checkStatus");
    reveal_strlit("id");
    reveal_strlit("lastPassedAt");
    reveal_strlit("name");
    reveal_with_fuel(header_word, 14);
    reveal_with_fuel(lower_text, 18);
    reveal_with_fuel(starts, 14);
    reveal_with_fuel(infix, 18);
    assert(infix(header_word("ID"@), lower_text("id"@)));
    assert(infix(header_word("NAME"@), lower_text("name"@)));
    assert(infix(header_word("CHECK_STATUS"@), lower_text("checkStatus"@)));
    assert(infix(header_word("RESULT_STATUS"@), lower_text("checkResultStatus"@)));
    assert(infix(header_word("LAST_PASSED"@), lower_text("lastPassedAt"@)));
    assert forall|i: int| 0 <= i < cs.len() implies #[trigger] column_reads_header(cs[i]) by {
        assert(i == 0 || i == 1 || i == 2 || i == 3 || i == 4);
    }
    assert forall|i: int, j: int| 0 <= i < j < cs.len() implies #[trigger] cs[i].2 != #[trigger] cs[j].2 by {
        assert(i == 0 || i == 1 || i == 2 || i == 3 || i == 4);
        assert(j == 0 || j == 1 || j == 2 || j == 3 || j == 4);
    }
}

/// The columns of the Audits table read the members their headers name.
#[verifier::spinoff_prover]
#[verifier::rlimit(60)]
proof fn columns_of_audits()
    ensures
        columns_named(shape_columns(Shape::Audits)),
{
    let cs = shape_columns(Shape::Audits);
    reveal_strlit("AUDIT_TYPE");
    reveal_strlit("END");
    reveal_strlit("FRAMEWORK");
    reveal_strlit("ID");
    reveal_strlit("START");
    reveal_strlit("STATUS");
    reveal_strlit("auditType");
    reveal_strlit("endDate");
    reveal_strlit("frameworkType");
    reveal_strlit("id");
    reveal_strlit("startDate");
    reveal_strlit("status");
    reveal_with_fuel(header_word, 11);
    reveal_with_fuel(lower_text, 14);
    reveal_with_fuel(starts, 11);
    reveal_with_fuel(infix, 14);
    assert(infix(header_word("ID"@), lower_text("id"@)));
    assert(infix(header_word("FRAMEWORK"@), lower_text("frameworkType"@)));
    assert(infix(header_word("AUDIT_TYPE"@), lower_text("auditType"@)));
    assert(infix(header_word("STATUS"@), lower_text("status"@)));
    assert(infix(header_word("START"@), lower_text("startDate"@)));
    assert(infix(header_word("END"@), lower_text("endDate"@)));
    assert forall|i: int| 0 <= i < cs.len() implies #[trigger] column_reads_header(cs[i]) by {
        assert(i == 0 || i == 1 || i == 2 || i == 3 || i == 4 || i == 5);
    }
    assert forall|i: int, j: int| 0 <= i < j < cs.len() implies #[trigger] cs[i].2 != #[trigger] cs[j].2 by {
        assert(i == 0 || i == 1 || i == 2 || i == 3 || i == 4 || i == 5);
        assert(j == 0 || j == 1 || j == 2 || j == 3 || j == 4 || j == 5);
    }
}

/// The columns of the Events table read the members their headers name.
#[verifier::spinoff_prover]
#[verifier::rlimit(60)]
proof fn columns_of_events()
    ensures
        columns_named(shape_columns(Shape::Events)),
{
    let cs = shape_columns(Shape::Events);
    reveal_strlit("CATEGORY");
    reveal_strlit("CREATED");
    reveal_strlit("ID");
    reveal_strlit("SOURCE");
    reveal_strlit("TYPE");
    reveal_strlit("category");
    reveal_strlit("createdAt");
    reveal_strlit("id");
    reveal_strlit("source");
    reveal_strlit("type");
    reveal_with_fuel(header_word, 9);
    reveal_with_fuel(lower_text, 10);
    reveal_with_fuel(starts, 9);
    reveal_with_fuel(infix, 10);
    assert(infix(header_word("ID"@), lower_text("id"@)));
    assert(infix(header_word("TYPE"@), lower_text("type"@)));
    assert(infix(header_word("CATEGORY"@), lower_text("category"@)));
    assert(infix(header_word("SOURCE"@), lower_text("source"@)));
    assert(infix(header_word("CREATED"@), lower_text("createdAt"@)));
    assert forall|i: int| 0 <= i < cs.len() implies #[trigger] column_reads_header(cs[i]) by {
        assert(i == 0 || i == 1 || i == 2 || i == 3 || i == 4);
    }
    assert forall|i: int, j: int| 0 <= i < j < cs.len() implies #[trigger] cs[i].2 != #[trigger] cs[j].2 by {
        assert(i == 0 || i == 1 || i == 2 || i == 3 || i == 4);
        assert(j == 0 || j == 1 || j == 2 || j == 3 || j == 4);
    }
}

/// The columns of the SecurityReviews table read the members their headers name.
#[verifier::spinoff_prover]
#[verifier::rlimit(60)]
proof fn columns_of_security_reviews()
    ensures
        columns_named(shape_columns(Shape::SecurityReviews)),
{
    let cs = shape_columns(Shape::SecurityReviews);
    reveal_strlit("DEADLINE");
    reveal_strlit("DECISION");
    reveal_strlit("ID");
    reveal_strlit("STATUS");
    reveal_strlit("TITLE");
    reveal_strlit("TYPE");
    reveal_strlit("decision");
    reveal_strlit("id");
    reveal_strlit("reviewDeadlineAt");
    reveal_strlit("status");
    reveal_strlit("title");
    reveal_strlit("type");
    reveal_with_fuel(header_word, 9);
    reveal_with_fuel(lower_text, 17);
    reveal_with_fuel(starts, 9);
    reveal_with_fuel(infix, 17);
    assert(infix(header_word("ID"@), lower_text("id"@)));
    assert(infix(header_word("TITLE"@), lower_text("title"@)));
    assert(infix(header_word("STATUS"@), lower_text("status"@)));
    assert(infix(header_word("TYPE"@), lower_text("type"@)));
    assert(infix(header_word("DECISION"@), lower_text("decision"@)));
    assert(infix(header_word("DEADLINE"@), lower_text("reviewDeadlineAt"@)));
    assert forall|i: int| 0 <= i < cs.len() implies #[trigger] column_reads_header(cs[i]) by {
        assert(i == 0 || i == 1 || i == 2 || i == 3 || i == 4 || i == 5);
    }
    assert forall|i: int, j: int| 0 <= i < j < cs.len() implies #[trigger] cs[i].2 != #[trigger] cs[j].2 by {
        assert(i == 0 || i == 1 || i == 2 || i == 3 || i == 4 || i == 5);
        assert(j == 0 || j == 1 || j == 2 || j == 3 || j == 4 || j == 5);
    }
}

/// Every table shows, under each header, the row member that header names
/// (the `IMPACT` column shows `impact`, `LIKELIHOOD` shows `likelihood`),
/// and no two columns of a table show the same member.
pub proof fn lemma_columns_read_their_headers(shape: Shape)
    ensures
        columns_named(shape_columns(shape)),
{
    match shape {
        Shape::Vendors => columns_of_vendors(),
        Shape::Questionnaires => columns_of_questionnaires(),
        Shape::Risks => columns_of_risks(),
        Shape::Controls => columns_of_controls(),
        Shape::Devices => columns_of_devices(),
        Shape::Personnel => columns_of_personnel(),
        Shape::Policies => columns_of_policies(),
        Shape::Evidence => columns_of_evidence(),
        Shape::Frameworks => columns_of_frameworks(),
        Shape::Assets => columns_of_assets(),
        Shape::Workspaces => columns_of_workspaces(),
        Shape::Registers => columns_of_registers(),
        Shape::Users => columns_of_users(),
        Shape::Roles => columns_of_roles(),
        Shape::Monitors => columns_of_monitors(),
        Shape::Audits => columns_of_audits(),
        Shape::Events => columns_of_events(),
        Shape::SecurityReviews => columns_of_security_reviews(),
    }
}

/// A cell shows the row's member under the column's key: a text or scalar
/// column shows a string member as it is; a scalar column shows a number as
/// its JSON text; a flag or scalar column shows a boolean as `true` /
/// `false`; a missing member is an empty cell.
pub proof fn lemma_cells_show_members(row: JsonV, key: Seq<char>)
    ensures
        member(row, key) matches Some(JsonV::Str(s)) ==> cell_value(row, ColumnKind::Text, key) == s && cell_value(
            row,
            ColumnKind::Scalar,
            key,
        ) == s,
        member(row, key) matches Some(JsonV::Number(n)) ==> cell_value(row, ColumnKind::Scalar, key) == n,
        member(row, key) == Some(JsonV::Bool(true)) ==> cell_value(row, ColumnKind::Flag, key) == seq!['t', 'r', 'u', 'e']
            && cell_value(row, ColumnKind::Scalar, key) == seq!['t', 'r', 'u', 'e'],
        member(row, key) == Some(JsonV::Bool(false)) ==> cell_value(row, ColumnKind::Flag, key) == seq![
            'f',
            'a',
            'l',
            's',
            'e',
        ] && cell_value(row, ColumnKind::Scalar, key) == seq!['f', 'a', 'l', 's', 'e'],
        member(row, key) is None ==> cell_value(row, ColumnKind::Text, key).len() == 0 && cell_value(
            row,
            ColumnKind::Scalar,
            key,
        ).len() == 0 && cell_value(row, ColumnKind::Flag, key).len() == 0,
{
}

/// A table's grid has one header line and one line per item; line `r + 1`
/// shows item `r`, and its cell in column `c` is that item's member under
/// column `c`'s key, read as the column's kind.
pub proof fn lemma_grid_cells(shape: Shape, rows: Seq<JsonV>)
    ensures
        shape_grid(shape, rows).len() == rows.len() + 1,
        forall|c: int|
            0 <= c < shape_columns(shape).len() ==> #[trigger] shape_grid(shape, rows)[0][c] == shape_columns(shape)[c].0,
        forall|r: int, c: int|
            0 <= r < rows.len() && 0 <= c < shape_columns(shape).len() ==> #[trigger] shape_grid(shape, rows)[r + 1][c]
                == cell_value(rows[r], shape_columns(shape)[c].1, shape_columns(shape)[c].2),
        forall|r: int| 0 <= r <= rows.len() ==> #[trigger] shape_grid(shape, rows)[r].len() == shape_columns(shape).len(),
{
    let g = shape_grid(shape, rows);
    assert forall|r: int, c: int|
        0 <= r < rows.len() && 0 <= c < shape_columns(shape).len() implies #[trigger] g[r + 1][c] == cell_value(
        rows[r],
        shape_columns(shape)[c].1,
        shape_columns(shape)[c].2,
    ) by {
        assert(g[r + 1] == shape_columns(shape).map_values(
            |col: (Seq<char>, ColumnKind, Seq<char>)| cell_value(rows[r], col.1, col.2),
        ));
    }
    assert forall|r: int| 0 <= r <= rows.len() implies #[trigger] g[r].len() == shape_columns(shape).len() by {
        if r > 0 {
            assert(g[r] == shape_columns(shape).map_values(
                |col: (Seq<char>, ColumnKind, Seq<char>)| cell_value(rows[r - 1], col.1, col.2),
            ));
        }
    }
}

} // verus!
