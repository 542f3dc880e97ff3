//! Alignment of single lines and composition of columns into a grid.

use crate::text::{
    fit_graphemes, lemma_fitted_width_bound, fitted, fitted_width, graphemes_of, join_prefix, joined, lemma_fits_whole,
    push_char, text_width,
};
use vstd::prelude::*;
use vstd::std_specs::iter::IteratorSpec;
use vstd::string::StringExecFns;

verus! {

/// Where the padding goes when a line is brought to a column's width.
#[derive(Clone, Copy, Debug, PartialEq, Eq, Structural)]
pub enum RenderColumnsAlignment {
    Left,
    Center,
    Right,
}

/// `n` copies of `c`.
pub open spec fn repeat_char(c: char, n: nat) -> Seq<char> {
    Seq::new(n, |_i: int| c)
}

/// How much of `gap` columns of padding stands left of the text.
pub open spec fn left_share(a: RenderColumnsAlignment, gap: nat) -> nat {
    match a {
        RenderColumnsAlignment::Left => 0,
        RenderColumnsAlignment::Center => gap / 2,
        RenderColumnsAlignment::Right => gap,
    }
}

/// The columns of padding that a text needs to fill `w` columns once it
/// has been truncated to them.
pub open spec fn gap_of(t: Seq<char>, w: nat) -> nat {
    (w - fitted_width(t, w)) as nat
}

/// `t` truncated to `w` columns and padded with `pad` to exactly `w`
/// columns, the padding placed as `a` says.
pub open spec fn aligned(t: Seq<char>, w: nat, a: RenderColumnsAlignment, pad: char) -> Seq<char> {
    repeat_char(pad, left_share(a, gap_of(t, w))) + fitted(t, w) + repeat_char(
        pad,
        (gap_of(t, w) - left_share(a, gap_of(t, w))) as nat,
    )
}

/// The padding character, a space where none is given.
pub open spec fn pad_char(pad: Option<char>) -> char {
    match pad {
        Some(c) => c,
        None => ' ',
    }
}

/// Appends `n` copies of `c`.
fn push_repeated(s: &mut String, c: char, n: usize)
    ensures
        final(s)@ == old(s)@ + repeat_char(c, n as nat),
{
    let mut i: usize = 0;
    while i < n
        invariant
            i <= n,
            s@ == old(s)@ + repeat_char(c, i as nat),
        decreases n - i,
    {
        push_char(s, c);
        i = i + 1;
        assert(s@ =~= old(s)@ + repeat_char(c, i as nat));
    }
}

impl RenderColumnsAlignment {
    /// Truncates `text` to `width` columns and pads it to exactly `width`
    /// columns with `pad` (a space by default).
    pub fn align(&self, text: String, width: usize, pad: Option<char>) -> (r: String)
        ensures
            r@ == aligned(text@, width as nat, *self, pad_char(pad)),
            left_share(*self, gap_of(text@, width as nat)) <= gap_of(text@, width as nat),
            fitted_width(text@, width as nat) + gap_of(text@, width as nat) == width,
            text_width(text@) <= width ==> {
                &&& fitted(text@, width as nat) == text@
                &&& gap_of(text@, width as nat) == width - text_width(text@)
            },
    {
        let p = match pad {
            Some(c) => c,
            None => ' ',
        };
        let (gs, k, used) = fit_graphemes(text.as_str(), width);
        let gap = width - used;
        let left = match self {
            RenderColumnsAlignment::Left => 0,
            RenderColumnsAlignment::Center => gap / 2,
            RenderColumnsAlignment::Right => gap,
        };
        let mut out = String::new();
        push_repeated(&mut out, p, left);
        let body = join_prefix(&gs, k);
        out.append(body.as_str());
        push_repeated(&mut out, p, gap - left);
        proof {
            if text_width(text@) <= width {
                lemma_fits_whole(text@, width as nat);
            }
        }
        out
    }
}

/// Brings `text` to exactly `width` columns, centred with spaces.
pub fn center_truncate(text: &String, width: usize) -> (r: String)
    ensures
        r@ == aligned(text@, width as nat, RenderColumnsAlignment::Center, ' '),
        text_width(text@) <= width ==> r@ == repeat_char(
            ' ',
            ((width - text_width(text@)) / 2) as nat,
        ) + text@ + repeat_char(
            ' ',
            ((width - text_width(text@)) - (width - text_width(text@)) / 2) as nat,
        ),
{
    RenderColumnsAlignment::Center.align(text.clone(), width, None)
}

/// The lines of a text: its pieces between line breaks, an empty piece
/// before a leading break, after a trailing one, and between two in a row.
pub open spec fn lines_of(s: Seq<char>) -> Seq<Seq<char>>
    decreases s.len(),
{
    if s.len() == 0 {
        seq![Seq::empty()]
    } else {
        let init = lines_of(s.drop_last());
        if s.last() == '\n' {
            init.push(Seq::empty())
        } else {
            init.update(init.len() - 1, init.last().push(s.last()))
        }
    }
}

proof fn lemma_lines_of_nonempty(s: Seq<char>)
    ensures
        lines_of(s).len() >= 1,
    decreases s.len(),
{
    if s.len() > 0 {
        lemma_lines_of_nonempty(s.drop_last());
    }
}

/// Splits `s` at each line break.
pub fn split_lines(s: &str) -> (r: Vec<String>)
    ensures
        r.deep_view() == lines_of(s@),
{
    broadcast use vstd::string::group_string_axioms;

    let mut out: Vec<String> = Vec::new();
    let mut cur = String::new();
    let mut it = s.chars();
    let ghost mut seen: Seq<char> = Seq::empty();
    proof {
        assert(out.deep_view().push(cur@) =~= lines_of(seen));
    }
    loop
        invariant
            seen + it.remaining() == s@,
            out.deep_view().push(cur@) == lines_of(seen),
        ensures
            seen == s@,
            out.deep_view().push(cur@) == lines_of(seen),
        decreases s@.len() - seen.len(),
    {
        let ghost prev = seen;
        match it.next() {
            Some(c) => {
                proof {
                    seen = seen.push(c);
                    assert(seen.drop_last() =~= prev);
                    lemma_lines_of_nonempty(prev);
                    assert(seen + it.remaining() =~= s@);
                }
                if c == '\n' {
                    out.push(cur);
                    cur = String::new();
                    assert(out.deep_view().push(cur@) =~= lines_of(seen));
                } else {
                    let ghost before = cur@;
                    push_char(&mut cur, c);
                    assert(out.deep_view().push(cur@) =~= lines_of(seen));
                }
            },
            None => {
                assert(seen =~= s@);
                break ;
            },
        }
    }
    out.push(cur);
    out
}

/// Swaps rows and columns: entry `[i][j]` of the result is entry `[j][i]`
/// of `v`, for every `i` below the length of the first row.
pub fn flip<T: Copy>(v: Vec<Vec<T>>) -> (r: Vec<Vec<T>>)
    requires
        forall|j: int| 0 <= j < v.len() ==> #[trigger] v@[j].len() >= v@[0].len(),
    ensures
        r.len() == (if v.len() == 0 { 0 } else { v@[0].len() }),
        forall|i: int| 0 <= i < r.len() ==> #[trigger] r@[i].len() == v.len(),
        forall|i: int, j: int|
            0 <= i < r.len() && 0 <= j < v.len() ==> #[trigger] r@[i]@[j] == v@[j]@[i],
{
    let height = v.len();
    let width = if height == 0 {
        0
    } else {
        v[0].len()
    };
    let mut res: Vec<Vec<T>> = Vec::new();
    let mut i: usize = 0;
    while i < width
        invariant
            height == v.len(),
            width == (if v.len() == 0 { 0 } else { v@[0].len() }),
            i <= width,
            res.len() == i,
            forall|j: int| 0 <= j < v.len() ==> #[trigger] v@[j].len() >= v@[0].len(),
            forall|a: int| 0 <= a < res.len() ==> #[trigger] res@[a].len() == v.len(),
            forall|a: int, j: int|
                0 <= a < res.len() && 0 <= j < v.len() ==> #[trigger] res@[a]@[j] == v@[j]@[a],
        decreases width - i,
    {
        let mut inner: Vec<T> = Vec::new();
        let mut j: usize = 0;
        while j < height
            invariant
                height == v.len(),
                width == v@[0].len(),
                i < width,
                j <= height,
                inner.len() == j,
                forall|b: int| 0 <= b < v.len() ==> #[trigger] v@[b].len() >= v@[0].len(),
                forall|b: int| 0 <= b < inner.len() ==> #[trigger] inner@[b] == v@[b]@[i as int],
            decreases height - j,
        {
            assert(v@[j as int].len() >= v@[0].len());
            inner.push(v[j][i]);
            j = j + 1;
        }
        res.push(inner);
        i = i + 1;
    }
    res
}

/// The lines of a column: every cell split at its line breaks, in order.
pub open spec fn cell_lines(cells: Seq<Seq<char>>) -> Seq<Seq<char>>
    decreases cells.len(),
{
    if cells.len() == 0 {
        Seq::empty()
    } else {
        cell_lines(cells.drop_last()) + lines_of(cells.last())
    }
}

/// The number of lines of the tallest column.
pub open spec fn grid_height(cols: Seq<Seq<Seq<char>>>) -> nat
    decreases cols.len(),
{
    if cols.len() == 0 {
        0
    } else {
        let h = grid_height(cols.drop_last());
        let last = cell_lines(cols.last()).len();
        if last > h {
            last
        } else {
            h
        }
    }
}

/// Line `i` of a column, or an empty line below its end.
pub open spec fn line_at(col: Seq<Seq<char>>, i: int) -> Seq<char> {
    if 0 <= i < cell_lines(col).len() {
        cell_lines(col)[i]
    } else {
        Seq::empty()
    }
}

/// The cell of row `i` in column `j`: its line brought to the column's width.
pub open spec fn grid_cell(
    cols: Seq<Seq<Seq<char>>>,
    widths: Seq<usize>,
    aligns: Seq<RenderColumnsAlignment>,
    i: int,
    j: int,
) -> Seq<char> {
    aligned(line_at(cols[j], i), widths[j] as nat, aligns[j], ' ')
}

/// Row `i` of the grid, made of its first `n` cells side by side.
pub open spec fn grid_row(
    cols: Seq<Seq<Seq<char>>>,
    widths: Seq<usize>,
    aligns: Seq<RenderColumnsAlignment>,
    i: int,
    n: int,
) -> Seq<char>
    decreases n,
{
    if n <= 0 {
        Seq::empty()
    } else {
        grid_row(cols, widths, aligns, i, n - 1) + grid_cell(cols, widths, aligns, i, n - 1)
    }
}

/// The first `h` rows of the grid, each ended by a line break.
pub open spec fn grid_rows(
    cols: Seq<Seq<Seq<char>>>,
    widths: Seq<usize>,
    aligns: Seq<RenderColumnsAlignment>,
    h: int,
) -> Seq<char>
    decreases h,
{
    if h <= 0 {
        Seq::empty()
    } else {
        grid_rows(cols, widths, aligns, h - 1) + grid_row(cols, widths, aligns, h - 1, cols.len() as int)
            + seq!['\n']
    }
}

/// The whole grid: as many rows as the tallest column has lines.
pub open spec fn rendered(
    cols: Seq<Seq<Seq<char>>>,
    widths: Seq<usize>,
    aligns: Seq<RenderColumnsAlignment>,
) -> Seq<char> {
    grid_rows(cols, widths, aligns, grid_height(cols) as int)
}

/// A grid whose columns, widths and alignments are not equally many.
#[derive(Debug, PartialEq, Eq, Structural)]
pub struct GridError {
    pub columns: usize,
    pub widths: usize,
    pub alignments: usize,
}

/// All lines of a column, every cell split at its line breaks.
fn column_lines(cells: &Vec<String>) -> (r: Vec<String>)
    ensures
        r.deep_view() == cell_lines(cells.deep_view()),
{
    let ghost c = cells.deep_view();
    let mut out: Vec<String> = Vec::new();
    let mut j: usize = 0;
    while j < cells.len()
        invariant
            c == cells.deep_view(),
            j <= cells.len(),
            out.deep_view() == cell_lines(c.take(j as int)),
        decreases cells.len() - j,
    {
        let parts = split_lines(cells[j].as_str());
        let ghost base = out.deep_view();
        let mut k: usize = 0;
        while k < parts.len()
            invariant
                k <= parts.len(),
                out.deep_view() == base + parts.deep_view().take(k as int),
            decreases parts.len() - k,
        {
            let part = parts[k].clone();
            assert(parts.deep_view()[k as int] == part@);
            let ghost prev = out.deep_view();
            out.push(part);
            assert(out.deep_view() =~= prev.push(part@));
            k = k + 1;
            assert(out.deep_view() =~= base + parts.deep_view().take(k as int));
        }
        proof {
            assert(c.take(j + 1).drop_last() =~= c.take(j as int));
            assert(parts.deep_view().take(k as int) =~= parts.deep_view());
        }
        j = j + 1;
    }
    assert(c.take(cells.len() as int) =~= c);
    out
}

/// Lays the columns side by side: each cell is split at its line breaks,
/// every line is brought to its column's width with its column's
/// alignment, short columns are filled with empty lines, and each row ends
/// with a line break.
pub fn render_columns(
    columns: Vec<Vec<String>>,
    widths: Vec<usize>,
    alignment: Vec<RenderColumnsAlignment>,
) -> (r: Result<String, GridError>)
    ensures
        r is Ok <==> (columns.len() == widths.len() && widths.len() == alignment.len()),
        r matches Ok(s) ==> s@ == rendered(columns.deep_view(), widths@, alignment@),
        r matches Err(e) ==> e == (GridError {
            columns: columns.len(),
            widths: widths.len(),
            alignments: alignment.len(),
        }),
{
    if columns.len() != widths.len() || widths.len() != alignment.len() {
        return Err(
            GridError {
                columns: columns.len(),
                widths: widths.len(),
                alignments: alignment.len(),
            },
        );
    }
    let ghost cols = columns.deep_view();
    let n = columns.len();
    let mut lines: Vec<Vec<String>> = Vec::new();
    let mut height: usize = 0;
    let mut j: usize = 0;
    while j < n
        invariant
            n == columns.len(),
            cols == columns.deep_view(),
            j <= n,
            lines.len() == j,
            forall|a: int| 0 <= a < j ==> #[trigger] lines@[a].deep_view() == cell_lines(cols[a]),
            height == grid_height(cols.take(j as int)),
        decreases n - j,
    {
        let col = column_lines(&columns[j]);
        proof {
            assert(cols.take(j + 1).drop_last() =~= cols.take(j as int));
            assert(cols.take(j + 1).last() == cols[j as int]);
        }
        if col.len() > height {
            height = col.len();
        }
        lines.push(col);
        j = j + 1;
    }
    assert(cols.take(n as int) =~= cols);
    let mut out = String::new();
    let mut i: usize = 0;
    while i < height
        invariant
            n == columns.len(),
            n == widths.len(),
            n == alignment.len(),
            cols == columns.deep_view(),
            lines.len() == n,
            forall|a: int| 0 <= a < n ==> #[trigger] lines@[a].deep_view() == cell_lines(cols[a]),
            i <= height,
            out@ == grid_rows(cols, widths@, alignment@, i as int),
        decreases height - i,
    {
        let ghost before = out@;
        let mut k: usize = 0;
        while k < n
            invariant
                n == columns.len(),
                n == widths.len(),
                n == alignment.len(),
                cols == columns.deep_view(),
                lines.len() == n,
                forall|a: int| 0 <= a < n ==> #[trigger] lines@[a].deep_view() == cell_lines(cols[a]),
                i < height,
                k <= n,
                out@ == before + grid_row(cols, widths@, alignment@, i as int, k as int),
            decreases n - k,
        {
            let line = if i < lines[k].len() {
                lines[k][i].clone()
            } else {
                String::new()
            };
            proof {
                assert(lines@[k as int].deep_view() == cell_lines(cols[k as int]));
                if i < lines@[k as int].len() {
                    assert(lines@[k as int].deep_view()[i as int] == lines@[k as int]@[i as int]@);
                }
            }
            let cell = alignment[k].align(line, widths[k], None);
            out.append(cell.as_str());
            k = k + 1;
            assert(out@ =~= before + grid_row(cols, widths@, alignment@, i as int, k as int));
        }
        out.append("\n");
        proof {
            reveal_strlit("\n");
        }
        i = i + 1;
        assert(out@ =~= grid_rows(cols, widths@, alignment@, i as int));
    }
    Ok(out)
}

/// The columns a cell of row `i` in column `j` spans: its padding plus the
/// width of the text kept.
pub open spec fn cell_span(
    cols: Seq<Seq<Seq<char>>>,
    widths: Seq<usize>,
    aligns: Seq<RenderColumnsAlignment>,
    i: int,
    j: int,
) -> nat {
    let t = line_at(cols[j], i);
    let w = widths[j] as nat;
    let gap = gap_of(t, w);
    left_share(aligns[j], gap) + fitted_width(t, w) + (gap - left_share(aligns[j], gap)) as nat
}

/// The columns spanned by the first `n` cells of row `i`.
pub open spec fn row_span(
    cols: Seq<Seq<Seq<char>>>,
    widths: Seq<usize>,
    aligns: Seq<RenderColumnsAlignment>,
    i: int,
    n: int,
) -> nat
    decreases n,
{
    if n <= 0 {
        0
    } else {
        row_span(cols, widths, aligns, i, n - 1) + cell_span(cols, widths, aligns, i, n - 1)
    }
}

/// The sum of the first `n` widths.
pub open spec fn widths_total(widths: Seq<usize>, n: int) -> nat
    decreases n,
{
    if n <= 0 {
        0
    } else {
        widths_total(widths, n - 1) + widths[n - 1] as nat
    }
}

proof fn lemma_grid_height_max(cols: Seq<Seq<Seq<char>>>)
    ensures
        forall|j: int| 0 <= j < cols.len() ==> #[trigger] cell_lines(cols[j]).len() <= grid_height(cols),
        cols.len() > 0 ==> exists|j: int|
            0 <= j < cols.len() && #[trigger] cell_lines(cols[j]).len() == grid_height(cols),
    decreases cols.len(),
{
    if cols.len() > 0 {
        let d = cols.drop_last();
        lemma_grid_height_max(d);
        assert forall|j: int| 0 <= j < cols.len() implies #[trigger] cell_lines(cols[j]).len()
            <= grid_height(cols) by {
            if j < d.len() {
                assert(cols[j] == d[j]);
            }
        }
        if cell_lines(cols.last()).len() > grid_height(d) || d.len() == 0 {
            assert(cell_lines(cols[cols.len() - 1]).len() == grid_height(cols));
        } else {
            let j = choose|j: int| 0 <= j < d.len() && #[trigger] cell_lines(d[j]).len() == grid_height(d);
            assert(cols[j] == d[j]);
        }
    }
}

proof fn lemma_row_span(
    cols: Seq<Seq<Seq<char>>>,
    widths: Seq<usize>,
    aligns: Seq<RenderColumnsAlignment>,
    i: int,
    n: int,
)
    requires
        0 <= n <= cols.len(),
        cols.len() == widths.len(),
        widths.len() == aligns.len(),
    ensures
        row_span(cols, widths, aligns, i, n) == widths_total(widths, n),
    decreases n,
{
    if n > 0 {
        lemma_row_span(cols, widths, aligns, i, n - 1);
        lemma_fitted_width_bound(line_at(cols[n - 1], i), widths[n - 1] as nat);
    }
}

/// A rendered grid is rectangular: it has as many rows as its tallest
/// column has lines, each row ended by a line break, and in every row each
/// cell spans exactly its column's width, so that the row spans the sum of
/// all widths.
pub proof fn lemma_grid_is_rectangular(
    cols: Seq<Seq<Seq<char>>>,
    widths: Seq<usize>,
    aligns: Seq<RenderColumnsAlignment>,
)
    requires
        cols.len() == widths.len(),
        widths.len() == aligns.len(),
    ensures
        rendered(cols, widths, aligns) == grid_rows(cols, widths, aligns, grid_height(cols) as int),
        forall|k: int|
            0 < k ==> #[trigger] grid_rows(cols, widths, aligns, k) == grid_rows(
                cols,
                widths,
                aligns,
                k - 1,
            ) + grid_row(cols, widths, aligns, k - 1, cols.len() as int) + seq!['\n'],
        forall|j: int| 0 <= j < cols.len() ==> #[trigger] cell_lines(cols[j]).len() <= grid_height(cols),
        cols.len() > 0 ==> exists|j: int|
            0 <= j < cols.len() && #[trigger] cell_lines(cols[j]).len() == grid_height(cols),
        cols.len() == 0 ==> rendered(cols, widths, aligns).len() == 0,
        forall|i: int, j: int|
            0 <= i < grid_height(cols) && 0 <= j < cols.len() ==> #[trigger] cell_span(
                cols,
                widths,
                aligns,
                i,
                j,
            ) == widths[j],
        forall|i: int|
            0 <= i < grid_height(cols) ==> #[trigger] row_span(cols, widths, aligns, i, cols.len() as int)
                == widths_total(widths, cols.len() as int),
{
    lemma_grid_height_max(cols);
    assert forall|i: int, j: int|
        0 <= i < grid_height(cols) && 0 <= j < cols.len() implies #[trigger] cell_span(
        cols,
        widths,
        aligns,
        i,
        j,
    ) == widths[j] by {
        lemma_fitted_width_bound(line_at(cols[j], i), widths[j] as nat);
    }
    assert forall|i: int| 0 <= i < grid_height(cols) implies #[trigger] row_span(
        cols,
        widths,
        aligns,
        i,
        cols.len() as int,
    ) == widths_total(widths, cols.len() as int) by {
        lemma_row_span(cols, widths, aligns, i, cols.len() as int);
    }
}

} // verus!
