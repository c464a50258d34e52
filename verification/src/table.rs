//! Box-drawn tables for markdown tables in the chat view.
//!
//! Column widths are the widest cell of each column (at least six cells);
//! cells wider than their column wrap onto further lines of the same row.
use vstd::prelude::*;

use crate::text::{chars_of, join_chars, spec_join, string_views, views};
use crate::width::{
    chars_width, lemma_text_width_bound, pad_chars, spec_pad, spec_text_width, spec_wrap,
    strings_from, wrap_chars,
};

verus! {

/// Narrowest column before any scaling.
pub const MIN_COLUMN_WIDTH: usize = 6;

/// Width of the terminal that tables are laid out for.
pub const TABLE_TERMINAL_WIDTH: usize = 80;

// ---------------------------------------------------------------------------
// Specification
// ---------------------------------------------------------------------------

/// `n` copies of `c`.
pub open spec fn repeat_char(c: char, n: nat) -> Seq<char> {
    Seq::new(n, |i: int| c)
}

/// A horizontal rule: `l`, one run of `─` per column joined by `m`, then `r`.
pub open spec fn border(widths: Seq<usize>, l: char, m: char, r: char) -> Seq<char> {
    seq![l] + spec_join(widths.map_values(|w: usize| repeat_char('─', w as nat)), seq![m]) + seq![r]
}

/// Cells joined by `│` between the outer characters `l` and `r`.
pub open spec fn framed(cells: Seq<Seq<char>>, l: char, r: char) -> Seq<char> {
    seq![l] + spec_join(cells, seq!['│']) + seq![r]
}

/// Each cell padded to the width of its column.
pub open spec fn padded(cells: Seq<Seq<char>>, widths: Seq<usize>) -> Seq<Seq<char>> {
    Seq::new(cells.len(), |i: int| spec_pad(cells[i], widths[i] as nat))
}

/// The header lines: top rule, the padded headers, and the rule under them.
pub open spec fn header_block(headers: Seq<Seq<char>>, widths: Seq<usize>) -> Seq<Seq<char>> {
    if headers.len() == 0 {
        Seq::empty()
    } else {
        seq![
            border(widths, '┌', '┬', '┐'),
            framed(padded(headers, widths), '│', '│'),
            border(widths, '├', '┼', '┤'),
        ]
    }
}

/// The cells of each column of a row, wrapped to the column width; cells
/// past the last column are dropped.
pub open spec fn wrapped_row(row: Seq<Seq<char>>, widths: Seq<usize>) -> Seq<Seq<Seq<char>>> {
    let n = if row.len() < widths.len() {
        row.len()
    } else {
        widths.len()
    };
    Seq::new(n, |i: int| spec_wrap(row[i], widths[i] as nat))
}

/// Most lines of any wrapped cell.
pub open spec fn most_lines(ws: Seq<Seq<Seq<char>>>) -> nat
    decreases ws.len(),
{
    if ws.len() == 0 {
        0
    } else {
        let m = most_lines(ws.drop_last());
        if ws.last().len() > m {
            ws.last().len()
        } else {
            m
        }
    }
}

/// Lines a row takes: the most lines of its cells, one for a row without cells.
pub open spec fn row_height(ws: Seq<Seq<Seq<char>>>) -> nat {
    if ws.len() == 0 {
        1
    } else {
        most_lines(ws)
    }
}

/// The `k`-th line of every cell of a row (empty past a cell's end), padded.
pub open spec fn cells_at(ws: Seq<Seq<Seq<char>>>, widths: Seq<usize>, k: int) -> Seq<Seq<char>> {
    Seq::new(
        ws.len(),
        |i: int|
            spec_pad(
                if k < ws[i].len() {
                    ws[i][k]
                } else {
                    Seq::empty()
                },
                widths[i] as nat,
            ),
    )
}

/// The `h` lines of a row's cells; with `is_last` the final one is closed by
/// `└` and `┘`.
pub open spec fn row_body(ws: Seq<Seq<Seq<char>>>, widths: Seq<usize>, is_last: bool, h: nat) -> Seq<
    Seq<char>,
> {
    Seq::new(
        h,
        |k: int|
            {
                let closing = is_last && k == h - 1;
                framed(
                    cells_at(ws, widths, k),
                    if closing {
                        '└'
                    } else {
                        '│'
                    },
                    if closing {
                        '┘'
                    } else {
                        '│'
                    },
                )
            },
    )
}

/// The lines of one row. The last line of the last row is closed by `└` and
/// `┘`; every row but the last is followed by a rule.
pub open spec fn row_block(row: Seq<Seq<char>>, widths: Seq<usize>, is_last: bool) -> Seq<
    Seq<char>,
> {
    let ws = wrapped_row(row, widths);
    row_body(ws, widths, is_last, row_height(ws)) + if is_last {
        Seq::empty()
    } else {
        seq![border(widths, '├', '┼', '┤')]
    }
}

/// The lines of the first `k` rows.
pub open spec fn rows_block(rows: Seq<Seq<Seq<char>>>, widths: Seq<usize>, k: int) -> Seq<
    Seq<char>,
>
    decreases k,
{
    if k <= 0 {
        Seq::empty()
    } else {
        rows_block(rows, widths, k - 1) + row_block(rows[k - 1], widths, k - 1 == rows.len() - 1)
    }
}

/// A table drawn with the given column widths.
pub open spec fn spec_table(headers: Seq<Seq<char>>, rows: Seq<Seq<Seq<char>>>, widths: Seq<usize>) -> Seq<
    Seq<char>,
> {
    if (headers.len() == 0 && rows.len() == 0) || widths.len() == 0 {
        Seq::empty()
    } else {
        header_block(headers, widths) + rows_block(rows, widths, rows.len() as int) + if rows.len()
            > 0 {
            seq![border(widths, '└', '┴', '┘')]
        } else {
            Seq::empty()
        }
    }
}

/// The rows of a table as text.
pub open spec fn rows_view(rows: Seq<Vec<String>>) -> Seq<Seq<Seq<char>>> {
    rows.map_values(|r: Vec<String>| string_views(r@))
}

/// Number of columns: that of the header or of the first row, the larger.
pub open spec fn column_count(headers: Seq<Seq<char>>, rows: Seq<Seq<Seq<char>>>) -> nat {
    let first = if rows.len() > 0 {
        rows[0].len()
    } else {
        0
    };
    if headers.len() > first {
        headers.len()
    } else {
        first
    }
}

/// Widest cell of column `i` among the first `k` rows, at least `floor`.
pub open spec fn widest_in_rows(rows: Seq<Seq<Seq<char>>>, i: int, k: int, floor: nat) -> nat
    decreases k,
{
    if k <= 0 {
        floor
    } else {
        let m = widest_in_rows(rows, i, k - 1, floor);
        if 0 <= i < rows[k - 1].len() && spec_text_width(rows[k - 1][i]) > m {
            spec_text_width(rows[k - 1][i])
        } else {
            m
        }
    }
}

/// Natural width of column `i`: the widest of the header and the cells, and
/// at least `MIN_COLUMN_WIDTH`.
pub open spec fn natural_width(headers: Seq<Seq<char>>, rows: Seq<Seq<Seq<char>>>, i: int) -> nat {
    let h = if 0 <= i < headers.len() && spec_text_width(headers[i]) > MIN_COLUMN_WIDTH {
        spec_text_width(headers[i])
    } else {
        MIN_COLUMN_WIDTH as nat
    };
    widest_in_rows(rows, i, rows.len() as int, h)
}

/// Sum of column widths.
pub open spec fn width_sum(widths: Seq<usize>) -> nat
    decreases widths.len(),
{
    if widths.len() == 0 {
        0
    } else {
        width_sum(widths.drop_last()) + widths.last() as nat
    }
}

/// Cells are short enough for their widths to be counted in `usize`.
pub open spec fn cells_fit(headers: Seq<Seq<char>>, rows: Seq<Seq<Seq<char>>>) -> bool {
    &&& forall|i: int| 0 <= i < headers.len() ==> #[trigger] headers[i].len() <= usize::MAX / 2
    &&& forall|r: int, i: int|
        0 <= r < rows.len() && 0 <= i < rows[r].len() ==> #[trigger] rows[r][i].len() <= usize::MAX
            / 2
}

// ---------------------------------------------------------------------------
// Implementation
// ---------------------------------------------------------------------------

fn repeat(c: char, n: usize) -> (r: Vec<char>)
    ensures
        r@ == repeat_char(c, n as nat),
{
    let mut r: Vec<char> = Vec::new();
    let mut k: usize = 0;
    while k < n
        invariant
            k <= n,
            r@ == repeat_char(c, k as nat),
        decreases n - k,
    {
        r.push(c);
        k = k + 1;
        assert(r@ =~= repeat_char(c, k as nat));
    }
    r
}

/// `l`, the cells joined by `│`, then `r`.
fn framed_line(cells: &Vec<Vec<char>>, l: char, r: char) -> (out: Vec<char>)
    ensures
        out@ == framed(views(cells@), l, r),
{
    let bar = vec!['│'];
    let inner = join_chars(cells, &bar);
    let mut out: Vec<char> = Vec::new();
    out.push(l);
    let mut k: usize = 0;
    while k < inner.len()
        invariant
            k <= inner@.len(),
            out@ == seq![l] + inner@.take(k as int),
        decreases inner@.len() - k,
    {
        out.push(inner[k]);
        k = k + 1;
        assert(out@ =~= seq![l] + inner@.take(k as int));
    }
    out.push(r);
    assert(bar@ =~= seq!['│']);
    assert(inner@.take(inner@.len() as int) =~= inner@);
    assert(out@ =~= seq![l] + inner@ + seq![r]);
    out
}

/// A horizontal rule over the columns.
fn border_line(widths: &Vec<usize>, l: char, m: char, r: char) -> (out: Vec<char>)
    ensures
        out@ == border(widths@, l, m, r),
{
    let mut runs: Vec<Vec<char>> = Vec::new();
    let mut i: usize = 0;
    while i < widths.len()
        invariant
            i <= widths@.len(),
            views(runs@) == widths@.take(i as int).map_values(
                |w: usize| repeat_char('─', w as nat),
            ),
        decreases widths@.len() - i,
    {
        let run = repeat('─', widths[i]);
        proof {
            crate::text::lemma_views_push(runs@, run);
        }
        runs.push(run);
        assert(widths@.take(i + 1).map_values(|w: usize| repeat_char('─', w as nat))
            =~= widths@.take(i as int).map_values(|w: usize| repeat_char('─', w as nat)).push(
            repeat_char('─', widths@[i as int] as nat),
        ));
        i = i + 1;
    }
    assert(widths@.take(widths@.len() as int) =~= widths@);
    let sep = vec![m];
    let inner = join_chars(&runs, &sep);
    let mut out: Vec<char> = Vec::new();
    out.push(l);
    let mut k: usize = 0;
    while k < inner.len()
        invariant
            k <= inner@.len(),
            out@ == seq![l] + inner@.take(k as int),
        decreases inner@.len() - k,
    {
        out.push(inner[k]);
        k = k + 1;
        assert(out@ =~= seq![l] + inner@.take(k as int));
    }
    out.push(r);
    assert(sep@ =~= seq![m]);
    assert(inner@.take(inner@.len() as int) =~= inner@);
    assert(out@ =~= seq![l] + inner@ + seq![r]);
    out
}

/// Cells taken by a string whose length allows counting them in `usize`.
fn string_width(s: &String) -> (w: usize)
    requires
        s@.len() <= usize::MAX / 2,
    ensures
        w == spec_text_width(s@),
{
    let chars = chars_of(s.as_str());
    chars_width(&chars)
}

/// Natural width of every column: its widest header or cell, at least
/// `MIN_COLUMN_WIDTH`. The number of columns is that of the header or of the
/// first row, whichever is larger; cells beyond it do not count.
pub fn column_widths(headers: &Vec<String>, rows: &Vec<Vec<String>>) -> (r: Vec<usize>)
    requires
        cells_fit(string_views(headers@), rows_view(rows@)),
    ensures
        r@.len() == column_count(string_views(headers@), rows_view(rows@)),
        forall|i: int|
            0 <= i < r@.len() ==> r@[i] == natural_width(
                string_views(headers@),
                rows_view(rows@),
                i,
            ),
{
    let ghost hs = string_views(headers@);
    let ghost rs = rows_view(rows@);
    let first = if rows.len() > 0 {
        rows[0].len()
    } else {
        0
    };
    let max_cols = if headers.len() > first {
        headers.len()
    } else {
        first
    };
    let mut widths: Vec<usize> = Vec::new();
    let mut i: usize = 0;
    while i < max_cols
        invariant
            i <= max_cols,
            widths@.len() == i,
            forall|k: int| 0 <= k < i ==> widths@[k] == MIN_COLUMN_WIDTH,
        decreases max_cols - i,
    {
        widths.push(MIN_COLUMN_WIDTH);
        i = i + 1;
    }
    let mut i: usize = 0;
    while i < headers.len()
        invariant
            i <= headers@.len() <= max_cols,
            widths@.len() == max_cols,
            hs == string_views(headers@),
            cells_fit(hs, rs),
            forall|k: int|
                0 <= k < max_cols ==> widths@[k] == (if k < i && spec_text_width(hs[k])
                    > MIN_COLUMN_WIDTH {
                    spec_text_width(hs[k])
                } else {
                    MIN_COLUMN_WIDTH as nat
                }),
        decreases headers@.len() - i,
    {
        assert(hs[i as int] == headers@[i as int]@);
        let w = string_width(&headers[i]);
        if w > widths[i] {
            widths.set(i, w);
        }
        i = i + 1;
    }
    let mut k: usize = 0;
    while k < rows.len()
        invariant
            k <= rows@.len(),
            widths@.len() == max_cols,
            rs == rows_view(rows@),
            cells_fit(hs, rs),
            forall|c: int|
                0 <= c < max_cols ==> widths@[c] == widest_in_rows(
                    rs,
                    c,
                    k as int,
                    if 0 <= c < hs.len() && spec_text_width(hs[c]) > MIN_COLUMN_WIDTH {
                        spec_text_width(hs[c])
                    } else {
                        MIN_COLUMN_WIDTH as nat
                    },
                ),
        decreases rows@.len() - k,
    {
        let row = &rows[k];
        assert(rs[k as int] == string_views(row@));
        let mut j: usize = 0;
        while j < row.len()
            invariant
                j <= row@.len(),
                widths@.len() == max_cols,
                rs == rows_view(rows@),
                rs[k as int] == string_views(row@),
                cells_fit(hs, rs),
                k < rows@.len(),
                forall|c: int|
                    0 <= c < max_cols ==> widths@[c] == widest_in_rows(
                        rs,
                        c,
                        if c < j {
                            k + 1
                        } else {
                            k as int
                        },
                        if 0 <= c < hs.len() && spec_text_width(hs[c]) > MIN_COLUMN_WIDTH {
                            spec_text_width(hs[c])
                        } else {
                            MIN_COLUMN_WIDTH as nat
                        },
                    ),
            decreases row@.len() - j,
        {
            if j < max_cols {
                assert(rs[k as int][j as int] == row@[j as int]@);
                let w = string_width(&row[j]);
                if w > widths[j] {
                    widths.set(j, w);
                }
            }
            j = j + 1;
        }
        k = k + 1;
    }
    widths
}

/// Whether the columns with their separators are wider than the terminal.
pub fn table_overflows(widths: &Vec<usize>) -> (r: bool)
    ensures
        r == (width_sum(widths@) + widths@.len() + 1 > TABLE_TERMINAL_WIDTH),
{
    if widths.len() >= TABLE_TERMINAL_WIDTH {
        proof {
            lemma_width_sum_nonneg(widths@);
        }
        return true;
    }
    let budget = TABLE_TERMINAL_WIDTH - widths.len() - 1;
    let mut total: usize = 0;
    let mut i: usize = 0;
    while i < widths.len()
        invariant
            i <= widths@.len(),
            budget == TABLE_TERMINAL_WIDTH - widths@.len() - 1,
            total == width_sum(widths@.take(i as int)),
            total <= budget,
        decreases widths@.len() - i,
    {
        assert(widths@.take(i + 1).drop_last() =~= widths@.take(i as int));
        if widths[i] > budget - total {
            proof {
                lemma_width_sum_prefix(widths@, i + 1);
            }
            return true;
        }
        total = total + widths[i];
        i = i + 1;
    }
    assert(widths@.take(widths@.len() as int) =~= widths@);
    false
}

proof fn lemma_width_sum_nonneg(w: Seq<usize>)
    ensures
        width_sum(w) >= 0,
{
}

proof fn lemma_width_sum_prefix(w: Seq<usize>, k: int)
    requires
        0 <= k <= w.len(),
    ensures
        width_sum(w.take(k)) <= width_sum(w),
    decreases w.len() - k,
{
    if k < w.len() {
        lemma_width_sum_prefix(w, k + 1);
        assert(w.take(k + 1).drop_last() =~= w.take(k));
    } else {
        assert(w.take(k) =~= w);
    }
}

/// Raises every column narrower than two cells to two.
pub fn widen_narrow_columns(widths: &mut Vec<usize>)
    ensures
        final(widths)@.len() == old(widths)@.len(),
        forall|i: int|
            0 <= i < old(widths)@.len() ==> final(widths)@[i] == (if old(widths)@[i] < 2 {
                2
            } else {
                old(widths)@[i]
            }),
{
    let mut i: usize = 0;
    while i < widths.len()
        invariant
            i <= widths@.len() == old(widths)@.len(),
            forall|k: int|
                0 <= k < widths@.len() ==> widths@[k] == (if k < i && old(widths)@[k] < 2 {
                    2
                } else {
                    old(widths)@[k]
                }),
        decreases widths@.len() - i,
    {
        if widths[i] < 2 {
            widths.set(i, 2);
        }
        i = i + 1;
    }
}

/// The lines held by each wrapped cell.
pub open spec fn nested_views(ws: Seq<Vec<Vec<char>>>) -> Seq<Seq<Seq<char>>> {
    ws.map_values(|c: Vec<Vec<char>>| views(c@))
}

proof fn lemma_views_append(a: Seq<Vec<char>>, b: Seq<Vec<char>>)
    ensures
        views(a + b) == views(a) + views(b),
{
    assert(views(a + b) =~= views(a) + views(b));
}

/// The cells of `row` that fall in a column, each wrapped to its width.
fn wrap_row(row: &Vec<String>, widths: &Vec<usize>) -> (ws: Vec<Vec<Vec<char>>>)
    ensures
        nested_views(ws@) == wrapped_row(string_views(row@), widths@),
{
    let n = if row.len() < widths.len() {
        row.len()
    } else {
        widths.len()
    };
    let ghost target = wrapped_row(string_views(row@), widths@);
    let mut ws: Vec<Vec<Vec<char>>> = Vec::new();
    let mut i: usize = 0;
    while i < n
        invariant
            i <= n,
            n <= row@.len(),
            n <= widths@.len(),
            target.len() == n,
            target == wrapped_row(string_views(row@), widths@),
            nested_views(ws@) == target.take(i as int),
        decreases n - i,
    {
        let chars = chars_of(row[i].as_str());
        let cell = wrap_chars(&chars, widths[i]);
        let ghost ws0 = ws@;
        ws.push(cell);
        assert(nested_views(ws@) =~= nested_views(ws0).push(views(cell@)));
        assert(target.take(i + 1) =~= target.take(i as int).push(target[i as int]));
        i = i + 1;
    }
    assert(target.take(n as int) =~= target);
    ws
}

/// The lines of one row of the table.
fn row_lines(row: &Vec<String>, widths: &Vec<usize>, is_last: bool) -> (out: Vec<Vec<char>>)
    ensures
        views(out@) == row_block(string_views(row@), widths@, is_last),
{
    let ws = wrap_row(row, widths);
    let ghost nv = nested_views(ws@);
    let mut h: usize = 0;
    let mut i: usize = 0;
    while i < ws.len()
        invariant
            i <= ws@.len(),
            nv == nested_views(ws@),
            h == most_lines(nv.take(i as int)),
        decreases ws@.len() - i,
    {
        assert(nv.take(i + 1).drop_last() =~= nv.take(i as int));
        assert(nv[i as int].len() == ws@[i as int]@.len());
        if ws[i].len() > h {
            h = ws[i].len();
        }
        i = i + 1;
    }
    assert(nv.take(ws@.len() as int) =~= nv);
    if ws.len() == 0 {
        h = 1;
    }
    let ghost block = row_block(string_views(row@), widths@, is_last);
    let ghost body = row_body(nv, widths@, is_last, h as nat);
    let mut out: Vec<Vec<char>> = Vec::new();
    let mut k: usize = 0;
    while k < h
        invariant
            k <= h,
            nv == nested_views(ws@),
            nv.len() <= widths@.len(),
            body == row_body(nv, widths@, is_last, h as nat),
            views(out@) == body.take(k as int),
        decreases h - k,
    {
        let mut cells: Vec<Vec<char>> = Vec::new();
        let mut c: usize = 0;
        while c < ws.len()
            invariant
                c <= ws@.len(),
                nv == nested_views(ws@),
                nv.len() <= widths@.len(),
                views(cells@) == cells_at(nv, widths@, k as int).take(c as int),
            decreases ws@.len() - c,
        {
            let text = if k < ws[c].len() {
                crate::text::copy_chars(&ws[c][k])
            } else {
                Vec::new()
            };
            assert(nv[c as int] == views(ws@[c as int]@));
            let cell = pad_chars(&text, widths[c]);
            proof {
                crate::text::lemma_views_push(cells@, cell);
            }
            cells.push(cell);
            assert(cells_at(nv, widths@, k as int).take(c + 1) =~= cells_at(
                nv,
                widths@,
                k as int,
            ).take(c as int).push(cells_at(nv, widths@, k as int)[c as int]));
            c = c + 1;
        }
        assert(cells_at(nv, widths@, k as int).take(ws@.len() as int) =~= cells_at(
            nv,
            widths@,
            k as int,
        ));
        let closing = is_last && k == h - 1;
        let line = framed_line(
            &cells,
            if closing {
                '└'
            } else {
                '│'
            },
            if closing {
                '┘'
            } else {
                '│'
            },
        );
        proof {
            crate::text::lemma_views_push(out@, line);
        }
        out.push(line);
        assert(body.take(k + 1) =~= body.take(k as int).push(body[k as int]));
        k = k + 1;
    }
    assert(body.take(h as int) =~= body);
    if !is_last {
        let rule = border_line(widths, '├', '┼', '┤');
        proof {
            crate::text::lemma_views_push(out@, rule);
        }
        out.push(rule);
    }
    assert(views(out@) =~= block);
    out
}

/// Draws a table with the given column widths: a header block when there
/// are headers, then each row, then a closing rule when there are rows.
pub fn draw_table(headers: &Vec<String>, rows: &Vec<Vec<String>>, widths: &Vec<usize>) -> (r: Vec<
    String,
>)
    requires
        headers@.len() <= widths@.len(),
    ensures
        string_views(r@) == spec_table(string_views(headers@), rows_view(rows@), widths@),
{
    let ghost hs = string_views(headers@);
    let ghost rs = rows_view(rows@);
    let mut out: Vec<Vec<char>> = Vec::new();
    if (headers.len() == 0 && rows.len() == 0) || widths.len() == 0 {
        assert(views(out@) =~= Seq::<Seq<char>>::empty());
        let r = strings_from(&out);
        assert(string_views(r@) == views(out@));
        return r;
    }
    if headers.len() > 0 {
        let top = border_line(widths, '┌', '┬', '┐');
        let mut cells: Vec<Vec<char>> = Vec::new();
        let mut i: usize = 0;
        while i < headers.len()
            invariant
                i <= headers@.len() <= widths@.len(),
                hs == string_views(headers@),
                views(cells@) == padded(hs, widths@).take(i as int),
            decreases headers@.len() - i,
        {
            let chars = chars_of(headers[i].as_str());
            let cell = pad_chars(&chars, widths[i]);
            proof {
                crate::text::lemma_views_push(cells@, cell);
            }
            cells.push(cell);
            assert(padded(hs, widths@).take(i + 1) =~= padded(hs, widths@).take(i as int).push(
                padded(hs, widths@)[i as int],
            ));
            i = i + 1;
        }
        assert(padded(hs, widths@).take(headers@.len() as int) =~= padded(hs, widths@));
        let mid = framed_line(&cells, '│', '│');
        let under = border_line(widths, '├', '┼', '┤');
        out.push(top);
        out.push(mid);
        out.push(under);
        assert(views(out@) =~= header_block(hs, widths@));
    } else {
        assert(views(out@) =~= header_block(hs, widths@));
    }
    let mut k: usize = 0;
    while k < rows.len()
        invariant
            k <= rows@.len(),
            rs == rows_view(rows@),
            views(out@) == header_block(hs, widths@) + rows_block(rs, widths@, k as int),
        decreases rows@.len() - k,
    {
        let mut block = row_lines(&rows[k], widths, k == rows.len() - 1);
        assert(rs[k as int] == string_views(rows@[k as int]@));
        let ghost out0 = out@;
        let ghost b0 = block@;
        out.append(&mut block);
        proof {
            lemma_views_append(out0, b0);
        }
        assert(views(out@) =~= header_block(hs, widths@) + rows_block(rs, widths@, k + 1));
        k = k + 1;
    }
    if rows.len() > 0 {
        let bottom = border_line(widths, '└', '┴', '┘');
        proof {
            crate::text::lemma_views_push(out@, bottom);
        }
        out.push(bottom);
    }
    assert(views(out@) =~= spec_table(hs, rs, widths@));
    let r = strings_from(&out);
    assert(string_views(r@) == views(out@));
    r
}

} // verus!
