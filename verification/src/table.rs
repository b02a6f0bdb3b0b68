//! Rendering a cell grid as a pipe-delimited text table.
//!
//! A non-empty grid renders as a header row (a blank row-number cell, then
//! one labelled cell per column), a separator row of dash markers, and one
//! data row per grid row, each prefixed with its 1-based worksheet row
//! number. An empty grid renders as nothing at all: the caller creates no
//! file for it.

use crate::cell::{spec_cell_text, Cell};
use crate::column::{get_column, spec_label};
use crate::grid::Grid;
use crate::text::{spec_decimal, u64_to_string};
use vstd::prelude::*;
use vstd::string::StringExecFns;

verus! {

/// The first `k` header cells for columns starting at `scol`: one
/// `| <label> ` piece per column.
pub open spec fn header_cells(scol: nat, k: nat) -> Seq<char>
    decreases k,
{
    if k == 0 {
        Seq::empty()
    } else {
        header_cells(scol, (k - 1) as nat) + "| "@ + spec_label((scol + k - 1) as nat) + " "@
    }
}

/// The header line for `cols` columns starting at `scol`: a blank
/// row-number cell, one labelled cell per column, and a closing pipe.
pub open spec fn spec_header_line(scol: nat, cols: nat) -> Seq<char> {
    "|   "@ + header_cells(scol, cols) + "|\n"@
}

/// `k` separator markers in a row.
pub open spec fn sep_cells(k: nat) -> Seq<char>
    decreases k,
{
    if k == 0 {
        Seq::empty()
    } else {
        sep_cells((k - 1) as nat) + "|---"@
    }
}

/// The separator line beneath the header: one dash marker per header cell
/// (the row-number cell included), and a closing pipe.
pub open spec fn spec_separator_line(cols: nat) -> Seq<char> {
    sep_cells((cols + 1) as nat) + "|\n"@
}

/// The first `k` cell pieces of a data row: one `| <display text> ` piece
/// per cell present in the row.
pub open spec fn row_cells(cells: Seq<Cell>, k: nat) -> Seq<char>
    decreases k,
{
    if k == 0 {
        Seq::empty()
    } else {
        row_cells(cells, (k - 1) as nat) + "| "@ + spec_cell_text(cells[k - 1]) + " "@
    }
}

/// One data line: the 1-based worksheet row number, then exactly the cells
/// present in the row (short rows are not padded), and a closing pipe.
pub open spec fn spec_row_line(rownum: nat, cells: Seq<Cell>) -> Seq<char> {
    "| "@ + spec_decimal(rownum) + " "@ + row_cells(cells, cells.len()) + "|\n"@
}

/// The first `k` data lines of a grid whose first row is worksheet row
/// `srow`: row `i` carries the 1-based number `srow + i + 1`.
pub open spec fn table_rows(srow: nat, rows: Seq<Vec<Cell>>, k: nat) -> Seq<char>
    decreases k,
{
    if k == 0 {
        Seq::empty()
    } else {
        table_rows(srow, rows, (k - 1) as nat) + spec_row_line(srow + k, rows[k - 1]@)
    }
}

/// The full rendered table of a grid: header line, separator line, then all
/// data lines.
pub open spec fn spec_table(g: Grid) -> Seq<char> {
    spec_header_line(g.start_col as nat, g.cols as nat) + spec_separator_line(g.cols as nat)
        + table_rows(g.start_row as nat, g.rows@, g.rows@.len())
}

/// Renders a grid as a pipe table. An empty grid (no rows or no columns)
/// yields `None`: no artifact is to be created for it. A non-empty grid
/// yields exactly the table text of [`spec_table`].
pub fn render(g: &Grid) -> (r: Option<String>)
    requires
        g.wf(),
    ensures
        r is Some <==> !g.spec_is_empty(),
        r matches Some(t) ==> t@ == spec_table(*g),
{
    if g.rows.len() == 0 || g.cols == 0 {
        return None;
    }
    let mut s = String::new();
    s.append("|   ");

    let mut c: u32 = 0;
    while c < g.cols
        invariant
            g.wf(),
            0 < g.cols,
            c <= g.cols,
            s@ == "|   "@ + header_cells(g.start_col as nat, c as nat),
        decreases g.cols - c,
    {
        s.append("| ");
        let label = get_column(g.start_col + c);
        s.append(label.as_str());
        s.append(" ");
        proof {
            assert(s@ =~= "|   "@ + header_cells(g.start_col as nat, (c + 1) as nat));
        }
        c = c + 1;
    }
    s.append("|\n");
    proof {
        assert(s@ =~= spec_header_line(g.start_col as nat, g.cols as nat));
    }

    let ghost header: Seq<char> = s@;
    let markers: u64 = g.cols as u64 + 1;
    let mut m: u64 = 0;
    while m < markers
        invariant
            m <= markers,
            s@ == header + sep_cells(m as nat),
        decreases markers - m,
    {
        s.append("|---");
        proof {
            assert(s@ =~= header + sep_cells((m + 1) as nat));
        }
        m = m + 1;
    }
    s.append("|\n");
    proof {
        assert(s@ =~= header + spec_separator_line(g.cols as nat));
    }

    let ghost head: Seq<char> = s@;
    let mut i: usize = 0;
    while i < g.rows.len()
        invariant
            g.wf(),
            i <= g.rows@.len(),
            s@ == head + table_rows(g.start_row as nat, g.rows@, i as nat),
        decreases g.rows@.len() - i,
    {
        let ghost line_start: Seq<char> = s@;
        let rownum: u64 = g.start_row as u64 + i as u64 + 1;
        s.append("| ");
        let num = u64_to_string(rownum);
        s.append(num.as_str());
        s.append(" ");
        proof {
            assert(s@ =~= line_start + "| "@ + spec_decimal(rownum as nat) + " "@);
        }

        let ghost cells_start: Seq<char> = s@;
        let row = &g.rows[i];
        let mut j: usize = 0;
        while j < row.len()
            invariant
                j <= row@.len(),
                s@ == cells_start + row_cells(row@, j as nat),
            decreases row@.len() - j,
        {
            s.append("| ");
            let cell_text = row[j].display();
            s.append(cell_text.as_str());
            s.append(" ");
            proof {
                assert(s@ =~= cells_start + row_cells(row@, (j + 1) as nat));
            }
            j = j + 1;
        }
        s.append("|\n");
        proof {
            assert(s@ =~= line_start + spec_row_line(rownum as nat, row@));
            assert(s@ =~= head + table_rows(g.start_row as nat, g.rows@, (i + 1) as nat));
        }
        i = i + 1;
    }
    Some(s)
}

/// The number of occurrences of `c` in `s`.
pub open spec fn count_char(s: Seq<char>, c: char) -> nat
    decreases s.len(),
{
    if s.len() == 0 {
        0
    } else {
        count_char(s.drop_last(), c) + (if s.last() == c {
            1nat
        } else {
            0nat
        })
    }
}

proof fn lemma_count_char_add(a: Seq<char>, b: Seq<char>, c: char)
    ensures
        count_char(a + b, c) == count_char(a, c) + count_char(b, c),
    decreases b.len(),
{
    if b.len() == 0 {
        assert(a + b =~= a);
    } else {
        lemma_count_char_add(a, b.drop_last(), c);
        assert((a + b).drop_last() =~= a + b.drop_last());
        assert((a + b).last() == b.last());
    }
}

proof fn lemma_count_single(x: char, c: char)
    ensures
        count_char(seq![x], c) == (if x == c {
            1nat
        } else {
            0nat
        }),
{
    assert(count_char(Seq::<char>::empty(), c) == 0);
    assert(seq![x].drop_last() =~= Seq::<char>::empty());
    assert(seq![x].last() == x);
}

proof fn lemma_decimal_counts(n: nat, c: char)
    requires
        !('0' <= c <= '9'),
    ensures
        count_char(crate::text::spec_decimal(n), c) == 0,
    decreases n,
{
    let d: nat = n % 10;
    assert(crate::text::digit_char(d) != c);
    lemma_count_single(crate::text::digit_char(d), c);
    if n < 10 {
    } else {
        lemma_decimal_counts(n / 10, c);
        assert(crate::text::spec_decimal(n).drop_last() =~= crate::text::spec_decimal(n / 10));
    }
}

proof fn lemma_label_counts(n: nat, c: char)
    requires
        !('A' <= c <= 'Z'),
    ensures
        count_char(spec_label(n), c) == 0,
    decreases n,
{
    let d: nat = n % 26;
    assert(crate::column::letter_char(d) != c);
    lemma_count_single(crate::column::letter_char(d), c);
    if n < 26 {
    } else {
        lemma_label_counts((n / 26 - 1) as nat, c);
        assert(spec_label(n).drop_last() =~= spec_label((n / 26 - 1) as nat));
    }
}

proof fn lemma_row_cells_counts(cells: Seq<Cell>, k: nat, c: char)
    requires
        k <= cells.len(),
        c == '|' || c == '\n',
        forall|i: int| 0 <= i < cells.len() ==> count_char(spec_cell_text(#[trigger] cells[i]), c)
            == 0,
    ensures
        count_char(row_cells(cells, k), c) == (if c == '|' {
            k
        } else {
            0nat
        }),
    decreases k,
{
    reveal_strlit("| ");
    reveal_strlit(" ");
    if k > 0 {
        lemma_row_cells_counts(cells, (k - 1) as nat, c);
        let piece = "| "@ + spec_cell_text(cells[k - 1]) + " "@;
        assert("| "@ =~= seq!['|'] + seq![' ']);
        lemma_count_single('|', c);
        lemma_count_single(' ', c);
        lemma_count_char_add(seq!['|'], seq![' '], c);
        assert(" "@ =~= seq![' ']);
        lemma_count_char_add("| "@, spec_cell_text(cells[k - 1]), c);
        lemma_count_char_add("| "@ + spec_cell_text(cells[k - 1]), " "@, c);
        lemma_count_char_add(row_cells(cells, (k - 1) as nat), piece, c);
        assert(row_cells(cells, k) =~= row_cells(cells, (k - 1) as nat) + piece);
    }
}

/// Ragged rows are rendered without padding, and re-parsing a data line
/// recovers its row's own cell count: a line whose cell texts contain no pipe holds
/// exactly one pipe for the leading row-number cell, one per cell present in
/// the row — however many the header has — and one closing pipe; and it is a
/// single line.
pub proof fn lemma_row_line_counts(rownum: nat, cells: Seq<Cell>)
    requires
        forall|i: int| 0 <= i < cells.len() ==> count_char(spec_cell_text(#[trigger] cells[i]), '|')
            == 0,
        forall|i: int|
            0 <= i < cells.len() ==> count_char(spec_cell_text(#[trigger] cells[i]), '\n') == 0,
    ensures
        count_char(spec_row_line(rownum, cells), '|') == cells.len() + 2,
        count_char(spec_row_line(rownum, cells), '\n') == 1,
{
    reveal_strlit("| ");
    reveal_strlit(" ");
    reveal_strlit("|\n");
    assert("| "@ =~= seq!['|'] + seq![' ']);
    assert(" "@ =~= seq![' ']);
    assert("|\n"@ =~= seq!['|'] + seq!['\n']);
    let dec = crate::text::spec_decimal(rownum);
    let body = row_cells(cells, cells.len());
    lemma_count_char_add("| "@, dec, '|');
    lemma_count_char_add("| "@ + dec, " "@, '|');
    lemma_count_char_add("| "@ + dec + " "@, body, '|');
    lemma_count_char_add("| "@ + dec + " "@ + body, "|\n"@, '|');
    lemma_count_char_add("| "@, dec, '\n');
    lemma_count_char_add("| "@ + dec, " "@, '\n');
    lemma_count_char_add("| "@ + dec + " "@, body, '\n');
    lemma_count_char_add("| "@ + dec + " "@ + body, "|\n"@, '\n');
    lemma_count_single('|', '|');
    lemma_count_single(' ', '|');
    lemma_count_single('\n', '|');
    lemma_count_single('|', '\n');
    lemma_count_single(' ', '\n');
    lemma_count_single('\n', '\n');
    lemma_count_char_add(seq!['|'], seq![' '], '|');
    lemma_count_char_add(seq!['|'], seq![' '], '\n');
    lemma_count_char_add(seq!['|'], seq!['\n'], '|');
    lemma_count_char_add(seq!['|'], seq!['\n'], '\n');
    lemma_decimal_counts(rownum, '|');
    lemma_decimal_counts(rownum, '\n');
    lemma_row_cells_counts(cells, cells.len(), '|');
    lemma_row_cells_counts(cells, cells.len(), '\n');
}

proof fn lemma_header_cells_nl(scol: nat, k: nat)
    ensures
        count_char(header_cells(scol, k), '\n') == 0,
    decreases k,
{
    reveal_strlit("| ");
    reveal_strlit(" ");
    if k > 0 {
        lemma_header_cells_nl(scol, (k - 1) as nat);
        let label = spec_label((scol + k - 1) as nat);
        lemma_label_counts((scol + k - 1) as nat, '\n');
        assert("| "@ =~= seq!['|'] + seq![' ']);
        assert(" "@ =~= seq![' ']);
        lemma_count_single('|', '\n');
        lemma_count_single(' ', '\n');
        lemma_count_char_add(seq!['|'], seq![' '], '\n');
        lemma_count_char_add("| "@, label, '\n');
        lemma_count_char_add("| "@ + label, " "@, '\n');
        lemma_count_char_add(header_cells(scol, (k - 1) as nat), "| "@ + label + " "@, '\n');
        assert(header_cells(scol, k) =~= header_cells(scol, (k - 1) as nat) + ("| "@ + label
            + " "@));
    }
}

proof fn lemma_sep_cells_nl(k: nat)
    ensures
        count_char(sep_cells(k), '\n') == 0,
    decreases k,
{
    reveal_strlit("|---");
    if k > 0 {
        lemma_sep_cells_nl((k - 1) as nat);
        assert("|---"@ =~= seq!['|'] + seq!['-'] + seq!['-'] + seq!['-']);
        lemma_count_single('|', '\n');
        lemma_count_single('-', '\n');
        lemma_count_char_add(seq!['|'], seq!['-'], '\n');
        lemma_count_char_add(seq!['|'] + seq!['-'], seq!['-'], '\n');
        lemma_count_char_add(seq!['|'] + seq!['-'] + seq!['-'], seq!['-'], '\n');
        lemma_count_char_add(sep_cells((k - 1) as nat), "|---"@, '\n');
    }
}

proof fn lemma_table_rows_nl(srow: nat, rows: Seq<Vec<Cell>>, k: nat)
    requires
        k <= rows.len(),
        forall|i: int, j: int|
            0 <= i < rows.len() && 0 <= j < rows[i]@.len() ==> count_char(
                spec_cell_text(#[trigger] rows[i]@[j]),
                '|',
            ) == 0 && count_char(spec_cell_text(rows[i]@[j]), '\n') == 0,
    ensures
        count_char(table_rows(srow, rows, k), '\n') == k,
    decreases k,
{
    if k > 0 {
        lemma_table_rows_nl(srow, rows, (k - 1) as nat);
        lemma_row_line_counts(srow + k, rows[k - 1]@);
        lemma_count_char_add(
            table_rows(srow, rows, (k - 1) as nat),
            spec_row_line(srow + k, rows[k - 1]@),
            '\n',
        );
    }
}

/// A rendered table has exactly two lines more than the grid has rows — the
/// header and the separator — provided no cell's display text contains a
/// pipe or a line break.
pub proof fn lemma_table_line_count(g: Grid)
    requires
        forall|i: int, j: int|
            0 <= i < g.rows@.len() && 0 <= j < g.rows@[i]@.len() ==> count_char(
                spec_cell_text(#[trigger] g.rows@[i]@[j]),
                '|',
            ) == 0 && count_char(spec_cell_text(g.rows@[i]@[j]), '\n') == 0,
    ensures
        count_char(spec_table(g), '\n') == g.rows@.len() + 2,
{
    reveal_strlit("|   ");
    reveal_strlit("|\n");
    assert("|   "@ =~= seq!['|'] + seq![' '] + seq![' '] + seq![' ']);
    assert("|\n"@ =~= seq!['|'] + seq!['\n']);
    lemma_count_single('|', '\n');
    lemma_count_single(' ', '\n');
    lemma_count_single('\n', '\n');
    lemma_count_char_add(seq!['|'], seq![' '], '\n');
    lemma_count_char_add(seq!['|'] + seq![' '], seq![' '], '\n');
    lemma_count_char_add(seq!['|'] + seq![' '] + seq![' '], seq![' '], '\n');
    lemma_count_char_add(seq!['|'], seq!['\n'], '\n');

    let scol = g.start_col as nat;
    let cols = g.cols as nat;
    lemma_header_cells_nl(scol, cols);
    lemma_count_char_add("|   "@, header_cells(scol, cols), '\n');
    lemma_count_char_add("|   "@ + header_cells(scol, cols), "|\n"@, '\n');
    assert(count_char(spec_header_line(scol, cols), '\n') == 1);

    lemma_sep_cells_nl((cols + 1) as nat);
    lemma_count_char_add(sep_cells((cols + 1) as nat), "|\n"@, '\n');
    assert(count_char(spec_separator_line(cols), '\n') == 1);

    lemma_table_rows_nl(g.start_row as nat, g.rows@, g.rows@.len());
    lemma_count_char_add(spec_header_line(scol, cols), spec_separator_line(cols), '\n');
    lemma_count_char_add(
        spec_header_line(scol, cols) + spec_separator_line(cols),
        table_rows(g.start_row as nat, g.rows@, g.rows@.len()),
        '\n',
    );
}

} // verus!
