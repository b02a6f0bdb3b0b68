use xl2txt::cell::Cell;
use xl2txt::grid::Grid;
use xl2txt::table::render;
use xl2txt::text::u64_to_string;

fn text(s: &str) -> Cell {
    Cell::Text(s.to_string())
}

#[test]
fn empty_grid_no_rows_produces_nothing() {
    let g = Grid { start_row: 0, start_col: 0, cols: 3, rows: vec![] };
    assert!(render(&g).is_none());
}

#[test]
fn empty_grid_no_columns_produces_nothing() {
    let g = Grid { start_row: 0, start_col: 0, cols: 0, rows: vec![] };
    assert!(render(&g).is_none());
}

#[test]
fn two_by_two_grid_renders_four_lines_exactly() {
    let g = Grid {
        start_row: 0,
        start_col: 0,
        cols: 2,
        rows: vec![vec![text("A"), text("B")], vec![text("x"), text("y")]],
    };
    let out = render(&g).unwrap();
    assert_eq!(out, "|   | A | B |\n|---|---|---|\n| 1 | A | B |\n| 2 | x | y |\n");
    assert_eq!(out.lines().count(), 4);
}

#[test]
fn row_numbers_and_labels_respect_start_offsets() {
    let g = Grid {
        start_row: 2,
        start_col: 1,
        cols: 2,
        rows: vec![vec![text("v"), text("w")]],
    };
    let out = render(&g).unwrap();
    assert_eq!(out, "|   | B | C |\n|---|---|---|\n| 3 | v | w |\n");
}

#[test]
fn ragged_rows_are_not_padded() {
    let g = Grid {
        start_row: 0,
        start_col: 0,
        cols: 3,
        rows: vec![
            vec![text("a"), text("b"), text("c")],
            vec![text("d")],
            vec![],
            vec![text("e"), text("f")],
        ],
    };
    let out = render(&g).unwrap();
    let lines: Vec<&str> = out.lines().collect();
    assert_eq!(lines.len(), 6);
    // re-parse each data line: splitting on the pipe leaves one leading and
    // one trailing empty segment around the row-number cell and the data cells
    let expected_cells = [3usize, 1, 0, 2];
    for (i, want) in expected_cells.iter().enumerate() {
        let segments = lines[2 + i].split('|').count();
        assert_eq!(segments - 3, *want, "row {} cell count", i);
    }
}

#[test]
fn cell_display_covers_every_variant() {
    assert_eq!(Cell::Empty.display(), "");
    assert_eq!(Cell::Text("hi".to_string()).display(), "hi");
    assert_eq!(Cell::Int(42).display(), "42");
    assert_eq!(Cell::Int(-7).display(), "-7");
    assert_eq!(Cell::Int(i64::MIN).display(), "-9223372036854775808");
    assert_eq!(Cell::Int(i64::MAX).display(), "9223372036854775807");
    assert_eq!(Cell::Float("2.5".to_string()).display(), "2.5");
    assert_eq!(Cell::Bool(true).display(), "true");
    assert_eq!(Cell::Bool(false).display(), "false");
    assert_eq!(Cell::Error("#DIV/0!".to_string()).display(), "#DIV/0!");
}

#[test]
fn heterogeneous_cells_render_by_display_text() {
    let g = Grid {
        start_row: 0,
        start_col: 0,
        cols: 4,
        rows: vec![vec![Cell::Int(1), Cell::Bool(false), Cell::Empty, Cell::Float("0.5".to_string())]],
    };
    let out = render(&g).unwrap();
    assert_eq!(out, "|   | A | B | C | D |\n|---|---|---|---|---|\n| 1 | 1 | false |  | 0.5 |\n");
}

#[test]
fn decimal_formatting_is_exact() {
    assert_eq!(u64_to_string(0), "0");
    assert_eq!(u64_to_string(7), "7");
    assert_eq!(u64_to_string(10), "10");
    assert_eq!(u64_to_string(12345), "12345");
    assert_eq!(u64_to_string(u64::MAX), "18446744073709551615");
}
