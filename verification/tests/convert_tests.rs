use xl2txt::cell::Cell;
use xl2txt::convert::{convert, names_table, Sheet, Workbook};
use xl2txt::grid::Grid;
use xl2txt::vba::{module_files, references_table, Reference, VbaProject};

fn text(s: &str) -> Cell {
    Cell::Text(s.to_string())
}

fn one_cell_grid(s: &str) -> Grid {
    Grid { start_row: 0, start_col: 0, cols: 1, rows: vec![vec![text(s)]] }
}

fn empty_grid() -> Grid {
    Grid { start_row: 0, start_col: 0, cols: 0, rows: vec![] }
}

#[test]
fn names_table_is_exact() {
    let names = vec![
        ("Total".to_string(), "=SUM(A1:A9)".to_string()),
        ("Rate".to_string(), "=B2".to_string()),
    ];
    assert_eq!(
        names_table(&names),
        "| Name | Formula |\n|------|---------|\n| Total | =SUM(A1:A9) |\n| Rate | =B2 |\n"
    );
}

#[test]
fn references_table_is_exact() {
    let refs = vec![Reference {
        name: "stdole".to_string(),
        description: "OLE Automation".to_string(),
        path: "C:\\lib\\stdole2.tlb".to_string(),
    }];
    assert_eq!(
        references_table(&refs),
        "| Name | Description | Path |\n|------|-------------|------|\n| stdole | OLE Automation | C:\\lib\\stdole2.tlb |\n"
    );
}

#[test]
fn module_files_take_module_names() {
    let p = VbaProject {
        modules: vec![
            ("Module1".to_string(), "Sub A()\nEnd Sub\n".to_string()),
            ("Sheet1".to_string(), "' code\n".to_string()),
        ],
        references: vec![],
    };
    let files = module_files(&p);
    assert_eq!(files.len(), 2);
    assert_eq!(files[0].0, "Module1.vb");
    assert_eq!(files[0].1, "Sub A()\nEnd Sub\n");
    assert_eq!(files[1].0, "Sheet1.vb");
    assert_eq!(files[1].1, "' code\n");
}

#[test]
fn workbook_without_macro_project_yields_no_macro_artifacts() {
    let wb = Workbook {
        defined_names: vec![],
        sheets: vec![Sheet {
            name: "S1".to_string(),
            values: one_cell_grid("v"),
            formulas: one_cell_grid("=f"),
        }],
        vba: None,
    };
    let arts = convert(&wb);
    for a in &arts {
        assert_ne!(a.path, "refs.md");
        assert!(!a.path.starts_with("vba/"), "unexpected macro artifact {}", a.path);
    }
    let paths: Vec<&str> = arts.iter().map(|a| a.path.as_str()).collect();
    assert_eq!(paths, vec!["names.md", "data/S1.md", "formula/S1.md"]);
}

#[test]
fn workbook_with_macro_project_yields_one_file_per_module() {
    let wb = Workbook {
        defined_names: vec![],
        sheets: vec![],
        vba: Some(VbaProject {
            modules: vec![
                ("M1".to_string(), "one".to_string()),
                ("M2".to_string(), "two".to_string()),
            ],
            references: vec![Reference {
                name: "r".to_string(),
                description: "d".to_string(),
                path: "p".to_string(),
            }],
        }),
    };
    let arts = convert(&wb);
    let paths: Vec<&str> = arts.iter().map(|a| a.path.as_str()).collect();
    assert_eq!(paths, vec!["names.md", "vba/M1.vb", "vba/M2.vb", "refs.md"]);
    assert_eq!(arts[1].content, "one");
    assert_eq!(arts[2].content, "two");
    assert_eq!(
        arts[3].content,
        "| Name | Description | Path |\n|------|-------------|------|\n| r | d | p |\n"
    );
}

#[test]
fn empty_grids_produce_no_sheet_artifacts() {
    let wb = Workbook {
        defined_names: vec![("N".to_string(), "=1".to_string())],
        sheets: vec![
            Sheet {
                name: "Both".to_string(),
                values: empty_grid(),
                formulas: empty_grid(),
            },
            Sheet {
                name: "Vals".to_string(),
                values: one_cell_grid("x"),
                formulas: empty_grid(),
            },
        ],
        vba: None,
    };
    let arts = convert(&wb);
    let paths: Vec<&str> = arts.iter().map(|a| a.path.as_str()).collect();
    assert_eq!(paths, vec!["names.md", "data/Vals.md"]);
    assert_eq!(arts[0].content, "| Name | Formula |\n|------|---------|\n| N | =1 |\n");
    assert_eq!(arts[1].content, "|   | A |\n|---|---|\n| 1 | x |\n");
}

#[test]
fn sheets_keep_workbook_order() {
    let wb = Workbook {
        defined_names: vec![],
        sheets: vec![
            Sheet {
                name: "Zeta".to_string(),
                values: one_cell_grid("1"),
                formulas: empty_grid(),
            },
            Sheet {
                name: "Alpha".to_string(),
                values: one_cell_grid("2"),
                formulas: empty_grid(),
            },
        ],
        vba: None,
    };
    let arts = convert(&wb);
    let paths: Vec<&str> = arts.iter().map(|a| a.path.as_str()).collect();
    assert_eq!(paths, vec!["names.md", "data/Zeta.md", "data/Alpha.md"]);
}
