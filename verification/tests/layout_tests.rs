use xl2txt::layout::{plan, PlanError};

#[test]
fn nonexistent_input_is_not_found() {
    let r = plan("book.xlsx", None, false, false);
    assert_eq!(r.err().unwrap(), PlanError::NotFound);
}

#[test]
fn directory_input_is_not_a_file() {
    let r = plan("somedir", None, true, false);
    assert_eq!(r.err().unwrap(), PlanError::NotAFile);
}

#[test]
fn unrecognized_extension_is_rejected() {
    let r = plan("notes.txt", None, true, true);
    assert_eq!(r.err().unwrap(), PlanError::UnrecognizedExtension);
}

#[test]
fn empty_extension_is_unrecognized() {
    let r = plan("book.", None, true, true);
    assert_eq!(r.err().unwrap(), PlanError::UnrecognizedExtension);
}

#[test]
fn missing_extension_is_rejected() {
    let r = plan("book", None, true, true);
    assert_eq!(r.err().unwrap(), PlanError::MissingExtension);
}

#[test]
fn leading_dot_only_counts_as_missing_extension() {
    let r = plan(".xlsx", None, true, true);
    assert_eq!(r.err().unwrap(), PlanError::MissingExtension);
}

#[test]
fn extension_match_is_case_sensitive() {
    let r = plan("book.XLSX", None, true, true);
    assert_eq!(r.err().unwrap(), PlanError::UnrecognizedExtension);
}

#[test]
fn all_four_extensions_are_accepted() {
    for name in ["b.xls", "b.xlsx", "b.xlsb", "b.ods"] {
        assert!(plan(name, None, true, true).is_ok(), "{} rejected", name);
    }
}

#[test]
fn layout_is_derived_from_parent_directory() {
    let l = plan("dir/book.xlsx", None, true, true).ok().unwrap();
    assert_eq!(l.root_dir, "dir/.book.xlsx");
    assert_eq!(l.data_dir, "dir/.book.xlsx/data");
    assert_eq!(l.formula_dir, "dir/.book.xlsx/formula");
    assert_eq!(l.vba_dir, "dir/.book.xlsx/vba");
    assert_eq!(l.refs_file, "dir/.book.xlsx/refs.md");
    assert_eq!(l.names_file, "dir/.book.xlsx/names.md");
}

#[test]
fn bare_file_name_roots_beside_it() {
    let l = plan("book.xls", None, true, true).ok().unwrap();
    assert_eq!(l.root_dir, ".book.xls");
    assert_eq!(l.data_dir, ".book.xls/data");
}

#[test]
fn absolute_path_in_root_directory() {
    let l = plan("/a.ods", None, true, true).ok().unwrap();
    assert_eq!(l.root_dir, "/.a.ods");
}

#[test]
fn override_root_replaces_parent() {
    let l = plan("dir/book.xlsb", Some("out"), true, true).ok().unwrap();
    assert_eq!(l.root_dir, "out/.book.xlsb");
    assert_eq!(l.names_file, "out/.book.xlsb/names.md");
}

#[test]
fn override_root_with_trailing_separator() {
    let l = plan("dir/book.xlsx", Some("out/"), true, true).ok().unwrap();
    assert_eq!(l.root_dir, "out/.book.xlsx");
}

#[test]
fn planning_twice_yields_identical_layouts() {
    let a = plan("dir/book.xlsx", Some("out"), true, true).ok().unwrap();
    let b = plan("dir/book.xlsx", Some("out"), true, true).ok().unwrap();
    assert_eq!(a.root_dir, b.root_dir);
    assert_eq!(a.data_dir, b.data_dir);
    assert_eq!(a.formula_dir, b.formula_dir);
    assert_eq!(a.vba_dir, b.vba_dir);
    assert_eq!(a.refs_file, b.refs_file);
    assert_eq!(a.names_file, b.names_file);
}
