use xl2txt::column::get_column;

#[test]
fn first_column_is_a() {
    assert_eq!(get_column(0), "A");
}

#[test]
fn last_single_letter_is_z() {
    assert_eq!(get_column(25), "Z");
}

#[test]
fn first_double_letter_is_aa() {
    assert_eq!(get_column(26), "AA");
}

#[test]
fn second_double_letter_is_ab() {
    assert_eq!(get_column(27), "AB");
}

#[test]
fn az_and_ba_boundary() {
    assert_eq!(get_column(51), "AZ");
    assert_eq!(get_column(52), "BA");
}

#[test]
fn last_double_letter_is_zz() {
    assert_eq!(get_column(701), "ZZ");
}

#[test]
fn first_triple_letter_is_aaa() {
    assert_eq!(get_column(702), "AAA");
}

#[test]
fn last_triple_letter_is_zzz() {
    assert_eq!(get_column(18277), "ZZZ");
}

#[test]
fn labels_strictly_increase_in_spreadsheet_order() {
    // shorter labels first; same length compares lexicographically
    let mut prev = get_column(0);
    for n in 1u32..2000 {
        let cur = get_column(n);
        assert!(
            prev.len() < cur.len() || (prev.len() == cur.len() && prev < cur),
            "label({}) = {} does not come after {}",
            n,
            cur,
            prev
        );
        prev = cur;
    }
}

#[test]
fn labels_are_injective_over_a_range() {
    let mut seen: Vec<String> = Vec::new();
    for n in 0u32..1000 {
        let l = get_column(n);
        assert!(!seen.contains(&l), "label {} repeated at {}", l, n);
        seen.push(l);
    }
}
