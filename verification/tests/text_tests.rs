use rootmap::text::{normalize_terms, normalize_string, str_chars, str_is_blank, word_in, contains_ci};

fn chars(s: &str) -> Vec<char> {
    s.chars().collect()
}

#[test]
fn normalize_commas_and_spaces() {
    let r = normalize_terms(Some(String::from("钱,费用，价格")));
    assert_eq!(r, Some(String::from("钱 费用 价格")));
}

#[test]
fn normalize_collapses_runs_and_trims_edges() {
    let r = normalize_string("  a,,b  ");
    assert_eq!(r, String::from("a b"));
    assert_eq!(normalize_string("，，"), String::from(""));
    assert_eq!(normalize_string(""), String::from(""));
    assert_eq!(normalize_string("one"), String::from("one"));
    assert_eq!(normalize_string("\ta\nb\r c"), String::from("a b c"));
}

#[test]
fn normalize_keeps_absence() {
    assert!(normalize_terms(None).is_none());
}

#[test]
fn str_chars_roundtrip() {
    let v = str_chars("价格abc");
    assert_eq!(v, vec!['价', '格', 'a', 'b', 'c']);
}

#[test]
fn blankness() {
    assert!(str_is_blank(""));
    assert!(str_is_blank(" \t\r\n"));
    assert!(!str_is_blank(" x "));
}

#[test]
fn word_boundary_matching() {
    let terms = chars("费 价格");
    assert!(word_in(&terms, &chars("费")));
    assert!(word_in(&terms, &chars("价格")));
    assert!(!word_in(&terms, &chars("费用")));
    assert!(!word_in(&terms, &chars("格")));
    let listed = chars("费用 价格");
    assert!(word_in(&listed, &chars("费用")));
    assert!(!word_in(&listed, &chars("费")));
}

#[test]
fn word_boundary_is_case_insensitive_ascii() {
    let terms = chars("Price AMT");
    assert!(word_in(&terms, &chars("price")));
    assert!(word_in(&terms, &chars("amt")));
    assert!(!word_in(&terms, &chars("pric")));
}

#[test]
fn substring_search_ci() {
    assert!(contains_ci(&chars("标准价格表"), &chars("价格")));
    assert!(contains_ci(&chars("UnitPrice"), &chars("price")));
    assert!(!contains_ci(&chars("价表"), &chars("价格")));
    assert!(contains_ci(&chars("anything"), &chars("")));
}
