use rootmap::catalog::{CreateWordRoot, WordRoot, root_from_create};
use rootmap::errors::ErrorKind;
use rootmap::resolver::{match_token, resolve_request, resolve_tokens, suggest_field_name};
use rootmap::vocabulary::{Vocabulary, ROOT_TERM_WEIGHT};

fn root(id: i32, cn: &str, abbr: &str, terms: Option<&str>) -> WordRoot {
    WordRoot {
        id,
        cn_name: String::from(cn),
        en_abbr: String::from(abbr),
        en_full_name: None,
        associated_terms: terms.map(String::from),
        remark: None,
        created_at: None,
    }
}

fn toks(ts: &[&str]) -> Vec<String> {
    ts.iter().map(|t| String::from(*t)).collect()
}

#[test]
fn all_canonical_tokens_resolve_clean() {
    let rows = vec![root(1, "价格", "PRC", None), root(2, "日期", "DT", None)];
    let r = resolve_tokens(&rows, &toks(&["价格", "日期"]));
    assert_eq!(r.suggested_en, "PRC_DT");
    assert!(r.missing_words.is_empty());
    assert_eq!(r.matched_ids, vec![1, 2]);
}

#[test]
fn unknown_token_is_bracketed_and_missing() {
    let rows = vec![root(1, "价格", "PRC", None)];
    let r = resolve_tokens(&rows, &toks(&["价格", "猫咪"]));
    assert_eq!(r.suggested_en, "PRC_[猫咪]");
    assert_eq!(r.missing_words, vec![String::from("猫咪")]);
    assert_eq!(r.matched_ids, vec![1]);
}

#[test]
fn counts_add_up_over_nonblank_tokens() {
    let rows = vec![root(1, "价格", "PRC", None)];
    let tokens = toks(&["价格", " ", "猫咪", "", "狗"]);
    let r = resolve_tokens(&rows, &tokens);
    let nonblank = tokens.iter().filter(|t| !t.trim().is_empty()).count();
    assert_eq!(r.matched_ids.len() + r.missing_words.len(), nonblank);
    assert_eq!(r.matched_ids.len(), 1);
    assert_eq!(r.missing_words.len(), 2);
}

#[test]
fn blank_tokens_are_skipped_entirely() {
    let rows = vec![root(1, "价格", "PRC", None)];
    let r = resolve_tokens(&rows, &toks(&[" ", "\t"]));
    assert_eq!(r.suggested_en, "");
    assert!(r.missing_words.is_empty());
    assert!(r.matched_ids.is_empty());
}

#[test]
fn synonym_matches_whole_word_only() {
    let rows = vec![root(7, "费用", "FEE", Some("费 价格"))];
    assert_eq!(match_token(&rows, &String::from("费")), Some(0));
    assert_eq!(match_token(&rows, &String::from("费用")), Some(0));
    assert_eq!(match_token(&rows, &String::from("用")), None);
    let rows2 = vec![root(7, "金额", "AMT", Some("费 价格"))];
    assert_eq!(match_token(&rows2, &String::from("费用")), None);
}

#[test]
fn lowest_id_wins_among_matches() {
    let rows = vec![
        root(9, "价格", "P9", None),
        root(3, "金额", "A3", Some("价格")),
        root(5, "价格", "P5", None),
    ];
    let r = resolve_tokens(&rows, &toks(&["价格"]));
    assert_eq!(r.suggested_en, "A3");
    assert_eq!(r.matched_ids, vec![3]);
}

#[test]
fn resolve_phrase_with_segmenter() {
    let mut vocab = Vocabulary::new();
    let rows = vec![root(1, "价格", "PRC", None), root(2, "日期", "DT", None)];
    vocab.add_term("价格", ROOT_TERM_WEIGHT);
    vocab.add_term("日期", ROOT_TERM_WEIGHT);
    let r = suggest_field_name(&vocab, &rows, "价格日期");
    assert_eq!(r.suggested_en, "PRC_DT");
    assert!(r.missing_words.is_empty());
    assert_eq!(r.matched_ids, vec![1, 2]);
}

#[test]
fn resolve_phrase_with_unknown_word() {
    let mut vocab = Vocabulary::new();
    let rows = vec![root(1, "价格", "PRC", None)];
    vocab.add_term("价格", ROOT_TERM_WEIGHT);
    let r = suggest_field_name(&vocab, &rows, "价格猫咪");
    assert_eq!(r.suggested_en, "PRC_[猫咪]");
    assert_eq!(r.missing_words, vec![String::from("猫咪")]);
    assert_eq!(r.matched_ids, vec![1]);
}

#[test]
fn blank_phrase_is_rejected_before_lookup() {
    let vocab = Vocabulary::new();
    let rows: Vec<WordRoot> = Vec::new();
    let r = resolve_request(&vocab, &rows, "   ");
    assert!(matches!(r, Err(ErrorKind::ValidationError)));
    let ok = resolve_request(&vocab, &rows, "价格");
    assert!(ok.is_ok());
}

#[test]
fn segmentation_tokens_concatenate_to_input() {
    let vocab = Vocabulary::new();
    let tokens = vocab.segment("标准价格表 2024");
    let joined: String = tokens.concat();
    assert_eq!(joined, "标准价格表 2024");
    assert!(tokens.len() > 1);
}

#[test]
fn added_term_changes_later_cuts() {
    let mut vocab = Vocabulary::new();
    let before = vocab.segment("鑫垚犇");
    assert_eq!(before, vec!["鑫", "垚", "犇"]);
    vocab.add_term("鑫垚犇", ROOT_TERM_WEIGHT);
    let after = vocab.segment("鑫垚犇");
    assert_eq!(after, vec!["鑫垚犇"]);
}

#[test]
fn dictionary_seeded_from_catalog_rows() {
    let mut vocab = Vocabulary::new();
    let rows = vec![root(1, "鑫垚犇", "MCS", None), root(2, "价格", "PRC", None)];
    vocab.load_catalog_terms(&rows);
    let cut = vocab.segment("鑫垚犇价格");
    assert_eq!(cut, vec!["鑫垚犇", "价格"]);
    let r = suggest_field_name(&vocab, &rows, "鑫垚犇价格");
    assert_eq!(r.suggested_en, "MCS_PRC");
}

#[test]
fn create_request_normalizes_synonyms() {
    let req = CreateWordRoot {
        cn_name: String::from("价格"),
        en_abbr: String::from("PRC"),
        en_full_name: Some(String::from("Price")),
        associated_terms: Some(String::from("钱,费用，价格")),
        remark: None,
    };
    let row = root_from_create(req, 42, Some(1700000000));
    assert_eq!(row.id, 42);
    assert_eq!(row.associated_terms, Some(String::from("钱 费用 价格")));
    assert_eq!(row.created_at, Some(1700000000));
}
