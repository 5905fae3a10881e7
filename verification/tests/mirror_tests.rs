use rootmap::api::{prepare_batch, summarize_import};
use rootmap::catalog::{
    clone_field, clone_root, field_embed_text, resolve_composition, root_embed_text,
    CreateWordRoot, StandardField, WordRoot,
};
use rootmap::index::{QVector, VECTOR_DIM};
use rootmap::mirror::{sync_outcome, CollectionKind, Mirror, SyncStatus};

fn root(id: i32, cn: &str, abbr: &str, full: Option<&str>, terms: Option<&str>) -> WordRoot {
    WordRoot {
        id,
        cn_name: String::from(cn),
        en_abbr: String::from(abbr),
        en_full_name: full.map(String::from),
        associated_terms: terms.map(String::from),
        remark: None,
        created_at: None,
    }
}

fn field(id: i32, cn: &str, en: &str, ids: Vec<i32>, terms: Option<&str>) -> StandardField {
    StandardField {
        id,
        field_cn_name: String::from(cn),
        field_en_name: String::from(en),
        composition_ids: ids,
        data_type: None,
        associated_terms: terms.map(String::from),
        is_standard: true,
        created_at: None,
    }
}

fn qv(fill: i64) -> QVector {
    QVector { comps: vec![fill; VECTOR_DIM] }
}

#[test]
fn collection_names_match_the_store() {
    assert_eq!(CollectionKind::Roots.name(), "word_roots");
    assert_eq!(CollectionKind::Fields.name(), "standard_fields");
}

#[test]
fn collections_are_created_lazily() {
    let mut m = Mirror::new();
    assert!(!m.collection_exists(CollectionKind::Roots));
    m.ensure_collection(CollectionKind::Roots);
    assert!(m.collection_exists(CollectionKind::Roots));
    assert!(!m.collection_exists(CollectionKind::Fields));
}

#[test]
fn sync_outcome_classification() {
    assert_eq!(sync_outcome(false, true, true), SyncStatus::Failed);
    assert_eq!(sync_outcome(false, false, false), SyncStatus::Failed);
    assert_eq!(sync_outcome(true, true, true), SyncStatus::Committed);
    assert_eq!(sync_outcome(true, false, true), SyncStatus::Partial);
    assert_eq!(sync_outcome(true, true, false), SyncStatus::Partial);
}

#[test]
fn sync_root_without_embedding_is_partial() {
    let mut m = Mirror::new();
    let r = root(1, "价格", "PRC", None, None);
    assert_eq!(m.sync_root(&r, None), SyncStatus::Partial);
    assert!(!m.collection_exists(CollectionKind::Roots));
}

#[test]
fn sync_root_with_embedding_commits_and_is_searchable() {
    let mut m = Mirror::new();
    let r = root(7, "价格", "PRC", None, None);
    assert_eq!(m.sync_root(&r, Some(qv(3))), SyncStatus::Committed);
    let ix = m.collection(CollectionKind::Roots).unwrap();
    let hits = ix.search(&qv(3), 1);
    assert_eq!(hits.len(), 1);
    assert_eq!(hits[0].id, 7);
    assert_eq!(hits[0].score, 0);
    assert_eq!(hits[0].name, "价格");
    assert_eq!(hits[0].abbr_or_full, "PRC");
}

#[test]
fn bulk_resync_replaces_everything() {
    let mut m = Mirror::new();
    let stale = root(99, "旧", "OLD", None, None);
    m.sync_root(&stale, Some(qv(1)));
    let rows = vec![root(1, "价格", "PRC", None, None), root(2, "日期", "DT", None, None)];
    let count = m.bulk_resync_roots(&rows, vec![qv(2), qv(8)]);
    assert_eq!(count, 2);
    let ix = m.collection(CollectionKind::Roots).unwrap();
    assert_eq!(ix.len(), 2);
    assert!(!ix.contains(99));
    let hits = ix.search(&qv(8), 1);
    assert_eq!(hits[0].id, 2);
    assert_eq!(hits[0].name, "日期");
}

#[test]
fn field_resync_and_clear() {
    let mut m = Mirror::new();
    let rows = vec![field(4, "标准价格", "STD_PRC", vec![1, 2], None)];
    let count = m.bulk_resync_fields(&rows, vec![qv(5)]);
    assert_eq!(count, 1);
    let hits = m.collection(CollectionKind::Fields).unwrap().search(&qv(5), 1);
    assert_eq!(hits[0].id, 4);
    assert_eq!(hits[0].abbr_or_full, "STD_PRC");
    m.delete_all(CollectionKind::Fields);
    assert_eq!(m.collection(CollectionKind::Fields).unwrap().len(), 0);
}

#[test]
fn delete_root_from_mirror() {
    let mut m = Mirror::new();
    m.sync_root(&root(1, "价格", "PRC", None, None), Some(qv(1)));
    m.sync_root(&root(2, "日期", "DT", None, None), Some(qv(2)));
    m.delete(CollectionKind::Roots, 1);
    let ix = m.collection(CollectionKind::Roots).unwrap();
    assert!(!ix.contains(1));
    assert!(ix.contains(2));
    m.delete(CollectionKind::Roots, 1);
    assert_eq!(m.collection(CollectionKind::Roots).unwrap().len(), 1);
}

#[test]
fn embed_texts_join_name_fields() {
    let r = root(1, "价格", "PRC", Some("Price"), Some("钱 费用"));
    assert_eq!(root_embed_text(&r), "价格 Price 钱 费用");
    let bare = root(2, "日期", "DT", None, None);
    assert_eq!(root_embed_text(&bare), "日期  ");
    let f = field(3, "标准价格", "STD_PRC", vec![], Some("价钱"));
    assert_eq!(field_embed_text(&f), "标准价格 价钱");
}

#[test]
fn composition_resolves_in_listed_order() {
    let rows = vec![
        root(1, "价格", "PRC", None, None),
        root(2, "日期", "DT", None, None),
        root(3, "金额", "AMT", None, None),
    ];
    let out = resolve_composition(&rows, &vec![3, 1, 8]);
    let abbrs: Vec<&str> = out.iter().map(|r| r.en_abbr.as_str()).collect();
    assert_eq!(abbrs, vec!["AMT", "PRC"]);
}

#[test]
fn clones_preserve_fields() {
    let r = root(1, "价格", "PRC", Some("Price"), Some("钱"));
    let c = clone_root(&r);
    assert_eq!(c.cn_name, "价格");
    assert_eq!(c.en_full_name, Some(String::from("Price")));
    let f = field(2, "标准价格", "STD_PRC", vec![1, 2], None);
    let cf = clone_field(&f);
    assert_eq!(cf.composition_ids, vec![1, 2]);
    assert_eq!(cf.field_en_name, "STD_PRC");
}

#[test]
fn batch_preparation_normalizes_and_builds_texts() {
    let items = vec![
        CreateWordRoot {
            cn_name: String::from("价格"),
            en_abbr: String::from("PRC"),
            en_full_name: Some(String::from("Price")),
            associated_terms: Some(String::from("钱,费用")),
            remark: None,
        },
        CreateWordRoot {
            cn_name: String::from("日期"),
            en_abbr: String::from("DT"),
            en_full_name: None,
            associated_terms: None,
            remark: Some(String::from("备注")),
        },
    ];
    let (norm, texts) = prepare_batch(&items);
    assert_eq!(norm.len(), 2);
    assert_eq!(texts.len(), 2);
    assert_eq!(norm[0].associated_terms, Some(String::from("钱 费用")));
    assert_eq!(texts[0], "价格 Price 钱 费用");
    assert_eq!(texts[1], "日期  ");
    assert_eq!(norm[1].remark, Some(String::from("备注")));
}

#[test]
fn import_summary_counts_every_item_once() {
    let outcomes = vec![
        None,
        Some(String::from("行 2: 重复")),
        None,
        Some(String::from("行 4: 超长")),
    ];
    let r = summarize_import(outcomes);
    assert_eq!(r.success_count, 2);
    assert_eq!(r.failure_count, 2);
    assert_eq!(r.errors, vec![String::from("行 2: 重复"), String::from("行 4: 超长")]);
    let empty = summarize_import(Vec::new());
    assert_eq!(empty.success_count, 0);
    assert_eq!(empty.failure_count, 0);
    assert!(empty.errors.is_empty());
}
