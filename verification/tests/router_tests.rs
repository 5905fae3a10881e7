use rootmap::catalog::StandardField;
use rootmap::errors::ErrorKind;
use rootmap::index::{QVector, VectorIndex, VectorPayload, VectorRecord, VECTOR_DIM};
use rootmap::router::{plan_search, tier1_search, tier2_search, SearchPlan, TIER2_K};

fn field(id: i32, cn: &str, en: &str, terms: Option<&str>) -> StandardField {
    StandardField {
        id,
        field_cn_name: String::from(cn),
        field_en_name: String::from(en),
        composition_ids: vec![],
        data_type: None,
        associated_terms: terms.map(String::from),
        is_standard: true,
        created_at: None,
    }
}

fn qv(fill: i64) -> QVector {
    QVector { comps: vec![fill; VECTOR_DIM] }
}

#[test]
fn tier1_matches_name_substring() {
    let rows = vec![
        field(1, "标准价格", "STD_PRC", None),
        field(2, "创建日期", "CRT_DT", None),
    ];
    let hits = tier1_search(&rows, "价格");
    assert_eq!(hits.len(), 1);
    assert_eq!(hits[0].id, 1);
    assert_eq!(hits[0].field_en_name, "STD_PRC");
}

#[test]
fn tier1_matches_synonyms_case_insensitively() {
    let rows = vec![field(1, "金额", "AMT", Some("Price 费用"))];
    assert_eq!(tier1_search(&rows, "price").len(), 1);
    assert_eq!(tier1_search(&rows, "PRICE").len(), 1);
    assert_eq!(tier1_search(&rows, "费用").len(), 1);
    assert_eq!(tier1_search(&rows, "日期").len(), 0);
}

#[test]
fn tier1_keeps_catalog_order_and_limit() {
    let mut rows = Vec::new();
    for i in 0..15 {
        rows.push(field(i, &format!("价格{}", i), "P", None));
    }
    let hits = tier1_search(&rows, "价格");
    assert_eq!(hits.len(), 10);
    for (k, h) in hits.iter().enumerate() {
        assert_eq!(h.id, k as i32);
    }
}

#[test]
fn blank_query_is_rejected() {
    let rows = vec![field(1, "价格", "PRC", None)];
    assert!(matches!(plan_search(&rows, ""), SearchPlan::Rejected));
    assert!(matches!(plan_search(&rows, " \t"), SearchPlan::Rejected));
}

#[test]
fn exact_canonical_hit_never_needs_embedding() {
    let rows = vec![
        field(1, "标准价格", "STD_PRC", None),
        field(2, "创建日期", "CRT_DT", None),
    ];
    match plan_search(&rows, "标准价格") {
        SearchPlan::Tier1(hits) => {
            assert_eq!(hits.len(), 1);
            assert_eq!(hits[0].id, 1);
        },
        _ => panic!("an exact canonical-name query must settle in the first tier"),
    }
}

#[test]
fn miss_falls_back_to_embedding() {
    let rows = vec![field(1, "标准价格", "STD_PRC", None)];
    assert!(matches!(plan_search(&rows, "重量"), SearchPlan::NeedsEmbedding));
}

#[test]
fn tier2_without_embedding_degrades_to_error() {
    let ix = VectorIndex::new();
    let r = tier2_search(&ix, None);
    assert!(matches!(r, Err(ErrorKind::EmbeddingFailure)));
}

#[test]
fn tier2_returns_at_most_k_sorted() {
    let mut ix = VectorIndex::new();
    for id in 0u64..8 {
        ix.upsert(VectorRecord {
            id: id + 1,
            vector: qv(id as i64),
            payload: VectorPayload {
                name: format!("根{}", id),
                abbr_or_full: format!("R{}", id),
            },
        });
    }
    let hits = tier2_search(&ix, Some(qv(4))).unwrap();
    assert_eq!(hits.len(), TIER2_K);
    for w in hits.windows(2) {
        assert!(w[0].score >= w[1].score);
    }
    assert_eq!(hits[0].id, 5);
    assert_eq!(hits[0].score, 0);
    assert_eq!(hits[0].name, "根4");
}

#[test]
fn error_names_are_stable() {
    assert_eq!(ErrorKind::StoreUnavailable.name(), "store_unavailable");
    assert_eq!(ErrorKind::EmbeddingFailure.name(), "embedding_failure");
    assert_eq!(ErrorKind::ValidationError.name(), "validation_error");
}
