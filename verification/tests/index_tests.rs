use rootmap::index::{similarity, QVector, ScoredHit, VectorIndex, VectorPayload, VectorRecord, VECTOR_DIM};

fn qv(fill: i64, spikes: &[(usize, i64)]) -> QVector {
    let mut comps = vec![fill; VECTOR_DIM];
    for (pos, val) in spikes {
        comps[*pos] = *val;
    }
    QVector { comps }
}

fn rec(id: u64, v: QVector, name: &str, abbr: &str) -> VectorRecord {
    VectorRecord {
        id,
        vector: v,
        payload: VectorPayload { name: String::from(name), abbr_or_full: String::from(abbr) },
    }
}

#[test]
fn similarity_is_negated_squared_distance() {
    let a = qv(0, &[]);
    let b = qv(0, &[(0, 3), (5, -4)]);
    assert_eq!(similarity(&a, &b), -(9 + 16));
    assert_eq!(similarity(&a, &a), 0);
    assert_eq!(similarity(&b, &b), 0);
}

#[test]
fn upsert_then_search_returns_the_record_with_perfect_score() {
    let mut ix = VectorIndex::new();
    ix.upsert(rec(1, qv(1, &[]), "价格", "PRC"));
    ix.upsert(rec(2, qv(5, &[]), "日期", "DT"));
    ix.upsert(rec(3, qv(-2, &[]), "金额", "AMT"));
    let hits = ix.search(&qv(5, &[]), 1);
    assert_eq!(hits.len(), 1);
    assert_eq!(hits[0].id, 2);
    assert_eq!(hits[0].score, 0);
    assert_eq!(hits[0].name, "日期");
    assert_eq!(hits[0].abbr_or_full, "DT");
}

#[test]
fn upsert_overwrites_in_place() {
    let mut ix = VectorIndex::new();
    ix.upsert(rec(1, qv(1, &[]), "旧", "OLD"));
    ix.upsert(rec(1, qv(2, &[]), "新", "NEW"));
    assert_eq!(ix.len(), 1);
    let hits = ix.search(&qv(2, &[]), 1);
    assert_eq!(hits[0].id, 1);
    assert_eq!(hits[0].name, "新");
    assert_eq!(hits[0].score, 0);
}

#[test]
fn delete_then_lookups_return_absent() {
    let mut ix = VectorIndex::new();
    ix.upsert(rec(1, qv(1, &[]), "价格", "PRC"));
    ix.upsert(rec(2, qv(9, &[]), "日期", "DT"));
    let removed = ix.delete(1);
    assert!(removed);
    assert!(!ix.contains(1));
    let hits = ix.search(&qv(1, &[]), 5);
    assert!(hits.iter().all(|h: &ScoredHit| h.id != 1));
    assert_eq!(hits.len(), 1);
    let again = ix.delete(1);
    assert!(!again);
    assert_eq!(ix.len(), 1);
}

#[test]
fn search_is_bounded_and_sorted() {
    let mut ix = VectorIndex::new();
    for id in 0u64..7 {
        ix.upsert(rec(id + 1, qv(id as i64, &[]), "n", "a"));
    }
    let hits = ix.search(&qv(3, &[]), 5);
    assert_eq!(hits.len(), 5);
    for w in hits.windows(2) {
        assert!(w[0].score >= w[1].score);
    }
    assert_eq!(hits[0].id, 4);
    assert_eq!(hits[0].score, 0);
    let all = ix.search(&qv(3, &[]), 100);
    assert_eq!(all.len(), 7);
}

#[test]
fn search_on_empty_index_is_empty() {
    let ix = VectorIndex::new();
    assert!(ix.search(&qv(0, &[]), 5).is_empty());
}

#[test]
fn delete_all_clears() {
    let mut ix = VectorIndex::new();
    ix.upsert(rec(1, qv(1, &[]), "x", "y"));
    ix.upsert(rec(2, qv(2, &[]), "x", "y"));
    ix.delete_all();
    assert_eq!(ix.len(), 0);
    assert!(!ix.contains(1));
    assert!(!ix.contains(2));
}
