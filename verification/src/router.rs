//! Hybrid query router: exact textual search first, vector similarity
//! only on a miss.
//!
//! Tier 1 matches the query as an ASCII case-insensitive substring of a
//! field's canonical name or synonym list, keeps the catalog's order and
//! returns at most a fixed number of rows; when it finds anything the
//! search ends there. Tier 2 runs only on a Tier 1 miss: the caller
//! obtains one embedding for the query and the router asks the
//! similarity index for the nearest records. Exact hits are unambiguous
//! and cheap; semantic search is reserved for the miss case because it
//! is strictly more expensive and approximate. A blank query is rejected
//! before any store access.

use vstd::prelude::*;

use crate::catalog::StandardField;
use crate::catalog::clone_field;
use crate::catalog::field_eq;
use crate::errors::ErrorKind;
use crate::index::QVector;
use crate::index::ScoredHit;
use crate::index::VectorIndex;
use crate::index::search_post;
use crate::text::ci_contains;
use crate::text::ci_occurs_at;
use crate::text::is_blank;
use crate::text::lemma_ci_seq_eq_refl;
use crate::text::str_chars;
use crate::text::str_is_blank;
use crate::text::contains_ci;

verus! {

/// How many rows a first-tier textual search returns at most.
pub const TIER1_LIMIT: usize = 10;

/// How many nearest neighbors a second-tier semantic search asks for.
pub const TIER2_K: usize = 5;

/// The query parameter of a search or suggestion request.
pub struct SuggestQuery {
    pub q: String,
}

/// A field answers a first-tier query when the query occurs, ASCII
/// case-insensitively, inside its canonical name or its synonym list.
pub open spec fn tier1_matches(f: StandardField, q: Seq<char>) -> bool {
    ci_contains(f.field_cn_name@, q) || (f.associated_terms matches Some(s) && ci_contains(s@, q))
}

/// Every matching row, in catalog order.
pub open spec fn tier1_filter(rows: Seq<StandardField>, q: Seq<char>) -> Seq<StandardField>
    decreases rows.len(),
{
    if rows.len() == 0 {
        Seq::empty()
    } else {
        let rest = tier1_filter(rows.drop_last(), q);
        if tier1_matches(rows.last(), q) {
            rest.push(rows.last())
        } else {
            rest
        }
    }
}

/// What a first-tier search returns: the matching rows in catalog
/// order, cut off at the result bound.
pub open spec fn tier1_spec(rows: Seq<StandardField>, q: Seq<char>) -> Seq<StandardField> {
    let f = tier1_filter(rows, q);
    if f.len() <= TIER1_LIMIT {
        f
    } else {
        f.take(TIER1_LIMIT as int)
    }
}

proof fn lemma_tier1_filter_nonempty(rows: Seq<StandardField>, q: Seq<char>)
    requires
        exists|j: int| 0 <= j < rows.len() && tier1_matches(rows[j], q),
    ensures
        tier1_filter(rows, q).len() > 0,
    decreases rows.len(),
{
    let j = choose|j: int| 0 <= j < rows.len() && tier1_matches(rows[j], q);
    if j < rows.len() - 1 {
        assert(rows.drop_last()[j] == rows[j]);
        lemma_tier1_filter_nonempty(rows.drop_last(), q);
    }
}

/// A query that exactly equals some row's canonical name always has a
/// first-tier hit, so a planned search never reaches the embedding
/// stage: the second tier, and with it the embedding computation, is
/// entered only on a first-tier miss.
pub proof fn lemma_exact_name_stays_tier1(rows: Seq<StandardField>, q: Seq<char>)
    requires
        exists|j: int| 0 <= j < rows.len() && q == rows[j].field_cn_name@,
    ensures
        tier1_filter(rows, q).len() > 0,
{
    let j = choose|j: int| 0 <= j < rows.len() && q == rows[j].field_cn_name@;
    assert(ci_occurs_at(rows[j].field_cn_name@, q, 0)) by {
        lemma_ci_seq_eq_refl(q);
        assert(rows[j].field_cn_name@.subrange(0, q.len() as int) =~= q);
    }
    assert(tier1_matches(rows[j], q));
    lemma_tier1_filter_nonempty(rows, q);
}

/// The first-tier textual search: the matching rows in catalog order,
/// at most `TIER1_LIMIT` of them.
pub fn tier1_search(rows: &Vec<StandardField>, query: &str) -> (r: Vec<StandardField>)
    ensures
        r@.len() == tier1_spec(rows@, query@).len(),
        forall|p: int| 0 <= p < r@.len() ==> field_eq(r@[p], tier1_spec(rows@, query@)[p]),
        r@.len() <= TIER1_LIMIT,
{
    let qc = str_chars(query);
    let mut out: Vec<StandardField> = Vec::new();
    let mut i: usize = 0;
    while i < rows.len()
        invariant
            i <= rows@.len(),
            qc@ == query@,
            out@.len() == tier1_spec(rows@.take(i as int), query@).len(),
            forall|p: int|
                0 <= p < out@.len() ==> field_eq(out@[p], tier1_spec(rows@.take(i as int), query@)[p]),
            out@.len() <= TIER1_LIMIT,
        decreases rows@.len() - i,
    {
        proof {
            assert(rows@.take(i + 1).drop_last() =~= rows@.take(i as int));
            assert(rows@.take(i + 1).last() == rows@[i as int]);
        }
        let name_chars = str_chars(rows[i].field_cn_name.as_str());
        let hit = if contains_ci(&name_chars, &qc) {
            true
        } else {
            match &rows[i].associated_terms {
                Some(s) => {
                    let tc = str_chars(s.as_str());
                    contains_ci(&tc, &qc)
                },
                None => false,
            }
        };
        assert(hit == tier1_matches(rows@[i as int], query@));
        if hit && out.len() < TIER1_LIMIT {
            let ghost flt = tier1_filter(rows@.take(i as int), query@);
            proof {
                assert(flt.len() == out@.len());
                assert(tier1_filter(rows@.take(i + 1), query@) == flt.push(rows@[i as int]));
                assert(tier1_spec(rows@.take(i + 1), query@) =~= flt.push(rows@[i as int]));
            }
            out.push(clone_field(&rows[i]));
        } else if hit {
            let ghost flt = tier1_filter(rows@.take(i as int), query@);
            proof {
                assert(flt.len() >= TIER1_LIMIT);
                assert(tier1_filter(rows@.take(i + 1), query@) == flt.push(rows@[i as int]));
                assert(flt.push(rows@[i as int]).take(TIER1_LIMIT as int) =~= flt.take(
                    TIER1_LIMIT as int,
                ));
            }
        }
        i += 1;
    }
    proof {
        assert(rows@.take(rows@.len() as int) =~= rows@);
    }
    out
}

/// The router's decision for one search request.
pub enum SearchPlan {
    /// The query was blank: rejected before any store access.
    Rejected,
    /// The first tier hit: these are the results, and the search ends.
    Tier1(Vec<StandardField>),
    /// The first tier missed: the caller should obtain one embedding
    /// for the query and run the second tier with it.
    NeedsEmbedding,
}

/// Plans a search: rejects a blank query, answers from the first tier
/// when it hits, and calls for an embedding only when it misses.
pub fn plan_search(rows: &Vec<StandardField>, query: &str) -> (r: SearchPlan)
    ensures
        (r is Rejected) <==> is_blank(query@),
        (r is Tier1) <==> (!is_blank(query@) && tier1_filter(rows@, query@).len() > 0),
        (r is NeedsEmbedding) <==> (!is_blank(query@) && tier1_filter(rows@, query@).len() == 0),
        r matches SearchPlan::Tier1(hits) ==> hits@.len() == tier1_spec(rows@, query@).len()
            && forall|p: int|
            0 <= p < hits@.len() ==> field_eq(hits@[p], tier1_spec(rows@, query@)[p]),
{
    if str_is_blank(query) {
        return SearchPlan::Rejected;
    }
    let hits = tier1_search(rows, query);
    if hits.len() > 0 {
        SearchPlan::Tier1(hits)
    } else {
        SearchPlan::NeedsEmbedding
    }
}

/// The second tier, entered only on a first-tier miss: searches the
/// similarity index with the embedding the caller obtained. A failed
/// embedding degrades to an error signal, never a crash, and does not
/// re-attempt the first tier.
pub fn tier2_search(ix: &VectorIndex, emb: Option<QVector>) -> (r: Result<
    Vec<ScoredHit>,
    ErrorKind,
>)
    requires
        ix.wf(),
        emb matches Some(v) ==> v.wf(),
    ensures
        (emb is None) <==> (r matches Err(e) && e is EmbeddingFailure),
        emb matches Some(v) ==> (r matches Ok(hits) && search_post(
            *ix,
            v.comps@,
            TIER2_K as int,
            hits@,
        )),
{
    match emb {
        None => Err(ErrorKind::EmbeddingFailure),
        Some(v) => Ok(ix.search(&v, TIER2_K)),
    }
}

/// The second tier returns at most `TIER2_K` results, ordered by
/// non-increasing score.
pub proof fn lemma_tier2_bounded_sorted(
    idx: VectorIndex,
    q: Seq<i64>,
    r: Seq<ScoredHit>,
)
    requires
        search_post(idx, q, TIER2_K as int, r),
    ensures
        r.len() <= TIER2_K,
        forall|i: int, j: int| 0 <= i < j < r.len() ==> r[i].score >= r[j].score,
{
}

} // verus!
