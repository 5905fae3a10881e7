//! In-memory similarity index: a keyed store of fixed-width quantized
//! vectors with nearest-neighbor search.
//!
//! Vectors are fixed-point quantizations of unit-scale embeddings, held
//! as bounded integers so that scoring is exact. The similarity score of
//! two vectors is the negated squared Euclidean distance: zero for a
//! perfect match, more negative the further apart. Records are keyed by
//! the id of the catalog row they were derived from; an upsert is an
//! idempotent overwrite and a delete an idempotent no-op when absent.

use vstd::prelude::*;

verus! {

/// The fixed vector width every collection uses.
pub const VECTOR_DIM: usize = 384;

/// Bound on the magnitude of each quantized vector component.
pub const COMP_BOUND: i64 = 1048576;

/// Bound on one squared component difference: `(2 * COMP_BOUND)^2`.
pub const TERM_BOUND: i64 = 4398046511104;

/// A fixed-width quantized embedding vector.
pub struct QVector {
    pub comps: Vec<i64>,
}

/// A well-formed vector has the fixed width and bounded components.
pub open spec fn vec_wf(v: Seq<i64>) -> bool {
    v.len() == VECTOR_DIM && forall|i: int| 0 <= i < v.len() ==> -COMP_BOUND <= #[trigger] v[i] <= COMP_BOUND
}

impl QVector {
    pub open spec fn wf(&self) -> bool {
        vec_wf(self.comps@)
    }
}

/// The small fixed payload a record carries: the row's name fields only.
pub struct VectorPayload {
    pub name: String,
    pub abbr_or_full: String,
}

/// One indexed row: keyed by its source catalog row's id. Its content is
/// derived from that row and carries no independent information.
pub struct VectorRecord {
    pub id: u64,
    pub vector: QVector,
    pub payload: VectorPayload,
}

pub open spec fn rec_wf(r: VectorRecord) -> bool {
    vec_wf(r.vector.comps@)
}

/// Similarity of two vectors: the negated squared Euclidean distance.
/// Zero exactly on equal vectors, negative otherwise.
pub open spec fn similarity_spec(q: Seq<i64>, v: Seq<i64>) -> int
    decreases q.len(),
{
    if q.len() == 0 || v.len() == 0 {
        0
    } else {
        similarity_spec(q.drop_last(), v.drop_last()) - (q.last() - v.last()) * (q.last()
            - v.last())
    }
}

/// A vector matches itself perfectly.
pub proof fn lemma_similarity_self(v: Seq<i64>)
    ensures
        similarity_spec(v, v) == 0,
    decreases v.len(),
{
    if v.len() > 0 {
        lemma_similarity_self(v.drop_last());
    }
}

/// A perfect score identifies the vector: only an equal vector scores
/// zero.
pub proof fn lemma_similarity_zero_is_equal(q: Seq<i64>, v: Seq<i64>)
    requires
        q.len() == v.len(),
        similarity_spec(q, v) == 0,
    ensures
        q =~= v,
    decreases q.len(),
{
    if q.len() > 0 {
        let d = q.last() - v.last();
        assert(d * d >= 0) by (nonlinear_arith);
        lemma_similarity_nonpos(q.drop_last(), v.drop_last());
        assert(d * d == 0);
        assert(d == 0) by (nonlinear_arith)
            requires
                d * d == 0,
        ;
        lemma_similarity_zero_is_equal(q.drop_last(), v.drop_last());
        assert(forall|i: int| 0 <= i < q.len() - 1 ==> q[i] == q.drop_last()[i]);
    }
}

pub proof fn lemma_similarity_nonpos(q: Seq<i64>, v: Seq<i64>)
    ensures
        similarity_spec(q, v) <= 0,
    decreases q.len(),
{
    if q.len() > 0 && v.len() > 0 {
        lemma_similarity_nonpos(q.drop_last(), v.drop_last());
        let d = q.last() - v.last();
        assert(d * d >= 0) by (nonlinear_arith);
    }
}

/// The similarity score of two vectors.
pub fn similarity(q: &QVector, v: &QVector) -> (s: i64)
    requires
        q.wf(),
        v.wf(),
    ensures
        s == similarity_spec(q.comps@, v.comps@),
{
    let mut acc: i64 = 0;
    let mut i: usize = 0;
    while i < VECTOR_DIM
        invariant
            i <= VECTOR_DIM,
            q.wf(),
            v.wf(),
            acc == similarity_spec(q.comps@.take(i as int), v.comps@.take(i as int)),
            -(i * TERM_BOUND) <= acc <= 0,
        decreases VECTOR_DIM - i,
    {
        let d = q.comps[i] - v.comps[i];
        assert(0 <= d * d <= TERM_BOUND) by (nonlinear_arith)
            requires
                -2 * COMP_BOUND <= d <= 2 * COMP_BOUND,
                TERM_BOUND == 4 * COMP_BOUND * COMP_BOUND,
                COMP_BOUND == 1048576,
        ;
        let sq = d * d;
        proof {
            assert(q.comps@.take(i + 1).drop_last() =~= q.comps@.take(i as int));
            assert(v.comps@.take(i + 1).drop_last() =~= v.comps@.take(i as int));
        }
        acc = acc - sq;
        i += 1;
    }
    proof {
        assert(q.comps@.take(VECTOR_DIM as int) =~= q.comps@);
        assert(v.comps@.take(VECTOR_DIM as int) =~= v.comps@);
    }
    acc
}

/// One search hit: the matched record's id, its payload fields and its
/// similarity score.
pub struct ScoredHit {
    pub id: u64,
    pub name: String,
    pub abbr_or_full: String,
    pub score: i64,
}

/// Some hit carries `id`.
pub open spec fn in_hits(r: Seq<ScoredHit>, id: u64) -> bool {
    exists|i: int| 0 <= i < r.len() && r[i].id == id
}

/// What a search with query `q` and bound `k` returns: one hit per
/// stored record up to `k`, each reporting its record's true score and
/// payload, in non-increasing score order, and no omitted record scoring
/// above a returned one.
pub open spec fn search_post(idx: VectorIndex, q: Seq<i64>, k: int, r: Seq<ScoredHit>) -> bool {
    &&& r.len() == if k <= idx.records@.len() {
        k
    } else {
        idx.records@.len() as int
    }
    &&& forall|i: int|
        0 <= i < r.len() ==> idx.has_id(#[trigger] r[i].id) && r[i].score == similarity_spec(
            q,
            idx.rec_of(r[i].id).vector.comps@,
        ) && r[i].name@ == idx.rec_of(r[i].id).payload.name@ && r[i].abbr_or_full@ == idx.rec_of(
            r[i].id,
        ).payload.abbr_or_full@
    &&& forall|i: int, j: int| 0 <= i < j < r.len() ==> r[i].score >= r[j].score
    &&& forall|i: int, j: int| 0 <= i < j < r.len() ==> r[i].id != r[j].id
    &&& forall|id: u64|
        idx.has_id(id) && !in_hits(r, id) ==> forall|i: int|
            0 <= i < r.len() ==> similarity_spec(q, idx.rec_of(id).vector.comps@) <= #[trigger] r[i].score
}

/// How many entries are true.
pub open spec fn count_true(s: Seq<bool>) -> int
    decreases s.len(),
{
    if s.len() == 0 {
        0
    } else {
        count_true(s.drop_last()) + if s.last() {
            1int
        } else {
            0int
        }
    }
}

proof fn lemma_count_true_missing(s: Seq<bool>)
    requires
        count_true(s) < s.len(),
    ensures
        exists|i: int| 0 <= i < s.len() && !s[i],
    decreases s.len(),
{
    if s.len() > 0 {
        if !s.last() {
            assert(!s[s.len() - 1]);
        } else {
            lemma_count_true_missing(s.drop_last());
            let i = choose|i: int| 0 <= i < s.len() - 1 && !s.drop_last()[i];
            assert(!s[i]);
        }
    }
}

proof fn lemma_count_true_full(s: Seq<bool>)
    requires
        count_true(s) == s.len(),
    ensures
        forall|i: int| 0 <= i < s.len() ==> s[i],
    decreases s.len(),
{
    if s.len() > 0 {
        lemma_count_true_nonneg(s.drop_last());
        lemma_count_true_le(s.drop_last());
        lemma_count_true_full(s.drop_last());
        assert(forall|i: int| 0 <= i < s.len() - 1 ==> s[i] == s.drop_last()[i]);
    }
}

proof fn lemma_count_true_nonneg(s: Seq<bool>)
    ensures
        count_true(s) >= 0,
    decreases s.len(),
{
    if s.len() > 0 {
        lemma_count_true_nonneg(s.drop_last());
    }
}

proof fn lemma_count_true_le(s: Seq<bool>)
    ensures
        count_true(s) <= s.len(),
    decreases s.len(),
{
    if s.len() > 0 {
        lemma_count_true_le(s.drop_last());
    }
}

proof fn lemma_count_true_all_false(s: Seq<bool>)
    requires
        forall|i: int| 0 <= i < s.len() ==> !s[i],
    ensures
        count_true(s) == 0,
    decreases s.len(),
{
    if s.len() > 0 {
        assert(forall|i: int| 0 <= i < s.len() - 1 ==> s.drop_last()[i] == s[i]);
        lemma_count_true_all_false(s.drop_last());
    }
}

proof fn lemma_count_true_update(s: Seq<bool>, b: int)
    requires
        0 <= b < s.len(),
        !s[b],
    ensures
        count_true(s.update(b, true)) == count_true(s) + 1,
    decreases s.len(),
{
    let u = s.update(b, true);
    if b == s.len() - 1 {
        assert(u.drop_last() =~= s.drop_last());
    } else {
        assert(u.drop_last() =~= s.drop_last().update(b, true));
        assert(u.last() == s.last());
        lemma_count_true_update(s.drop_last(), b);
    }
}

/// One collection of the similarity index.
pub struct VectorIndex {
    pub records: Vec<VectorRecord>,
}

impl VectorIndex {
    /// Every record is well-formed and no id appears twice.
    pub open spec fn wf(&self) -> bool {
        &&& forall|i: int| 0 <= i < self.records@.len() ==> rec_wf(#[trigger] self.records@[i])
        &&& forall|i: int, j: int|
            0 <= i < j < self.records@.len() ==> self.records@[i].id != self.records@[j].id
    }

    /// The collection holds a record keyed by `id`.
    pub open spec fn has_id(&self, id: u64) -> bool {
        exists|i: int| 0 <= i < self.records@.len() && self.records@[i].id == id
    }

    /// The position of the record keyed by `id`.
    pub open spec fn idx_of(&self, id: u64) -> int {
        choose|i: int| 0 <= i < self.records@.len() && self.records@[i].id == id
    }

    /// The record keyed by `id`.
    pub open spec fn rec_of(&self, id: u64) -> VectorRecord {
        self.records@[self.idx_of(id)]
    }

    pub fn new() -> (r: VectorIndex)
        ensures
            r.wf(),
            r.records@.len() == 0,
            forall|id: u64| !r.has_id(id),
    {
        VectorIndex { records: Vec::new() }
    }

    pub fn len(&self) -> (n: usize)
        ensures
            n == self.records@.len(),
    {
        self.records.len()
    }

    /// Whether a record keyed by `id` is present.
    pub fn contains(&self, id: u64) -> (r: bool)
        ensures
            r == self.has_id(id),
    {
        let mut i: usize = 0;
        while i < self.records.len()
            invariant
                i <= self.records@.len(),
                forall|j: int| 0 <= j < i ==> self.records@[j].id != id,
            decreases self.records@.len() - i,
        {
            if self.records[i].id == id {
                return true;
            }
            i += 1;
        }
        false
    }

    fn find(&self, id: u64) -> (r: Option<usize>)
        ensures
            match r {
                Some(k) => k < self.records@.len() && self.records@[k as int].id == id,
                None => forall|j: int| 0 <= j < self.records@.len() ==> self.records@[j].id != id,
            },
    {
        let mut i: usize = 0;
        while i < self.records.len()
            invariant
                i <= self.records@.len(),
                forall|j: int| 0 <= j < i ==> self.records@[j].id != id,
            decreases self.records@.len() - i,
        {
            if self.records[i].id == id {
                return Some(i);
            }
            i += 1;
        }
        None
    }

    /// Removes the record keyed by `id`; an idempotent no-op when it is
    /// absent.
    pub fn delete(&mut self, id: u64) -> (removed: bool)
        requires
            old(self).wf(),
        ensures
            final(self).wf(),
            removed == old(self).has_id(id),
            !final(self).has_id(id),
            forall|o: u64|
                o != id ==> final(self).has_id(o) == old(self).has_id(o) && (old(self).has_id(o)
                    ==> final(self).rec_of(o) == old(self).rec_of(o)),
            final(self).records@.len() == old(self).records@.len() - (
            if old(self).has_id(id) {
                1int
            } else {
                0int
            }),
    {
        match self.find(id) {
            None => false,
            Some(k) => {
                let ghost pre = *self;
                self.records.remove(k);
                proof {
                    assert(self.records@ =~= pre.records@.subrange(0, k as int)
                        + pre.records@.subrange(k + 1, pre.records@.len() as int));
                    assert forall|o: u64| o != id && pre.has_id(o) implies final(self).has_id(o)
                        && final(self).rec_of(o) == pre.rec_of(o) by {
                        let j = pre.idx_of(o);
                        assert(0 <= j < pre.records@.len() && pre.records@[j].id == o);
                        assert(j != k);
                        if j < k {
                            assert(self.records@[j] == pre.records@[j]);
                        } else {
                            assert(self.records@[j - 1] == pre.records@[j]);
                        }
                        let j2 = self.idx_of(o);
                        assert(self.has_id(o));
                        assert(0 <= j2 < self.records@.len() && self.records@[j2].id == o);
                        if j2 < k {
                            assert(self.records@[j2] == pre.records@[j2]);
                        } else {
                            assert(self.records@[j2] == pre.records@[j2 + 1]);
                        }
                    }
                    assert forall|o: u64| o != id && final(self).has_id(o) implies pre.has_id(
                        o,
                    ) by {
                        let j = self.idx_of(o);
                        if j < k {
                            assert(pre.records@[j].id == o);
                        } else {
                            assert(pre.records@[j + 1].id == o);
                        }
                    }
                    assert forall|j: int| 0 <= j < self.records@.len() implies self.records@[j].id
                        != id by {
                        if j < k {
                            assert(self.records@[j] == pre.records@[j]);
                        } else {
                            assert(self.records@[j] == pre.records@[j + 1]);
                        }
                    }
                }
                true
            },
        }
    }

    /// Inserts or overwrites the record keyed by `rec.id`.
    pub fn upsert(&mut self, rec: VectorRecord)
        requires
            old(self).wf(),
            rec_wf(rec),
        ensures
            final(self).wf(),
            final(self).has_id(rec.id),
            final(self).rec_of(rec.id) == rec,
            forall|o: u64|
                o != rec.id ==> final(self).has_id(o) == old(self).has_id(o) && (old(self).has_id(
                    o,
                ) ==> final(self).rec_of(o) == old(self).rec_of(o)),
            final(self).records@.len() == old(self).records@.len() + (
            if old(self).has_id(rec.id) {
                0int
            } else {
                1int
            }),
    {
        let ghost pre = *self;
        let id = rec.id;
        self.delete(id);
        let ghost mid = *self;
        self.records.push(rec);
        proof {
            let n = mid.records@.len();
            assert(self.records@ =~= mid.records@.push(rec));
            assert(self.records@[n as int] == rec);
            assert(self.has_id(rec.id));
            assert(self.idx_of(rec.id) == n) by {
                let j = self.idx_of(rec.id);
                if j < n {
                    assert(mid.records@[j].id == rec.id);
                    assert(mid.has_id(rec.id));
                }
            }
            assert forall|o: u64| o != rec.id && mid.has_id(o) implies self.has_id(o)
                && self.rec_of(o) == mid.rec_of(o) by {
                let j = mid.idx_of(o);
                assert(self.records@[j].id == o);
                let j2 = self.idx_of(o);
                assert(j2 != n);
                assert(mid.records@[j2].id == o);
            }
            assert forall|o: u64| o != rec.id && self.has_id(o) implies mid.has_id(o) by {
                let j = self.idx_of(o);
                assert(j != n);
                assert(mid.records@[j].id == o);
            }
        }
    }

    /// The `k` nearest records to `q`, by non-increasing similarity.
    pub fn search(&self, q: &QVector, k: usize) -> (r: Vec<ScoredHit>)
        requires
            self.wf(),
            q.wf(),
        ensures
            search_post(*self, q.comps@, k as int, r@),
    {
        let n = self.records.len();
        let mut scores: Vec<i64> = Vec::new();
        let mut i: usize = 0;
        while i < n
            invariant
                i <= n,
                n == self.records@.len(),
                self.wf(),
                q.wf(),
                scores@.len() == i,
                forall|j: int|
                    0 <= j < i ==> #[trigger] scores@[j] == similarity_spec(
                        q.comps@,
                        self.records@[j].vector.comps@,
                    ),
            decreases n - i,
        {
            let s = similarity(q, &self.records[i].vector);
            scores.push(s);
            i += 1;
        }
        let mut used: Vec<bool> = Vec::new();
        let mut i2: usize = 0;
        while i2 < n
            invariant
                i2 <= n,
                used@.len() == i2,
                forall|j: int| 0 <= j < i2 ==> !(#[trigger] used@[j]),
            decreases n - i2,
        {
            used.push(false);
            i2 += 1;
        }
        let mut out: Vec<ScoredHit> = Vec::new();
        let ghost mut sel: Seq<int> = Seq::empty();
        proof {
            lemma_count_true_all_false(used@);
        }
        while out.len() < k && out.len() < n
            invariant
                n == self.records@.len(),
                self.wf(),
                q.wf(),
                scores@.len() == n,
                used@.len() == n,
                forall|j: int|
                    0 <= j < n ==> #[trigger] scores@[j] == similarity_spec(
                        q.comps@,
                        self.records@[j].vector.comps@,
                    ),
                sel.len() == out@.len(),
                out@.len() <= k,
                out@.len() <= n,
                count_true(used@) == out@.len(),
                forall|p: int| 0 <= p < sel.len() ==> 0 <= #[trigger] sel[p] < n,
                forall|p: int| 0 <= p < sel.len() ==> used@[#[trigger] sel[p]],
                forall|idx: int|
                    0 <= idx < n && #[trigger] used@[idx] ==> exists|p: int|
                        0 <= p < sel.len() && sel[p] == idx,
                forall|p: int, p2: int| 0 <= p < p2 < sel.len() ==> sel[p] != sel[p2],
                forall|p: int|
                    0 <= p < sel.len() ==> {
                        let h = #[trigger] out@[p];
                        &&& h.id == self.records@[sel[p]].id
                        &&& h.score == scores@[sel[p]]
                        &&& h.name@ == self.records@[sel[p]].payload.name@
                        &&& h.abbr_or_full@ == self.records@[sel[p]].payload.abbr_or_full@
                    },
                forall|idx: int, p: int|
                    0 <= idx < n && !(#[trigger] used@[idx]) && 0 <= p < out@.len() ==> scores@[idx]
                        <= #[trigger] out@[p].score,
                forall|p: int, p2: int| 0 <= p < p2 < out@.len() ==> out@[p].score >= out@[p2].score,
            decreases k - out@.len(),
        {
            proof {
                lemma_count_true_missing(used@);
            }
            let mut best: usize = 0;
            let mut have: bool = false;
            let mut j: usize = 0;
            while j < n
                invariant
                    j <= n,
                    n == used@.len(),
                    n == scores@.len(),
                    !have ==> forall|j2: int| 0 <= j2 < j ==> used@[j2],
                    have ==> best < n && !used@[best as int],
                    have ==> forall|j2: int|
                        0 <= j2 < j && !used@[j2] ==> scores@[j2] <= scores@[best as int],
                decreases n - j,
            {
                if !used[j] {
                    if !have {
                        best = j;
                        have = true;
                    } else if scores[j] > scores[best] {
                        best = j;
                    }
                }
                j += 1;
            }
            assert(have);
            let hit = ScoredHit {
                id: self.records[best].id,
                name: self.records[best].payload.name.clone(),
                abbr_or_full: self.records[best].payload.abbr_or_full.clone(),
                score: scores[best],
            };
            proof {
                lemma_count_true_update(used@, best as int);
            }
            used[best] = true;
            out.push(hit);
            proof {
                let old_sel = sel;
                sel = sel.push(best as int);
                assert forall|idx: int| 0 <= idx < n && #[trigger] used@[idx] implies exists|
                    p: int,
                |
                    0 <= p < sel.len() && sel[p] == idx by {
                    if idx == best as int {
                        assert(sel[sel.len() - 1] == idx);
                    } else {
                        assert(exists|p: int| 0 <= p < old_sel.len() && old_sel[p] == idx);
                        let p = choose|p: int| 0 <= p < old_sel.len() && old_sel[p] == idx;
                        assert(sel[p] == idx);
                    }
                }
            }
        }
        proof {
            if out@.len() == n {
                assert forall|id: u64| self.has_id(id) implies in_hits(out@, id) by {
                    let idx = self.idx_of(id);
                    assert(count_true(used@) == n);
                    lemma_count_true_full(used@);
                    assert(used@[idx]);
                    let p = choose|p: int| 0 <= p < sel.len() && sel[p] == idx;
                    assert(out@[p].id == id);
                }
            }
            assert forall|id: u64| self.has_id(id) && !in_hits(out@, id) implies forall|i3: int|
                0 <= i3 < out@.len() ==> similarity_spec(q.comps@, self.rec_of(id).vector.comps@)
                    <= #[trigger] out@[i3].score by {
                let idx = self.idx_of(id);
                if used@[idx] {
                    let p = choose|p: int| 0 <= p < sel.len() && sel[p] == idx;
                    assert(out@[p].id == id);
                    assert(false);
                }
            }
            assert forall|i3: int| 0 <= i3 < out@.len() implies self.has_id(#[trigger] out@[i3].id)
                && out@[i3].score == similarity_spec(
                q.comps@,
                self.rec_of(out@[i3].id).vector.comps@,
            ) && out@[i3].name@ == self.rec_of(out@[i3].id).payload.name@ && out@[i3].abbr_or_full@
                == self.rec_of(out@[i3].id).payload.abbr_or_full@ by {
                let s = sel[i3];
                assert(self.records@[s].id == out@[i3].id);
                assert(self.has_id(out@[i3].id));
                let j2 = self.idx_of(out@[i3].id);
                assert(self.records@[j2].id == out@[i3].id);
                assert(j2 == s);
            }
            assert forall|i3: int, j3: int| 0 <= i3 < j3 < out@.len() implies out@[i3].id
                != out@[j3].id by {
                assert(self.records@[sel[i3]].id == out@[i3].id);
                assert(self.records@[sel[j3]].id == out@[j3].id);
                assert(sel[i3] != sel[j3]);
            }
        }
        out
    }

    /// Clears the collection.
    pub fn delete_all(&mut self)
        ensures
            final(self).wf(),
            final(self).records@.len() == 0,
            forall|id: u64| !final(self).has_id(id),
    {
        self.records = Vec::new();
    }
}

/// Searching with a stored record's own vector ranks a perfect match
/// first: one hit comes back, its score is zero, and its stored vector
/// equals the query. When no other record holds the same vector, the hit
/// is that record itself.
pub proof fn lemma_self_search_tops(idx: VectorIndex, id: u64, r: Seq<ScoredHit>)
    requires
        idx.wf(),
        idx.has_id(id),
        search_post(idx, idx.rec_of(id).vector.comps@, 1, r),
    ensures
        r.len() == 1,
        r[0].score == 0,
        idx.rec_of(r[0].id).vector.comps@ == idx.rec_of(id).vector.comps@,
        (forall|o: u64|
            idx.has_id(o) && idx.rec_of(o).vector.comps@ == idx.rec_of(id).vector.comps@ ==> o
                == id) ==> r[0].id == id,
{
    let v = idx.rec_of(id).vector.comps@;
    let w = choose|i: int| 0 <= i < idx.records@.len() && idx.records@[i].id == id;
    assert(idx.records@.len() >= 1);
    assert(r.len() == 1);
    lemma_similarity_self(v);
    let h = r[0];
    assert(idx.has_id(h.id));
    lemma_similarity_nonpos(v, idx.rec_of(h.id).vector.comps@);
    if h.id == id {
        assert(h.score == 0);
    } else {
        assert(!in_hits(r, id)) by {
            if in_hits(r, id) {
                let i = choose|i: int| 0 <= i < r.len() && r[i].id == id;
                assert(i == 0);
            }
        }
        assert(similarity_spec(v, idx.rec_of(id).vector.comps@) <= r[0].score);
        assert(h.score == 0);
    }
    assert(rec_wf(idx.records@[idx.idx_of(id)]));
    assert(rec_wf(idx.records@[idx.idx_of(h.id)]));
    lemma_similarity_zero_is_equal(v, idx.rec_of(h.id).vector.comps@);
    assert(idx.rec_of(h.id).vector.comps@ =~= v);
    if forall|o: u64|
        idx.has_id(o) && idx.rec_of(o).vector.comps@ == idx.rec_of(id).vector.comps@ ==> o == id {
        assert(idx.has_id(h.id) && idx.rec_of(h.id).vector.comps@ == idx.rec_of(
            id,
        ).vector.comps@);
        assert(h.id == id);
    }
}

/// A deleted id never comes back: once a collection no longer holds an
/// id, no search over it returns that id.
pub proof fn lemma_deleted_never_returned(
    idx: VectorIndex,
    id: u64,
    q: Seq<i64>,
    k: int,
    r: Seq<ScoredHit>,
)
    requires
        !idx.has_id(id),
        search_post(idx, q, k, r),
    ensures
        forall|i: int| 0 <= i < r.len() ==> r[i].id != id,
{
    assert forall|i: int| 0 <= i < r.len() implies r[i].id != id by {
        assert(idx.has_id(r[i].id));
    }
}

} // verus!
