//! Similarity index mirror: one derived vector collection per catalog
//! entity kind, rebuildable from the catalog.
//!
//! The mirror is not transactional with the catalog: a mirror write is
//! attempted right after a successful catalog write, and when it fails
//! the catalog write stands. The caller receives a distinct
//! partial-success status, and the sole repair path is a bulk rebuild
//! from the catalog rows. Collections are created lazily, with the fixed
//! vector width of the embedding output.

use vstd::prelude::*;

use crate::catalog::StandardField;
use crate::catalog::WordRoot;
use crate::catalog::roots_unique_ids;
use crate::index::QVector;
use crate::index::VectorIndex;
use crate::index::VectorPayload;
use crate::index::VectorRecord;
use crate::index::rec_wf;

verus! {

/// The two disjoint index collections, one per catalog entity kind.
#[derive(Clone, Copy, Debug, PartialEq, Eq, Structural)]
pub enum CollectionKind {
    Roots,
    Fields,
}

impl CollectionKind {
    /// The collection's stable name.
    pub fn name(&self) -> (r: &'static str)
        ensures
            *self is Roots ==> r@ == "word_roots"@,
            *self is Fields ==> r@ == "standard_fields"@,
    {
        match self {
            CollectionKind::Roots => "word_roots",
            CollectionKind::Fields => "standard_fields",
        }
    }
}

/// The outcome of one mutation-triggered mirror synchronization, as the
/// caller must see it.
#[derive(Clone, Copy, Debug, PartialEq, Eq, Structural)]
pub enum SyncStatus {
    /// Catalog and mirror both committed.
    Committed,
    /// The catalog committed but the mirror did not: the stores have
    /// drifted, and a bulk rebuild is the recovery path.
    Partial,
    /// The catalog write itself failed; the mirror was never touched.
    Failed,
}

/// Classifies a mutation's outcome: the catalog write decides between
/// failure and the rest, and the embedding plus the mirror write decide
/// between full and partial success. Never silently drops a drift.
pub fn sync_outcome(catalog_ok: bool, embed_ok: bool, mirror_ok: bool) -> (r: SyncStatus)
    ensures
        (r is Failed) <==> !catalog_ok,
        (r is Committed) <==> (catalog_ok && embed_ok && mirror_ok),
        (r is Partial) <==> (catalog_ok && !(embed_ok && mirror_ok)),
{
    if !catalog_ok {
        SyncStatus::Failed
    } else if embed_ok && mirror_ok {
        SyncStatus::Committed
    } else {
        SyncStatus::Partial
    }
}

/// The mirror record a word root and its vector derive to: keyed by the
/// row's id, carrying the name fields as payload.
pub fn root_vector_record(root: &WordRoot, vector: QVector) -> (r: VectorRecord)
    requires
        root.id >= 0,
        vector.wf(),
    ensures
        rec_wf(r),
        r.id == root.id as u64,
        r.vector.comps@ == vector.comps@,
        r.payload.name@ == root.cn_name@,
        r.payload.abbr_or_full@ == root.en_abbr@,
{
    VectorRecord {
        id: root.id as u64,
        vector,
        payload: VectorPayload {
            name: root.cn_name.clone(),
            abbr_or_full: root.en_abbr.clone(),
        },
    }
}

/// The mirror record a standard field and its vector derive to.
pub fn field_vector_record(field: &StandardField, vector: QVector) -> (r: VectorRecord)
    requires
        field.id >= 0,
        vector.wf(),
    ensures
        rec_wf(r),
        r.id == field.id as u64,
        r.vector.comps@ == vector.comps@,
        r.payload.name@ == field.field_cn_name@,
        r.payload.abbr_or_full@ == field.field_en_name@,
{
    VectorRecord {
        id: field.id as u64,
        vector,
        payload: VectorPayload {
            name: field.field_cn_name.clone(),
            abbr_or_full: field.field_en_name.clone(),
        },
    }
}

/// The similarity index mirror: a lazily created collection per entity
/// kind. Every record it holds is derived from a catalog row and carries
/// no independent information.
pub struct Mirror {
    pub roots: Option<VectorIndex>,
    pub fields: Option<VectorIndex>,
}

impl Mirror {
    /// The collection of a kind, where it exists.
    pub open spec fn coll(&self, kind: CollectionKind) -> Option<VectorIndex> {
        match kind {
            CollectionKind::Roots => self.roots,
            CollectionKind::Fields => self.fields,
        }
    }

    pub open spec fn wf(&self) -> bool {
        &&& (self.roots matches Some(ix) ==> ix.wf())
        &&& (self.fields matches Some(ix) ==> ix.wf())
    }

    pub fn new() -> (r: Mirror)
        ensures
            r.wf(),
            r.coll(CollectionKind::Roots) is None,
            r.coll(CollectionKind::Fields) is None,
    {
        Mirror { roots: None, fields: None }
    }

    /// Whether the collection namespace exists.
    pub fn collection_exists(&self, kind: CollectionKind) -> (r: bool)
        ensures
            r == (self.coll(kind) is Some),
    {
        match kind {
            CollectionKind::Roots => self.roots.is_some(),
            CollectionKind::Fields => self.fields.is_some(),
        }
    }

    /// Creates the collection namespace when absent; the other
    /// collection is untouched.
    pub fn ensure_collection(&mut self, kind: CollectionKind)
        requires
            old(self).wf(),
        ensures
            final(self).wf(),
            final(self).coll(kind) matches Some(ix) && ix.wf(),
            old(self).coll(kind) matches Some(prev) ==> final(self).coll(kind) == Some(prev),
            old(self).coll(kind) is None ==> (final(self).coll(kind) matches Some(ix)
                && ix.records@.len() == 0),
            forall|o: CollectionKind| o != kind ==> final(self).coll(o) == old(self).coll(o),
    {
        match kind {
            CollectionKind::Roots => {
                if self.roots.is_none() {
                    self.roots = Some(VectorIndex::new());
                }
            },
            CollectionKind::Fields => {
                if self.fields.is_none() {
                    self.fields = Some(VectorIndex::new());
                }
            },
        }
    }

    /// Borrows the collection of a kind, where it exists.
    pub fn collection(&self, kind: CollectionKind) -> (r: Option<&VectorIndex>)
        ensures
            match r {
                Some(ix) => self.coll(kind) == Some(*ix),
                None => self.coll(kind) is None,
            },
    {
        match kind {
            CollectionKind::Roots => self.roots.as_ref(),
            CollectionKind::Fields => self.fields.as_ref(),
        }
    }

    /// Inserts or overwrites one record, creating the collection lazily.
    pub fn upsert(&mut self, kind: CollectionKind, rec: VectorRecord)
        requires
            old(self).wf(),
            rec_wf(rec),
        ensures
            final(self).wf(),
            final(self).coll(kind) matches Some(ix) && {
                &&& ix.wf()
                &&& ix.has_id(rec.id)
                &&& ix.rec_of(rec.id) == rec
                &&& forall|o: u64|
                    #![trigger ix.has_id(o)]
                    o != rec.id ==> match old(self).coll(kind) {
                        Some(prev) => ix.has_id(o) == prev.has_id(o) && (prev.has_id(o)
                            ==> ix.rec_of(o) == prev.rec_of(o)),
                        None => !ix.has_id(o),
                    }
            },
            forall|o: CollectionKind| o != kind ==> final(self).coll(o) == old(self).coll(o),
    {
        self.ensure_collection(kind);
        match kind {
            CollectionKind::Roots => {
                match &mut self.roots {
                    Some(ix) => ix.upsert(rec),
                    None => {},
                }
            },
            CollectionKind::Fields => {
                match &mut self.fields {
                    Some(ix) => ix.upsert(rec),
                    None => {},
                }
            },
        }
    }

    /// Removes one record; an idempotent no-op when the id or the
    /// collection is absent.
    pub fn delete(&mut self, kind: CollectionKind, id: u64)
        requires
            old(self).wf(),
        ensures
            final(self).wf(),
            match old(self).coll(kind) {
                Some(prev) => final(self).coll(kind) matches Some(ix) && {
                    &&& ix.wf()
                    &&& !ix.has_id(id)
                    &&& forall|o: u64|
                        o != id ==> ix.has_id(o) == prev.has_id(o) && (prev.has_id(o)
                            ==> ix.rec_of(o) == prev.rec_of(o))
                },
                None => final(self).coll(kind) is None,
            },
            forall|o: CollectionKind| o != kind ==> final(self).coll(o) == old(self).coll(o),
    {
        match kind {
            CollectionKind::Roots => {
                match &mut self.roots {
                    Some(ix) => {
                        ix.delete(id);
                    },
                    None => {},
                }
            },
            CollectionKind::Fields => {
                match &mut self.fields {
                    Some(ix) => {
                        ix.delete(id);
                    },
                    None => {},
                }
            },
        }
    }

    /// Clears the collection; the namespace stays.
    pub fn delete_all(&mut self, kind: CollectionKind)
        requires
            old(self).wf(),
        ensures
            final(self).wf(),
            match old(self).coll(kind) {
                Some(_) => final(self).coll(kind) matches Some(ix) && ix.records@.len() == 0,
                None => final(self).coll(kind) is None,
            },
            forall|o: CollectionKind| o != kind ==> final(self).coll(o) == old(self).coll(o),
    {
        match kind {
            CollectionKind::Roots => {
                match &mut self.roots {
                    Some(ix) => ix.delete_all(),
                    None => {},
                }
            },
            CollectionKind::Fields => {
                match &mut self.fields {
                    Some(ix) => ix.delete_all(),
                    None => {},
                }
            },
        }
    }

    /// Replaces the collection's contents with exactly the given
    /// records, creating the namespace when absent; the sole repair path
    /// for drift. Returns how many records the collection now holds.
    pub fn rebuild(&mut self, kind: CollectionKind, records: Vec<VectorRecord>) -> (count: usize)
        requires
            old(self).wf(),
            forall|i: int| 0 <= i < records@.len() ==> rec_wf(#[trigger] records@[i]),
            forall|i: int, j: int|
                0 <= i < j < records@.len() ==> records@[i].id != records@[j].id,
        ensures
            final(self).wf(),
            count == records@.len(),
            final(self).coll(kind) matches Some(ix) && {
                &&& ix.wf()
                &&& forall|i: int|
                    0 <= i < records@.len() ==> ix.has_id(#[trigger] records@[i].id)
                        && ix.rec_of(records@[i].id) == records@[i]
                &&& forall|id: u64|
                    ix.has_id(id) ==> exists|i: int|
                        0 <= i < records@.len() && records@[i].id == id
            },
            forall|o: CollectionKind| o != kind ==> final(self).coll(o) == old(self).coll(o),
    {
        self.ensure_collection(kind);
        self.delete_all(kind);
        let ghost all = records@;
        let n = records.len();
        let mut rest = records;
        let mut i: usize = 0;
        while i < n
            invariant
                i <= n,
                n == all.len(),
                rest@ == all.skip(i as int),
                self.wf(),
                forall|j: int| 0 <= j < all.len() ==> rec_wf(#[trigger] all[j]),
                forall|j: int, j2: int| 0 <= j < j2 < all.len() ==> all[j].id != all[j2].id,
                self.coll(kind) matches Some(ix) && {
                    &&& ix.wf()
                    &&& forall|j: int|
                        0 <= j < i ==> ix.has_id(#[trigger] all[j].id) && ix.rec_of(all[j].id)
                            == all[j]
                    &&& forall|id: u64|
                        ix.has_id(id) ==> exists|j: int| 0 <= j < i && all[j].id == id
                },
                forall|o: CollectionKind| o != kind ==> self.coll(o) == old(self).coll(o),
            decreases n - i,
        {
            let rec = rest.remove(0);
            proof {
                assert(rec == all[i as int]);
            }
            let ghost prev_ix = self.coll(kind)->Some_0;
            self.upsert(kind, rec);
            i += 1;
            proof {
                assert(rest@ =~= all.skip(i as int));
                let ix = self.coll(kind)->Some_0;
                assert(ix.has_id(all[i - 1].id) && ix.rec_of(all[i - 1].id) == all[i - 1]);
                assert forall|j: int|
                    0 <= j < i implies ix.has_id(#[trigger] all[j].id) && ix.rec_of(all[j].id)
                    == all[j] by {
                    if j < i - 1 {
                        assert(all[j].id != all[i - 1].id);
                        assert(prev_ix.has_id(all[j].id) && prev_ix.rec_of(all[j].id) == all[j]);
                        assert(ix.has_id(all[j].id) == prev_ix.has_id(all[j].id));
                        assert(ix.rec_of(all[j].id) == prev_ix.rec_of(all[j].id));
                    }
                }
                assert forall|id: u64| ix.has_id(id) implies exists|j: int|
                    0 <= j < i && all[j].id == id by {
                    if id == all[i - 1].id {
                        assert(all[i - 1].id == id);
                    } else {
                        assert(prev_ix.has_id(id));
                        let j = choose|j: int| 0 <= j < i - 1 && all[j].id == id;
                        assert(all[j].id == id);
                    }
                }
            }
        }
        n
    }
}

impl Mirror {
    /// Mirrors one committed word-root write: with an embedding in hand
    /// the root's record is upserted and the write is fully committed;
    /// without one the mirror is left untouched and the caller sees the
    /// partial status. Never rolls back the catalog write it follows.
    pub fn sync_root(&mut self, root: &WordRoot, emb: Option<QVector>) -> (r: SyncStatus)
        requires
            old(self).wf(),
            root.id >= 0,
            emb matches Some(v) ==> v.wf(),
        ensures
            final(self).wf(),
            (r is Committed) <==> emb is Some,
            (r is Partial) <==> emb is None,
            emb is None ==> *final(self) == *old(self),
            emb matches Some(v) ==> (final(self).coll(CollectionKind::Roots) matches Some(ix) && {
                &&& ix.has_id(root.id as u64)
                &&& ix.rec_of(root.id as u64).vector.comps@ == v.comps@
                &&& ix.rec_of(root.id as u64).payload.name@ == root.cn_name@
                &&& ix.rec_of(root.id as u64).payload.abbr_or_full@ == root.en_abbr@
            }),
            forall|o: CollectionKind|
                o != CollectionKind::Roots ==> final(self).coll(o) == old(self).coll(o),
    {
        match emb {
            None => SyncStatus::Partial,
            Some(v) => {
                let rec = root_vector_record(root, v);
                self.upsert(CollectionKind::Roots, rec);
                SyncStatus::Committed
            },
        }
    }

    /// Mirrors one committed standard-field write, as `sync_root` does
    /// for roots.
    pub fn sync_field(&mut self, field: &StandardField, emb: Option<QVector>) -> (r: SyncStatus)
        requires
            old(self).wf(),
            field.id >= 0,
            emb matches Some(v) ==> v.wf(),
        ensures
            final(self).wf(),
            (r is Committed) <==> emb is Some,
            (r is Partial) <==> emb is None,
            emb is None ==> *final(self) == *old(self),
            emb matches Some(v) ==> (final(self).coll(CollectionKind::Fields) matches Some(ix) && {
                &&& ix.has_id(field.id as u64)
                &&& ix.rec_of(field.id as u64).vector.comps@ == v.comps@
                &&& ix.rec_of(field.id as u64).payload.name@ == field.field_cn_name@
                &&& ix.rec_of(field.id as u64).payload.abbr_or_full@ == field.field_en_name@
            }),
            forall|o: CollectionKind|
                o != CollectionKind::Fields ==> final(self).coll(o) == old(self).coll(o),
    {
        match emb {
            None => SyncStatus::Partial,
            Some(v) => {
                let rec = field_vector_record(field, v);
                self.upsert(CollectionKind::Fields, rec);
                SyncStatus::Committed
            },
        }
    }

    /// Re-derives the roots collection from the catalog rows and their
    /// freshly computed embeddings, replacing everything it held: the
    /// startup synchronization and the sole repair path for drift.
    /// Returns how many rows were mirrored.
    pub fn bulk_resync_roots(&mut self, rows: &Vec<WordRoot>, vectors: Vec<QVector>) -> (count:
        usize)
        requires
            old(self).wf(),
            vectors@.len() == rows@.len(),
            forall|i: int| 0 <= i < vectors@.len() ==> (#[trigger] vectors@[i]).wf(),
            forall|i: int| 0 <= i < rows@.len() ==> (#[trigger] rows@[i]).id >= 0,
            roots_unique_ids(rows@),
        ensures
            final(self).wf(),
            count == rows@.len(),
            final(self).coll(CollectionKind::Roots) matches Some(ix) && {
                &&& forall|i: int|
                    0 <= i < rows@.len() ==> ix.has_id((#[trigger] rows@[i]).id as u64)
                        && ix.rec_of(rows@[i].id as u64).vector.comps@ == vectors@[i].comps@
                        && ix.rec_of(rows@[i].id as u64).payload.name@ == rows@[i].cn_name@
                        && ix.rec_of(rows@[i].id as u64).payload.abbr_or_full@
                        == rows@[i].en_abbr@
                &&& forall|id: u64|
                    ix.has_id(id) ==> exists|i: int|
                        0 <= i < rows@.len() && rows@[i].id as u64 == id
            },
            forall|o: CollectionKind|
                o != CollectionKind::Roots ==> final(self).coll(o) == old(self).coll(o),
    {
        let ghost all = vectors@;
        let n = rows.len();
        let mut rest = vectors;
        let mut records: Vec<VectorRecord> = Vec::new();
        let mut i: usize = 0;
        while i < n
            invariant
                i <= n,
                n == rows@.len(),
                n == all.len(),
                rest@ == all.skip(i as int),
                forall|j: int| 0 <= j < all.len() ==> (#[trigger] all[j]).wf(),
                forall|j: int| 0 <= j < rows@.len() ==> (#[trigger] rows@[j]).id >= 0,
                roots_unique_ids(rows@),
                records@.len() == i,
                forall|j: int|
                    0 <= j < i ==> {
                        let rec = #[trigger] records@[j];
                        &&& rec_wf(rec)
                        &&& rec.id == rows@[j].id as u64
                        &&& rec.vector.comps@ == all[j].comps@
                        &&& rec.payload.name@ == rows@[j].cn_name@
                        &&& rec.payload.abbr_or_full@ == rows@[j].en_abbr@
                    },
            decreases n - i,
        {
            let v = rest.remove(0);
            proof {
                assert(v == all[i as int]);
            }
            let rec = root_vector_record(&rows[i], v);
            records.push(rec);
            i += 1;
            proof {
                assert(rest@ =~= all.skip(i as int));
            }
        }
        proof {
            assert forall|a: int, b: int| 0 <= a < b < records@.len() implies records@[a].id
                != records@[b].id by {
                assert(rows@[a].id != rows@[b].id);
            }
        }
        let ghost recs = records@;
        let count = self.rebuild(CollectionKind::Roots, records);
        proof {
            let ix = self.coll(CollectionKind::Roots)->Some_0;
            assert forall|i: int| 0 <= i < rows@.len() implies ix.has_id(
                (#[trigger] rows@[i]).id as u64,
            ) && ix.rec_of(rows@[i].id as u64).vector.comps@ == all[i].comps@ && ix.rec_of(
                rows@[i].id as u64,
            ).payload.name@ == rows@[i].cn_name@ && ix.rec_of(
                rows@[i].id as u64,
            ).payload.abbr_or_full@ == rows@[i].en_abbr@ by {
                assert(recs[i].id == rows@[i].id as u64);
                assert(ix.has_id(recs[i].id) && ix.rec_of(recs[i].id) == recs[i]);
            }
            assert forall|id: u64| ix.has_id(id) implies exists|j: int|
                0 <= j < rows@.len() && rows@[j].id as u64 == id by {
                let j = choose|j: int| 0 <= j < recs.len() && #[trigger] recs[j].id == id;
                assert(rows@[j].id as u64 == id);
            }
        }
        count
    }

    /// Re-derives the fields collection from the catalog rows and their
    /// embeddings, as `bulk_resync_roots` does for roots.
    pub fn bulk_resync_fields(
        &mut self,
        rows: &Vec<StandardField>,
        vectors: Vec<QVector>,
    ) -> (count: usize)
        requires
            old(self).wf(),
            vectors@.len() == rows@.len(),
            forall|i: int| 0 <= i < vectors@.len() ==> (#[trigger] vectors@[i]).wf(),
            forall|i: int| 0 <= i < rows@.len() ==> (#[trigger] rows@[i]).id >= 0,
            forall|i: int, j: int| 0 <= i < j < rows@.len() ==> rows@[i].id != rows@[j].id,
        ensures
            final(self).wf(),
            count == rows@.len(),
            final(self).coll(CollectionKind::Fields) matches Some(ix) && {
                &&& forall|i: int|
                    0 <= i < rows@.len() ==> ix.has_id((#[trigger] rows@[i]).id as u64)
                        && ix.rec_of(rows@[i].id as u64).vector.comps@ == vectors@[i].comps@
                        && ix.rec_of(rows@[i].id as u64).payload.name@ == rows@[i].field_cn_name@
                        && ix.rec_of(rows@[i].id as u64).payload.abbr_or_full@
                        == rows@[i].field_en_name@
                &&& forall|id: u64|
                    ix.has_id(id) ==> exists|i: int|
                        0 <= i < rows@.len() && rows@[i].id as u64 == id
            },
            forall|o: CollectionKind|
                o != CollectionKind::Fields ==> final(self).coll(o) == old(self).coll(o),
    {
        let ghost all = vectors@;
        let n = rows.len();
        let mut rest = vectors;
        let mut records: Vec<VectorRecord> = Vec::new();
        let mut i: usize = 0;
        while i < n
            invariant
                i <= n,
                n == rows@.len(),
                n == all.len(),
                rest@ == all.skip(i as int),
                forall|j: int| 0 <= j < all.len() ==> (#[trigger] all[j]).wf(),
                forall|j: int| 0 <= j < rows@.len() ==> (#[trigger] rows@[j]).id >= 0,
                forall|a: int, b: int| 0 <= a < b < rows@.len() ==> rows@[a].id != rows@[b].id,
                records@.len() == i,
                forall|j: int|
                    0 <= j < i ==> {
                        let rec = #[trigger] records@[j];
                        &&& rec_wf(rec)
                        &&& rec.id == rows@[j].id as u64
                        &&& rec.vector.comps@ == all[j].comps@
                        &&& rec.payload.name@ == rows@[j].field_cn_name@
                        &&& rec.payload.abbr_or_full@ == rows@[j].field_en_name@
                    },
            decreases n - i,
        {
            let v = rest.remove(0);
            proof {
                assert(v == all[i as int]);
            }
            let rec = field_vector_record(&rows[i], v);
            records.push(rec);
            i += 1;
            proof {
                assert(rest@ =~= all.skip(i as int));
            }
        }
        proof {
            assert forall|a: int, b: int| 0 <= a < b < records@.len() implies records@[a].id
                != records@[b].id by {
                assert(rows@[a].id != rows@[b].id);
            }
        }
        let ghost recs = records@;
        let count = self.rebuild(CollectionKind::Fields, records);
        proof {
            let ix = self.coll(CollectionKind::Fields)->Some_0;
            assert forall|i: int| 0 <= i < rows@.len() implies ix.has_id(
                (#[trigger] rows@[i]).id as u64,
            ) && ix.rec_of(rows@[i].id as u64).vector.comps@ == all[i].comps@ && ix.rec_of(
                rows@[i].id as u64,
            ).payload.name@ == rows@[i].field_cn_name@ && ix.rec_of(
                rows@[i].id as u64,
            ).payload.abbr_or_full@ == rows@[i].field_en_name@ by {
                assert(recs[i].id == rows@[i].id as u64);
                assert(ix.has_id(recs[i].id) && ix.rec_of(recs[i].id) == recs[i]);
            }
            assert forall|id: u64| ix.has_id(id) implies exists|j: int|
                0 <= j < rows@.len() && rows@[j].id as u64 == id by {
                let j = choose|j: int| 0 <= j < recs.len() && #[trigger] recs[j].id == id;
                assert(rows@[j].id as u64 == id);
            }
        }
        count
    }
}

} // verus!
