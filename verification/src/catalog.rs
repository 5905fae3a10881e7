//! Catalog row types and row-level operations.
//!
//! A `WordRoot` is the atomic canonical naming unit; a `StandardField` is
//! a named concept composed of an ordered sequence of word-root ids. The
//! authoritative catalog lives in an external relational store; the
//! functions here work on snapshots of its rows, handed in as plain
//! vectors. Timestamps are carried as epoch seconds.

use vstd::prelude::*;
use vstd::string::StringExecFns;

use crate::text::normalize_terms;
use crate::text::normalized_terms_spec;

verus! {

/// Atomic canonical naming unit: a Chinese canonical name mapped to an
/// abbreviation, with an optional full name, synonym list and remark.
pub struct WordRoot {
    pub id: i32,
    pub cn_name: String,
    pub en_abbr: String,
    pub en_full_name: Option<String>,
    pub associated_terms: Option<String>,
    pub remark: Option<String>,
    pub created_at: Option<i64>,
}

/// Payload for creating or updating a word root.
pub struct CreateWordRoot {
    pub cn_name: String,
    pub en_abbr: String,
    pub en_full_name: Option<String>,
    pub associated_terms: Option<String>,
    pub remark: Option<String>,
}

/// A named concept composed of an ordered sequence of word-root ids; the
/// order defines identifier concatenation order.
pub struct StandardField {
    pub id: i32,
    pub field_cn_name: String,
    pub field_en_name: String,
    pub composition_ids: Vec<i32>,
    pub data_type: Option<String>,
    pub associated_terms: Option<String>,
    pub is_standard: bool,
    pub created_at: Option<i64>,
}

/// Payload for creating or updating a standard field.
pub struct CreateFieldRequest {
    pub field_cn_name: String,
    pub field_en_name: String,
    pub composition_ids: Vec<i32>,
    pub data_type: Option<String>,
    pub associated_terms: Option<String>,
}

/// The character view of an optional string, absence kept as absence.
pub open spec fn opt_view(o: Option<String>) -> Option<Seq<char>> {
    match o {
        Some(s) => Some(s@),
        None => None,
    }
}

/// The character view of an optional string, absence as the empty string.
pub open spec fn opt_text(o: Option<String>) -> Seq<char> {
    match o {
        Some(s) => s@,
        None => Seq::empty(),
    }
}

/// Two word roots hold the same values, field by field.
pub open spec fn root_eq(a: WordRoot, b: WordRoot) -> bool {
    &&& a.id == b.id
    &&& a.cn_name@ == b.cn_name@
    &&& a.en_abbr@ == b.en_abbr@
    &&& opt_view(a.en_full_name) == opt_view(b.en_full_name)
    &&& opt_view(a.associated_terms) == opt_view(b.associated_terms)
    &&& opt_view(a.remark) == opt_view(b.remark)
    &&& a.created_at == b.created_at
}

/// Two standard fields hold the same values, field by field.
pub open spec fn field_eq(a: StandardField, b: StandardField) -> bool {
    &&& a.id == b.id
    &&& a.field_cn_name@ == b.field_cn_name@
    &&& a.field_en_name@ == b.field_en_name@
    &&& a.composition_ids@ == b.composition_ids@
    &&& opt_view(a.data_type) == opt_view(b.data_type)
    &&& opt_view(a.associated_terms) == opt_view(b.associated_terms)
    &&& a.is_standard == b.is_standard
    &&& a.created_at == b.created_at
}

/// A well-formed catalog snapshot assigns every row a distinct id.
pub open spec fn roots_unique_ids(rows: Seq<WordRoot>) -> bool {
    forall|i: int, j: int| 0 <= i < j < rows.len() ==> rows[i].id != rows[j].id
}

pub fn clone_opt_string(o: &Option<String>) -> (r: Option<String>)
    ensures
        opt_view(r) == opt_view(*o),
{
    match o {
        None => None,
        Some(s) => Some(s.clone()),
    }
}

pub fn clone_root(r: &WordRoot) -> (c: WordRoot)
    ensures
        root_eq(c, *r),
{
    WordRoot {
        id: r.id,
        cn_name: r.cn_name.clone(),
        en_abbr: r.en_abbr.clone(),
        en_full_name: clone_opt_string(&r.en_full_name),
        associated_terms: clone_opt_string(&r.associated_terms),
        remark: clone_opt_string(&r.remark),
        created_at: r.created_at,
    }
}

pub fn clone_field(f: &StandardField) -> (c: StandardField)
    ensures
        field_eq(c, *f),
{
    let mut ids: Vec<i32> = Vec::new();
    let mut i: usize = 0;
    while i < f.composition_ids.len()
        invariant
            i <= f.composition_ids@.len(),
            ids@ == f.composition_ids@.take(i as int),
        decreases f.composition_ids@.len() - i,
    {
        ids.push(f.composition_ids[i]);
        i += 1;
        assert(ids@ =~= f.composition_ids@.take(i as int));
    }
    assert(f.composition_ids@.take(f.composition_ids@.len() as int) =~= f.composition_ids@);
    StandardField {
        id: f.id,
        field_cn_name: f.field_cn_name.clone(),
        field_en_name: f.field_en_name.clone(),
        composition_ids: ids,
        data_type: clone_opt_string(&f.data_type),
        associated_terms: clone_opt_string(&f.associated_terms),
        is_standard: f.is_standard,
        created_at: f.created_at,
    }
}

/// Builds the catalog row a creation request denotes, with the synonym
/// list normalized and the id and timestamp the store assigned.
pub fn root_from_create(req: CreateWordRoot, id: i32, created_at: Option<i64>) -> (r: WordRoot)
    ensures
        r.id == id,
        r.cn_name@ == req.cn_name@,
        r.en_abbr@ == req.en_abbr@,
        opt_view(r.en_full_name) == opt_view(req.en_full_name),
        req.associated_terms is None <==> r.associated_terms is None,
        req.associated_terms matches Some(s) ==> (r.associated_terms matches Some(t) && t@
            == normalized_terms_spec(s@)),
        opt_view(r.remark) == opt_view(req.remark),
        r.created_at == created_at,
{
    WordRoot {
        id,
        cn_name: req.cn_name,
        en_abbr: req.en_abbr,
        en_full_name: req.en_full_name,
        associated_terms: normalize_terms(req.associated_terms),
        remark: req.remark,
        created_at,
    }
}

/// The index of the row carrying `id`, if one does.
pub fn find_root_by_id(rows: &Vec<WordRoot>, id: i32) -> (r: Option<usize>)
    ensures
        match r {
            Some(k) => k < rows@.len() && rows@[k as int].id == id,
            None => forall|j: int| 0 <= j < rows@.len() ==> rows@[j].id != id,
        },
{
    let mut i: usize = 0;
    while i < rows.len()
        invariant
            i <= rows@.len(),
            forall|j: int| 0 <= j < i ==> rows@[j].id != id,
        decreases rows@.len() - i,
    {
        if rows[i].id == id {
            return Some(i);
        }
        i += 1;
    }
    None
}

/// The rows a composition id list denotes, in the order of the list; an
/// id the snapshot does not carry is passed over.
pub open spec fn ordered_roots_spec(rows: Seq<WordRoot>, ids: Seq<i32>) -> Seq<WordRoot>
    decreases ids.len(),
{
    if ids.len() == 0 {
        Seq::empty()
    } else {
        let rest = ordered_roots_spec(rows, ids.drop_last());
        if exists|j: int| 0 <= j < rows.len() && rows[j].id == ids.last() {
            rest.push(rows[choose|j: int| 0 <= j < rows.len() && rows[j].id == ids.last()])
        } else {
            rest
        }
    }
}

/// Resolves a field's ordered composition id list to its word-root rows,
/// keeping the list's order.
pub fn resolve_composition(rows: &Vec<WordRoot>, ids: &Vec<i32>) -> (r: Vec<WordRoot>)
    requires
        roots_unique_ids(rows@),
    ensures
        r@.len() == ordered_roots_spec(rows@, ids@).len(),
        forall|i: int|
            0 <= i < r@.len() ==> root_eq(r@[i], ordered_roots_spec(rows@, ids@)[i]),
{
    let mut r: Vec<WordRoot> = Vec::new();
    let mut i: usize = 0;
    while i < ids.len()
        invariant
            i <= ids@.len(),
            roots_unique_ids(rows@),
            r@.len() == ordered_roots_spec(rows@, ids@.take(i as int)).len(),
            forall|k: int|
                0 <= k < r@.len() ==> root_eq(r@[k], ordered_roots_spec(rows@, ids@.take(i as int))[k]),
        decreases ids@.len() - i,
    {
        proof {
            assert(ids@.take(i + 1).drop_last() =~= ids@.take(i as int));
            assert(ids@.take(i + 1).last() == ids@[i as int]);
        }
        match find_root_by_id(rows, ids[i]) {
            Some(k) => {
                let c = clone_root(&rows[k]);
                proof {
                    let w = choose|j: int| 0 <= j < rows@.len() && rows@[j].id == ids@[i as int];
                    assert(rows@[w].id == rows@[k as int].id);
                    assert(w == k);
                }
                r.push(c);
            },
            None => {},
        }
        i += 1;
    }
    proof {
        assert(ids@.take(ids@.len() as int) =~= ids@);
    }
    r
}

/// The text a word root is embedded from: canonical name, full name and
/// synonym list, space-joined, absent parts as empty.
pub open spec fn root_embed_text_spec(r: WordRoot) -> Seq<char> {
    r.cn_name@ + seq![' '] + opt_text(r.en_full_name) + seq![' '] + opt_text(r.associated_terms)
}

/// The text a standard field is embedded from: canonical name and synonym
/// list, space-joined, an absent list as empty.
pub open spec fn field_embed_text_spec(f: StandardField) -> Seq<char> {
    f.field_cn_name@ + seq![' '] + opt_text(f.associated_terms)
}

fn append_opt(out: &mut String, o: &Option<String>)
    ensures
        final(out)@ == old(out)@ + opt_text(*o),
{
    match o {
        None => {
            assert(out@ =~= out@ + Seq::<char>::empty());
        },
        Some(s) => {
            out.append(s.as_str());
        },
    }
}

fn append_space(out: &mut String)
    ensures
        final(out)@ == old(out)@ + seq![' '],
{
    proof {
        reveal_strlit(" ");
    }
    out.append(" ");
    assert(" "@ =~= seq![' ']);
}

/// The embedding input for a word root.
pub fn root_embed_text(r: &WordRoot) -> (t: String)
    ensures
        t@ == root_embed_text_spec(*r),
{
    let mut out = String::new();
    out.append(r.cn_name.as_str());
    append_space(&mut out);
    append_opt(&mut out, &r.en_full_name);
    append_space(&mut out);
    append_opt(&mut out, &r.associated_terms);
    out
}

/// The embedding input for a standard field.
pub fn field_embed_text(f: &StandardField) -> (t: String)
    ensures
        t@ == field_embed_text_spec(*f),
{
    let mut out = String::new();
    out.append(f.field_cn_name.as_str());
    append_space(&mut out);
    append_opt(&mut out, &f.associated_terms);
    out
}

} // verus!
