//! Request and response payloads of the surrounding service, and the
//! computational parts of bulk import.
//!
//! Credential handling, session issuance, plain CRUD persistence and
//! pagination are collaborators outside the engine; their payload shapes
//! live here so that the transport layer and the tests can speak them.

use vstd::prelude::*;

use crate::catalog::CreateWordRoot;
use crate::catalog::clone_opt_string;
use crate::catalog::opt_text;
use crate::catalog::opt_view;
use crate::text::normalize_terms;
use crate::text::normalized_terms_spec;

verus! {

/// Credentials of a login or self-registration request.
pub struct AuthPayload {
    pub username: String,
    pub password: String,
}

/// A successful login: the session token and the account's role.
pub struct AuthResponse {
    pub token: String,
    pub role: String,
}

/// An administrator's request to create an account with a given role.
pub struct AdminCreateUserPayload {
    pub username: String,
    pub password: String,
    pub role: String,
}

/// A user's request to have a field added to the standard.
pub struct CreateTaskPayload {
    pub field_cn_name: String,
}

/// A bulk import of word roots.
pub struct BatchCreateWordRoot {
    pub items: Vec<CreateWordRoot>,
}

/// The outcome of a bulk import: how many rows went in, how many
/// failed, and one message per failure.
pub struct ImportResult {
    pub success_count: usize,
    pub failure_count: usize,
    pub errors: Vec<String>,
}

/// Page selection and an optional text filter for a listing request.
pub struct PaginationQuery {
    pub page: Option<i64>,
    pub page_size: Option<i64>,
    pub q: Option<String>,
}

/// One page of a listing, with the filtered total.
pub struct PaginatedResponse<T> {
    pub items: Vec<T>,
    pub total: i64,
}

/// The synonym list of a creation payload after normalization, absence
/// as the empty string.
pub open spec fn normalized_opt(o: Option<String>) -> Seq<char> {
    match o {
        Some(s) => normalized_terms_spec(s@),
        None => Seq::empty(),
    }
}

/// The text one bulk-import item is embedded from: canonical name, full
/// name and normalized synonym list, space-joined.
pub open spec fn batch_embed_text_spec(c: CreateWordRoot) -> Seq<char> {
    c.cn_name@ + seq![' '] + opt_text(c.en_full_name) + seq![' '] + normalized_opt(
        c.associated_terms,
    )
}

/// One bulk-import item with its synonym list normalized, and the text
/// it will be embedded from. The embedding input is derived once here so
/// that a batch embeds all items in one call.
pub fn prepare_batch_item(item: &CreateWordRoot) -> (r: (CreateWordRoot, String))
    ensures
        r.0.cn_name@ == item.cn_name@,
        r.0.en_abbr@ == item.en_abbr@,
        opt_view(r.0.en_full_name) == opt_view(item.en_full_name),
        item.associated_terms is None <==> r.0.associated_terms is None,
        item.associated_terms matches Some(s) ==> (r.0.associated_terms matches Some(t) && t@
            == normalized_terms_spec(s@)),
        opt_view(r.0.remark) == opt_view(item.remark),
        r.1@ == batch_embed_text_spec(*item),
{
    let norm_terms = normalize_terms(clone_opt_string(&item.associated_terms));
    let mut text = crate::catalog::root_embed_text(
        &crate::catalog::WordRoot {
            id: 0,
            cn_name: item.cn_name.clone(),
            en_abbr: item.en_abbr.clone(),
            en_full_name: clone_opt_string(&item.en_full_name),
            associated_terms: clone_opt_string(&norm_terms),
            remark: None,
            created_at: None,
        },
    );
    let norm = CreateWordRoot {
        cn_name: item.cn_name.clone(),
        en_abbr: item.en_abbr.clone(),
        en_full_name: clone_opt_string(&item.en_full_name),
        associated_terms: norm_terms,
        remark: clone_opt_string(&item.remark),
    };
    (norm, text)
}

/// Normalizes every item of a batch and assembles the embedding inputs,
/// one per item in order, so the embedding resource is acquired once for
/// the whole batch.
pub fn prepare_batch(items: &Vec<CreateWordRoot>) -> (r: (Vec<CreateWordRoot>, Vec<String>))
    ensures
        r.0@.len() == items@.len(),
        r.1@.len() == items@.len(),
        forall|i: int|
            0 <= i < items@.len() ==> (#[trigger] r.1@[i])@ == batch_embed_text_spec(items@[i]),
        forall|i: int|
            0 <= i < items@.len() ==> {
                let n = #[trigger] r.0@[i];
                &&& n.cn_name@ == items@[i].cn_name@
                &&& n.en_abbr@ == items@[i].en_abbr@
                &&& opt_view(n.en_full_name) == opt_view(items@[i].en_full_name)
                &&& (items@[i].associated_terms is None <==> n.associated_terms is None)
                &&& (items@[i].associated_terms matches Some(s) ==> (n.associated_terms
                    matches Some(t) && t@ == normalized_terms_spec(s@)))
                &&& opt_view(n.remark) == opt_view(items@[i].remark)
            },
{
    let mut norm: Vec<CreateWordRoot> = Vec::new();
    let mut texts: Vec<String> = Vec::new();
    let mut i: usize = 0;
    while i < items.len()
        invariant
            i <= items@.len(),
            norm@.len() == i,
            texts@.len() == i,
            forall|j: int|
                0 <= j < i ==> (#[trigger] texts@[j])@ == batch_embed_text_spec(items@[j]),
            forall|j: int|
                0 <= j < i ==> {
                    let n = #[trigger] norm@[j];
                    &&& n.cn_name@ == items@[j].cn_name@
                    &&& n.en_abbr@ == items@[j].en_abbr@
                    &&& opt_view(n.en_full_name) == opt_view(items@[j].en_full_name)
                    &&& (items@[j].associated_terms is None <==> n.associated_terms is None)
                    &&& (items@[j].associated_terms matches Some(s) ==> (n.associated_terms
                        matches Some(t) && t@ == normalized_terms_spec(s@)))
                    &&& opt_view(n.remark) == opt_view(items@[j].remark)
                },
        decreases items@.len() - i,
    {
        let (n, t) = prepare_batch_item(&items[i]);
        norm.push(n);
        texts.push(t);
        i += 1;
    }
    (norm, texts)
}

/// How many outcomes are successes.
pub open spec fn count_successes(outcomes: Seq<Option<String>>) -> int
    decreases outcomes.len(),
{
    if outcomes.len() == 0 {
        0
    } else {
        count_successes(outcomes.drop_last()) + if outcomes.last() is None {
            1int
        } else {
            0int
        }
    }
}

/// The failure messages, in order.
pub open spec fn failure_messages(outcomes: Seq<Option<String>>) -> Seq<Seq<char>>
    decreases outcomes.len(),
{
    if outcomes.len() == 0 {
        Seq::empty()
    } else {
        let rest = failure_messages(outcomes.drop_last());
        match outcomes.last() {
            Some(msg) => rest.push(msg@),
            None => rest,
        }
    }
}

/// Summarizes per-item outcomes of a bulk import: every item lands in
/// exactly one count, and the failure messages come back in item order.
pub fn summarize_import(outcomes: Vec<Option<String>>) -> (r: ImportResult)
    ensures
        r.success_count == count_successes(outcomes@),
        r.failure_count == r.errors@.len(),
        r.errors@.map_values(|e: String| e@) == failure_messages(outcomes@),
        r.success_count + r.failure_count == outcomes@.len(),
{
    let ghost all = outcomes@;
    let n = outcomes.len();
    let mut rest = outcomes;
    let mut success: usize = 0;
    let mut errors: Vec<String> = Vec::new();
    let mut i: usize = 0;
    while i < n
        invariant
            i <= n,
            n == all.len(),
            rest@ == all.skip(i as int),
            success == count_successes(all.take(i as int)),
            errors@.map_values(|e: String| e@) == failure_messages(all.take(i as int)),
            success + errors@.len() == i,
        decreases n - i,
    {
        proof {
            assert(all.take(i + 1).drop_last() =~= all.take(i as int));
            assert(all.take(i + 1).last() == all[i as int]);
        }
        let item = rest.remove(0);
        proof {
            assert(item == all[i as int]);
        }
        match item {
            None => {
                success += 1;
            },
            Some(msg) => {
                errors.push(msg);
                proof {
                    assert(errors@.map_values(|e: String| e@) =~= failure_messages(
                        all.take(i + 1),
                    ));
                }
            },
        }
        i += 1;
        proof {
            assert(rest@ =~= all.skip(i as int));
        }
    }
    proof {
        assert(all.take(all.len() as int) =~= all);
    }
    ImportResult { success_count: success, failure_count: errors.len(), errors }
}

} // verus!
