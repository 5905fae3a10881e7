//! Lexical resolver: decomposes a phrase into vocabulary tokens and maps
//! each token to a catalog word root.
//!
//! A token matches a root when it equals the root's canonical name, or
//! occurs as a whole word inside the root's synonym list (ASCII
//! case-insensitively, and boundary-aware). Among several matching rows
//! the one with the lowest id wins, and among rows sharing that id the
//! earliest in the snapshot — a deterministic rule in place of an
//! arbitrary store order. A matched token contributes the root's
//! abbreviation to the identifier; an unmatched one is wrapped in
//! brackets and recorded as missing. Blank tokens are skipped.

use vstd::prelude::*;
use vstd::string::StrSliceExecFns;
use vstd::string::StringExecFns;

use crate::catalog::WordRoot;
use crate::errors::ErrorKind;
use crate::text::is_blank;
use crate::text::join_sep;
use crate::text::str_chars;
use crate::text::str_is_blank;
use crate::text::word_in;
use crate::text::word_in_terms;
use crate::vocabulary::Vocabulary;
use crate::vocabulary::cut_tokens;

verus! {

/// The resolver's answer: the assembled identifier, the tokens no root
/// matched, and the ids of the matched roots, all in token order.
pub struct SuggestResponse {
    pub suggested_en: String,
    pub missing_words: Vec<String>,
    pub matched_ids: Vec<i32>,
}

/// A token matches a root by exact canonical name, or as a whole word of
/// the root's synonym list.
pub open spec fn root_matches(r: WordRoot, t: Seq<char>) -> bool {
    t == r.cn_name@ || (r.associated_terms matches Some(s) && word_in_terms(s@, t))
}

/// Row `i` is the row the resolver picks for token `t`: it matches, and
/// every matching row has a greater id, or the same id no earlier in the
/// snapshot.
pub open spec fn is_match_choice(rows: Seq<WordRoot>, t: Seq<char>, i: int) -> bool {
    &&& 0 <= i < rows.len()
    &&& root_matches(rows[i], t)
    &&& forall|j: int|
        0 <= j < rows.len() && root_matches(rows[j], t) ==> (rows[i].id < rows[j].id || (rows[i].id
            == rows[j].id && i <= j))
}

/// The index the resolver picks for `t`, where one exists.
pub open spec fn chosen_index(rows: Seq<WordRoot>, t: Seq<char>) -> int {
    choose|i: int| is_match_choice(rows, t, i)
}

/// The resolver's pick is unique.
pub proof fn lemma_choice_unique(rows: Seq<WordRoot>, t: Seq<char>, i: int, j: int)
    requires
        is_match_choice(rows, t, i),
        is_match_choice(rows, t, j),
    ensures
        i == j,
{
}

/// Row `i` is the pick among the first `m` rows alone.
spec fn is_choice_upto(rows: Seq<WordRoot>, t: Seq<char>, i: int, m: int) -> bool {
    &&& 0 <= i < m <= rows.len()
    &&& root_matches(rows[i], t)
    &&& forall|j: int|
        0 <= j < m && root_matches(rows[j], t) ==> (rows[i].id < rows[j].id || (rows[i].id
            == rows[j].id && i <= j))
}

proof fn lemma_choice_upto_exists(rows: Seq<WordRoot>, t: Seq<char>, m: int)
    requires
        0 <= m <= rows.len(),
        exists|j: int| 0 <= j < m && root_matches(rows[j], t),
    ensures
        exists|i: int| is_choice_upto(rows, t, i, m),
    decreases m,
{
    let w = choose|j: int| 0 <= j < m && root_matches(rows[j], t);
    let m1 = m - 1;
    if exists|j: int| 0 <= j < m1 && root_matches(rows[j], t) {
        lemma_choice_upto_exists(rows, t, m1);
        let c = choose|i: int| is_choice_upto(rows, t, i, m1);
        if root_matches(rows[m - 1], t) && rows[m - 1].id < rows[c].id {
            assert(is_choice_upto(rows, t, m - 1, m));
        } else {
            assert(is_choice_upto(rows, t, c, m));
        }
    } else {
        assert(w == m - 1);
        assert(is_choice_upto(rows, t, m - 1, m));
    }
}

/// A token some row matches always has a resolver's pick.
pub proof fn lemma_choice_exists(rows: Seq<WordRoot>, t: Seq<char>)
    requires
        exists|j: int| 0 <= j < rows.len() && root_matches(rows[j], t),
    ensures
        exists|i: int| is_match_choice(rows, t, i),
        is_match_choice(rows, t, chosen_index(rows, t)),
{
    lemma_choice_upto_exists(rows, t, rows.len() as int);
    let i = choose|i: int| is_choice_upto(rows, t, i, rows.len() as int);
    assert(is_match_choice(rows, t, i));
}

/// The resolver's pick for `token`, or nothing when no row matches.
pub fn match_token(rows: &Vec<WordRoot>, token: &String) -> (r: Option<usize>)
    ensures
        match r {
            Some(k) => is_match_choice(rows@, token@, k as int),
            None => forall|j: int| 0 <= j < rows@.len() ==> !root_matches(rows@[j], token@),
        },
{
    let tok_chars = str_chars(token.as_str());
    let mut best: Option<usize> = None;
    let mut i: usize = 0;
    while i < rows.len()
        invariant
            i <= rows@.len(),
            tok_chars@ == token@,
            match best {
                Some(k) => is_choice_upto(rows@, token@, k as int, i as int),
                None => forall|j: int| 0 <= j < i ==> !root_matches(rows@[j], token@),
            },
        decreases rows@.len() - i,
    {
        let hit = if token.eq(&rows[i].cn_name) {
            true
        } else {
            match &rows[i].associated_terms {
                Some(s) => {
                    let term_chars = str_chars(s.as_str());
                    word_in(&term_chars, &tok_chars)
                },
                None => false,
            }
        };
        assert(hit == root_matches(rows@[i as int], token@));
        match best {
            None => {
                if hit {
                    best = Some(i);
                }
            },
            Some(k) => {
                if hit && rows[i].id < rows[k].id {
                    best = Some(i);
                }
            },
        }
        i += 1;
    }
    best
}

/// What resolving a token sequence yields: the identifier parts, the
/// missing tokens and the matched ids, in token order, blank tokens
/// skipped.
pub open spec fn resolve_parts(rows: Seq<WordRoot>, tokens: Seq<Seq<char>>) -> (
    Seq<Seq<char>>,
    Seq<Seq<char>>,
    Seq<i32>,
)
    decreases tokens.len(),
{
    if tokens.len() == 0 {
        (Seq::empty(), Seq::empty(), Seq::empty())
    } else {
        let prev = resolve_parts(rows, tokens.drop_last());
        let t = tokens.last();
        if is_blank(t) {
            prev
        } else if exists|i: int| is_match_choice(rows, t, i) {
            let i = chosen_index(rows, t);
            (prev.0.push(rows[i].en_abbr@), prev.1, prev.2.push(rows[i].id))
        } else {
            (prev.0.push(seq!['['] + t + seq![']']), prev.1.push(t), prev.2)
        }
    }
}

/// How many tokens are not blank.
pub open spec fn count_nonblank(tokens: Seq<Seq<char>>) -> int
    decreases tokens.len(),
{
    if tokens.len() == 0 {
        0
    } else {
        count_nonblank(tokens.drop_last()) + if is_blank(tokens.last()) {
            0int
        } else {
            1int
        }
    }
}

/// Every non-blank token lands in exactly one of `matched_ids` and
/// `missing`: together they count the non-blank tokens.
pub proof fn lemma_resolve_counts(rows: Seq<WordRoot>, tokens: Seq<Seq<char>>)
    ensures
        resolve_parts(rows, tokens).2.len() + resolve_parts(rows, tokens).1.len() == count_nonblank(
            tokens,
        ),
        resolve_parts(rows, tokens).0.len() == count_nonblank(tokens),
    decreases tokens.len(),
{
    if tokens.len() > 0 {
        lemma_resolve_counts(rows, tokens.drop_last());
    }
}

/// A token sequence made solely of exact canonical names resolves with
/// nothing missing, the identifier parts being the chosen rows'
/// abbreviations in token order.
pub proof fn lemma_resolve_all_canonical(rows: Seq<WordRoot>, tokens: Seq<Seq<char>>)
    requires
        forall|i: int|
            0 <= i < tokens.len() ==> !is_blank(tokens[i]) && exists|j: int|
                0 <= j < rows.len() && tokens[i] == rows[j].cn_name@,
    ensures
        resolve_parts(rows, tokens).1 =~= Seq::<Seq<char>>::empty(),
        resolve_parts(rows, tokens).0 =~= Seq::new(
            tokens.len(),
            |k: int| rows[chosen_index(rows, tokens[k])].en_abbr@,
        ),
        resolve_parts(rows, tokens).2 =~= Seq::new(
            tokens.len(),
            |k: int| rows[chosen_index(rows, tokens[k])].id,
        ),
    decreases tokens.len(),
{
    if tokens.len() > 0 {
        let pre = tokens.drop_last();
        assert(forall|i: int| 0 <= i < pre.len() ==> pre[i] == tokens[i]);
        lemma_resolve_all_canonical(rows, pre);
        let t = tokens.last();
        let j = choose|j: int| 0 <= j < rows.len() && t == rows[j].cn_name@;
        assert(root_matches(rows[j], t));
        lemma_choice_exists(rows, t);
    }
}

/// Resolves a ready token sequence against a catalog snapshot.
pub fn resolve_tokens(rows: &Vec<WordRoot>, tokens: &Vec<String>) -> (r: SuggestResponse)
    ensures
        ({
            let m = resolve_parts(rows@, tokens@.map_values(|t: String| t@));
            &&& r.suggested_en@ == join_sep(m.0, '_')
            &&& r.missing_words@.map_values(|t: String| t@) == m.1
            &&& r.matched_ids@ == m.2
            &&& r.matched_ids@.len() + r.missing_words@.len() == count_nonblank(
                tokens@.map_values(|t: String| t@),
            )
        }),
{
    let ghost views = tokens@.map_values(|t: String| t@);
    let mut out = String::new();
    let mut first: bool = true;
    let mut missing: Vec<String> = Vec::new();
    let mut ids: Vec<i32> = Vec::new();
    let ghost mut parts: Seq<Seq<char>> = Seq::empty();
    let mut i: usize = 0;
    while i < tokens.len()
        invariant
            i <= tokens@.len(),
            views == tokens@.map_values(|t: String| t@),
            ({
                let m = resolve_parts(rows@, views.take(i as int));
                &&& parts == m.0
                &&& missing@.map_values(|t: String| t@) == m.1
                &&& ids@ == m.2
            }),
            out@ == join_sep(parts, '_'),
            first == (parts.len() == 0),
        decreases tokens@.len() - i,
    {
        proof {
            assert(views.take(i + 1).drop_last() =~= views.take(i as int));
            assert(views.take(i + 1).last() == views[i as int]);
            assert(views[i as int] == tokens@[i as int]@);
        }
        let t = &tokens[i];
        if !str_is_blank(t.as_str()) {
            match match_token(rows, t) {
                Some(k) => {
                    proof {
                        lemma_choice_unique(
                            rows@,
                            views[i as int],
                            k as int,
                            chosen_index(rows@, views[i as int]),
                        );
                    }
                    if first {
                        first = false;
                    } else {
                        append_join_sep(&mut out);
                    }
                    out.append(rows[k].en_abbr.as_str());
                    ids.push(rows[k].id);
                    proof {
                        let p = rows@[k as int].en_abbr@;
                        assert(parts.push(p).drop_last() == parts);
                        parts = parts.push(p);
                    }
                },
                None => {
                    if first {
                        first = false;
                    } else {
                        append_join_sep(&mut out);
                    }
                    append_open_bracket(&mut out);
                    out.append(t.as_str());
                    append_close_bracket(&mut out);
                    missing.push(t.clone());
                    proof {
                        let p = seq!['['] + views[i as int] + seq![']'];
                        assert(parts.push(p).drop_last() == parts);
                        parts = parts.push(p);
                        assert(missing@.map_values(|t: String| t@) =~= resolve_parts(
                            rows@,
                            views.take(i + 1),
                        ).1);
                    }
                },
            }
        }
        i += 1;
    }
    proof {
        assert(views.take(views.len() as int) =~= views);
        lemma_resolve_counts(rows@, views);
    }
    SuggestResponse { suggested_en: out, missing_words: missing, matched_ids: ids }
}

fn append_join_sep(out: &mut String)
    ensures
        final(out)@ == old(out)@ + seq!['_'],
{
    proof {
        reveal_strlit("_");
    }
    out.append("_");
    assert("_"@ =~= seq!['_']);
}

fn append_open_bracket(out: &mut String)
    ensures
        final(out)@ == old(out)@ + seq!['['],
{
    proof {
        reveal_strlit("[");
    }
    out.append("[");
    assert("["@ =~= seq!['[']);
}

fn append_close_bracket(out: &mut String)
    ensures
        final(out)@ == old(out)@ + seq![']'],
{
    proof {
        reveal_strlit("]");
    }
    out.append("]");
    assert("]"@ =~= seq![']']);
}

/// Segments a phrase with the vocabulary and resolves the tokens against
/// a catalog snapshot. Read-only: a lookup miss is data, not an error.
pub fn suggest_field_name(vocab: &Vocabulary, rows: &Vec<WordRoot>, phrase: &str) -> (r:
    SuggestResponse)
    ensures
        ({
            let m = resolve_parts(rows@, cut_tokens(vocab.seg, phrase@));
            &&& r.suggested_en@ == join_sep(m.0, '_')
            &&& r.missing_words@.map_values(|t: String| t@) == m.1
            &&& r.matched_ids@ == m.2
            &&& r.matched_ids@.len() + r.missing_words@.len() == count_nonblank(
                cut_tokens(vocab.seg, phrase@),
            )
        }),
{
    let tokens = vocab.segment(phrase);
    resolve_tokens(rows, &tokens)
}

/// Validates and serves a suggestion request: a blank phrase is rejected
/// before any catalog access, anything else resolves.
pub fn resolve_request(vocab: &Vocabulary, rows: &Vec<WordRoot>, phrase: &str) -> (r: Result<
    SuggestResponse,
    ErrorKind,
>)
    ensures
        is_blank(phrase@) <==> (r matches Err(e) && e is ValidationError),
        !is_blank(phrase@) ==> (r matches Ok(resp) && {
            let m = resolve_parts(rows@, cut_tokens(vocab.seg, phrase@));
            &&& resp.suggested_en@ == join_sep(m.0, '_')
            &&& resp.missing_words@.map_values(|t: String| t@) == m.1
            &&& resp.matched_ids@ == m.2
        }),
{
    if str_is_blank(phrase) {
        Err(ErrorKind::ValidationError)
    } else {
        Ok(suggest_field_name(vocab, rows, phrase))
    }
}

} // verus!
