//! Character-level text utilities: whitespace classification, ASCII
//! case-insensitive comparison, word-boundary matching inside synonym
//! lists, and synonym-list normalization.

use vstd::prelude::*;
use vstd::string::StrSliceExecFns;
use vstd::string::StringExecFns;

verus! {

/// Whitespace, as the synonym word-boundary rule understands it.
pub open spec fn is_space_char(c: char) -> bool {
    c == ' ' || c == '\t' || c == '\n' || c == '\r' || c == '\u{b}' || c == '\u{c}'
}

/// A separator in a raw synonym list: whitespace or either comma form.
pub open spec fn term_sep(c: char) -> bool {
    is_space_char(c) || c == ',' || c == '，'
}

/// A string is blank when every character is whitespace (so also when empty).
pub open spec fn is_blank(s: Seq<char>) -> bool {
    forall|i: int| 0 <= i < s.len() ==> is_space_char(s[i])
}

pub fn char_is_space(c: char) -> (r: bool)
    ensures
        r == is_space_char(c),
{
    c == ' ' || c == '\t' || c == '\n' || c == '\r' || c == '\u{b}' || c == '\u{c}'
}

pub fn char_is_term_sep(c: char) -> (r: bool)
    ensures
        r == term_sep(c),
{
    char_is_space(c) || c == ',' || c == '，'
}

/// The characters of a string, in order.
pub fn str_chars(s: &str) -> (r: Vec<char>)
    ensures
        r@ == s@,
{
    let n = s.unicode_len();
    let mut r: Vec<char> = Vec::new();
    let mut i: usize = 0;
    while i < n
        invariant
            i <= n,
            n == s@.len(),
            r@ == s@.take(i as int),
        decreases n - i,
    {
        r.push(s.get_char(i));
        i += 1;
        assert(r@ =~= s@.take(i as int));
    }
    assert(s@.take(n as int) =~= s@);
    r
}

pub fn str_is_blank(s: &str) -> (r: bool)
    ensures
        r == is_blank(s@),
{
    let n = s.unicode_len();
    let mut i: usize = 0;
    while i < n
        invariant
            i <= n,
            n == s@.len(),
            forall|j: int| 0 <= j < i ==> is_space_char(s@[j]),
        decreases n - i,
    {
        if !char_is_space(s.get_char(i)) {
            return false;
        }
        i += 1;
    }
    true
}

/// An ASCII upper-case letter, by code point.
pub open spec fn is_ascii_upper(c: char) -> bool {
    65 <= c as u32 <= 90
}

/// An ASCII lower-case letter, by code point.
pub open spec fn is_ascii_lower(c: char) -> bool {
    97 <= c as u32 <= 122
}

/// Two characters are equal up to ASCII case.
pub open spec fn ci_char_eq(a: char, b: char) -> bool {
    a == b || (is_ascii_upper(a) && is_ascii_lower(b) && a as u32 + 32 == b as u32) || (
    is_ascii_lower(a) && is_ascii_upper(b) && a as u32 == b as u32 + 32)
}

/// Two strings are equal up to ASCII case, character by character.
pub open spec fn ci_seq_eq(a: Seq<char>, b: Seq<char>) -> bool {
    a.len() == b.len() && forall|i: int| 0 <= i < a.len() ==> ci_char_eq(a[i], b[i])
}

/// `needle` occurs in `hay` at position `i`, up to ASCII case.
pub open spec fn ci_occurs_at(hay: Seq<char>, needle: Seq<char>, i: int) -> bool {
    0 <= i && i + needle.len() <= hay.len() && ci_seq_eq(
        hay.subrange(i, i + needle.len()),
        needle,
    )
}

/// `needle` occurs somewhere in `hay`, up to ASCII case.
pub open spec fn ci_contains(hay: Seq<char>, needle: Seq<char>) -> bool {
    exists|i: int| ci_occurs_at(hay, needle, i)
}

/// `word` occurs in the synonym list `terms` at position `i` as a whole
/// word: equal up to ASCII case, and flanked by whitespace or an end of
/// the list on both sides.
pub open spec fn word_occurs_at(terms: Seq<char>, word: Seq<char>, i: int) -> bool {
    ci_occurs_at(terms, word, i) && (i == 0 || is_space_char(terms[i - 1])) && (i + word.len()
        == terms.len() || is_space_char(terms[i + word.len()]))
}

/// `word` occurs somewhere in `terms` as a whole word. This is the
/// boundary-aware synonym rule: an occurrence that straddles a longer
/// neighboring word does not count.
pub open spec fn word_in_terms(terms: Seq<char>, word: Seq<char>) -> bool {
    exists|i: int| word_occurs_at(terms, word, i)
}

pub proof fn lemma_ci_seq_eq_refl(a: Seq<char>)
    ensures
        ci_seq_eq(a, a),
{
}

pub fn char_ci_eq(a: char, b: char) -> (r: bool)
    ensures
        r == ci_char_eq(a, b),
{
    let au = a as u32;
    let bu = b as u32;
    au == bu || (65 <= au && au <= 90 && 97 <= bu && bu <= 122 && au + 32 == bu) || (97 <= au && au
        <= 122 && 65 <= bu && bu <= 90 && au == bu + 32)
}

/// Whether `needle` occurs at position `i` of `hay`, up to ASCII case.
fn ci_match_at(hay: &Vec<char>, needle: &Vec<char>, i: usize) -> (r: bool)
    requires
        i + needle@.len() <= hay@.len(),
    ensures
        r == ci_occurs_at(hay@, needle@, i as int),
{
    let hn = hay.len();
    let nn = needle.len();
    let mut k: usize = 0;
    while k < nn
        invariant
            k <= nn,
            nn == needle@.len(),
            hn == hay@.len(),
            i + nn <= hn,
            forall|j: int| 0 <= j < k ==> ci_char_eq(hay@[i + j], needle@[j]),
        decreases nn - k,
    {
        if !char_ci_eq(hay[i + k], needle[k]) {
            assert(!ci_seq_eq(hay@.subrange(i as int, i + needle@.len()), needle@)) by {
                assert(hay@.subrange(i as int, i + needle@.len())[k as int] == hay@[i + k]);
            }
            return false;
        }
        k += 1;
    }
    assert(ci_seq_eq(hay@.subrange(i as int, i + needle@.len()), needle@)) by {
        assert(forall|j: int|
            0 <= j < needle@.len() ==> ci_char_eq(
                #[trigger] hay@.subrange(i as int, i + needle@.len())[j],
                needle@[j],
            ));
    }
    true
}

/// Whether `needle` occurs anywhere in `hay`, up to ASCII case.
pub fn contains_ci(hay: &Vec<char>, needle: &Vec<char>) -> (r: bool)
    ensures
        r == ci_contains(hay@, needle@),
{
    let hn = hay.len();
    let nn = needle.len();
    if nn > hn {
        assert(forall|i: int| !ci_occurs_at(hay@, needle@, i));
        return false;
    }
    let last = hn - nn;
    let mut i: usize = 0;
    while i < last
        invariant
            i <= last,
            hn == hay@.len(),
            nn == needle@.len(),
            last == hn - nn,
            forall|j: int| 0 <= j < i ==> !ci_occurs_at(hay@, needle@, j),
        decreases last - i,
    {
        if ci_match_at(hay, needle, i) {
            return true;
        }
        i += 1;
    }
    if ci_match_at(hay, needle, last) {
        return true;
    }
    assert(forall|j: int| !ci_occurs_at(hay@, needle@, j));
    false
}

/// Whether `word` occurs in `terms` as a whole word (boundary-aware,
/// ASCII case-insensitive).
pub fn word_in(terms: &Vec<char>, word: &Vec<char>) -> (r: bool)
    ensures
        r == word_in_terms(terms@, word@),
{
    let tn = terms.len();
    let wn = word.len();
    if wn > tn {
        assert(forall|i: int| !word_occurs_at(terms@, word@, i));
        return false;
    }
    let last = tn - wn;
    let mut i: usize = 0;
    loop
        invariant
            i <= last,
            tn == terms@.len(),
            wn == word@.len(),
            last == tn - wn,
            forall|j: int| 0 <= j < i ==> !word_occurs_at(terms@, word@, j),
        decreases last - i,
    {
        let left_ok = i == 0 || char_is_space(terms[i - 1]);
        let right_ok = i + wn == tn || char_is_space(terms[i + wn]);
        if left_ok && right_ok && ci_match_at(terms, word, i) {
            assert(word_occurs_at(terms@, word@, i as int));
            return true;
        }
        if i == last {
            assert(forall|j: int| !word_occurs_at(terms@, word@, j));
            return false;
        }
        i += 1;
    }
}

/// Length of the run of non-separator characters starting at `i`.
pub open spec fn run_len(s: Seq<char>, i: int) -> int
    decreases s.len() - i,
{
    if i < 0 || i >= s.len() || term_sep(s[i]) {
        0
    } else {
        1 + run_len(s, i + 1)
    }
}

pub proof fn lemma_run_len_bounds(s: Seq<char>, i: int)
    requires
        0 <= i <= s.len(),
    ensures
        0 <= run_len(s, i) <= s.len() - i,
    decreases s.len() - i,
{
    if i < s.len() && !term_sep(s[i]) {
        lemma_run_len_bounds(s, i + 1);
    }
}

/// A position `m` that ends a run starting at `i` determines `run_len`.
pub proof fn lemma_run_len_is(s: Seq<char>, i: int, m: int)
    requires
        0 <= i <= m <= s.len(),
        forall|k: int| i <= k < m ==> !term_sep(s[k]),
        m == s.len() || term_sep(s[m]),
    ensures
        run_len(s, i) == m - i,
    decreases m - i,
{
    if i < m {
        lemma_run_len_is(s, i + 1, m);
    }
}

/// The maximal runs of non-separator characters of `s` from position `i`
/// on, in order.
pub open spec fn split_from(s: Seq<char>, i: int) -> Seq<Seq<char>>
    decreases s.len() - i,
    via split_from_dec
{
    if i < 0 || i >= s.len() {
        Seq::empty()
    } else if term_sep(s[i]) {
        split_from(s, i + 1)
    } else {
        seq![s.subrange(i, i + run_len(s, i))] + split_from(s, i + run_len(s, i))
    }
}

#[via_fn]
proof fn split_from_dec(s: Seq<char>, i: int) {
    if 0 <= i && i < s.len() && !term_sep(s[i]) {
        lemma_run_len_bounds(s, i);
        lemma_run_len_bounds(s, i + 1);
    }
}

/// The parts joined with a single `sep` between consecutive parts.
pub open spec fn join_sep(parts: Seq<Seq<char>>, sep: char) -> Seq<char>
    decreases parts.len(),
{
    if parts.len() == 0 {
        Seq::empty()
    } else if parts.len() == 1 {
        parts[0]
    } else {
        join_sep(parts.drop_last(), sep) + seq![sep] + parts.last()
    }
}

/// A normalized synonym list: the maximal runs of non-separator
/// characters (separators being whitespace and both comma forms), joined
/// by single spaces.
pub open spec fn normalized_terms_spec(s: Seq<char>) -> Seq<char> {
    join_sep(split_from(s, 0), ' ')
}

/// Rewrites a raw synonym list into its normalized form: commas become
/// spaces, and runs of separators collapse to one space with none left at
/// either edge.
pub fn normalize_string(s: &str) -> (r: String)
    ensures
        r@ == normalized_terms_spec(s@),
{
    let chars = str_chars(s);
    let n = chars.len();
    let mut out = String::new();
    let ghost mut done: Seq<Seq<char>> = Seq::empty();
    let mut first: bool = true;
    let mut i: usize = 0;
    while i < n
        invariant
            i <= n,
            n == chars@.len(),
            chars@ == s@,
            split_from(s@, 0) == done + split_from(s@, i as int),
            out@ == join_sep(done, ' '),
            first == (done.len() == 0),
        decreases n - i,
    {
        if char_is_term_sep(chars[i]) {
            proof {
                assert(split_from(s@, i as int) == split_from(s@, i + 1));
            }
            i += 1;
        } else {
            let mut j: usize = i;
            while j < n && !char_is_term_sep(chars[j])
                invariant
                    i <= j <= n,
                    n == chars@.len(),
                    chars@ == s@,
                    forall|k: int| i <= k < j ==> !term_sep(s@[k]),
                decreases n - j,
            {
                j += 1;
            }
            proof {
                lemma_run_len_is(s@, i as int, j as int);
                assert(split_from(s@, i as int) == seq![s@.subrange(i as int, j as int)]
                    + split_from(s@, j as int));
            }
            let run = s.substring_char(i, j);
            if first {
                first = false;
            } else {
                proof {
                    reveal_strlit(" ");
                }
                out.append(" ");
                assert(" "@ =~= seq![' ']);
            }
            out.append(run);
            proof {
                let r = s@.subrange(i as int, j as int);
                assert(done.push(r).drop_last() == done);
                assert(done.push(r).last() == r);
                assert(out@ == join_sep(done.push(r), ' '));
                assert(done + (seq![r] + split_from(s@, j as int)) =~= done.push(r) + split_from(
                    s@,
                    j as int,
                ));
                done = done.push(r);
            }
            i = j;
        }
    }
    assert(split_from(s@, n as int) =~= Seq::empty());
    assert(done + Seq::<Seq<char>>::empty() =~= done);
    out
}

/// Normalizes an optional synonym list, keeping absence as absence.
pub fn normalize_terms(input: Option<String>) -> (r: Option<String>)
    ensures
        input is None <==> r is None,
        input matches Some(s) ==> (r matches Some(t) && t@ == normalized_terms_spec(s@)),
{
    match input {
        None => None,
        Some(s) => Some(normalize_string(s.as_str())),
    }
}

} // verus!
