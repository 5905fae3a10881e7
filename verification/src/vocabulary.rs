//! Mutable dictionary-backed text segmenter.
//!
//! The segmenter itself is `jieba_rs::Jieba`: a dictionary of terms with
//! weights, seeded from an embedded default dictionary, that cuts a text
//! into an ordered sequence of tokens. The dictionary contents are named
//! by `dict_terms`, the cut by `cut_tokens`; what this module states of
//! them is what the segmenter's source shows: adding a term inserts it
//! into the dictionary, and a cut is a partition of the input whose
//! tokens, concatenated in order, give the input back. Which partition is
//! chosen is the segmenter's own affair and is a function of the
//! dictionary state and the text alone.

use vstd::prelude::*;

verus! {

#[verifier::external_type_specification]
#[verifier::external_body]
pub struct ExJieba(jieba_rs::Jieba);

/// The set of terms the segmenter's dictionary holds.
pub uninterp spec fn dict_terms(j: jieba_rs::Jieba) -> Set<Seq<char>>;

/// The tokens the segmenter cuts a text into, a function of the
/// dictionary state and the text alone.
pub uninterp spec fn cut_tokens(j: jieba_rs::Jieba, text: Seq<char>) -> Seq<Seq<char>>;

/// The weight newly learned canonical names carry in the dictionary.
pub const ROOT_TERM_WEIGHT: usize = 99999;

/// Dictionary-backed segmenter. Many readers may share one snapshot;
/// adding a term takes the value exclusively, so no reader ever observes
/// a half-applied update.
pub struct Vocabulary {
    pub seg: jieba_rs::Jieba,
}

/// The set of canonical names a catalog snapshot contributes to the
/// dictionary, taken over `base`.
pub open spec fn with_catalog_terms(
    base: Set<Seq<char>>,
    rows: Seq<crate::catalog::WordRoot>,
) -> Set<Seq<char>>
    decreases rows.len(),
{
    if rows.len() == 0 {
        base
    } else if rows.last().cn_name@.len() == 0 {
        with_catalog_terms(base, rows.drop_last())
    } else {
        with_catalog_terms(base, rows.drop_last()).insert(rows.last().cn_name@)
    }
}

impl Vocabulary {
    /// Relies on `jieba_rs::Jieba::new`: a segmenter over the embedded
    /// default dictionary.
    #[verifier::external_body]
    pub fn new() -> Vocabulary {
        Vocabulary { seg: jieba_rs::Jieba::new() }
    }

    /// Relies on `jieba_rs::Jieba::add_word`: inserts a non-empty word
    /// into the dictionary with the given weight, and leaves the
    /// dictionary as it was on an empty word. Effective for subsequent
    /// cuts only.
    #[verifier::external_body]
    pub fn add_term(&mut self, term: &str, weight: usize)
        ensures
            term@.len() > 0 ==> dict_terms(final(self).seg) == dict_terms(old(self).seg).insert(
                term@,
            ),
            term@.len() == 0 ==> dict_terms(final(self).seg) == dict_terms(old(self).seg),
    {
        self.seg.add_word(term, Some(weight), None);
    }

    /// Relies on `jieba_rs::Jieba::cut` (without the HMM): the tokens
    /// partition the text, so their concatenation in order is the text,
    /// and the cut depends on the dictionary state and the text alone.
    #[verifier::external_body]
    pub fn segment(&self, text: &str) -> (r: Vec<String>)
        ensures
            r@.map_values(|t: String| t@) == cut_tokens(self.seg, text@),
            r@.map_values(|t: String| t@).flatten() == text@,
    {
        self.seg.cut(text, false).iter().map(|t| t.word.to_string()).collect()
    }

    /// Teaches the segmenter every canonical name of a catalog snapshot,
    /// as the catalog's read-only projection into the dictionary.
    pub fn load_catalog_terms(&mut self, rows: &Vec<crate::catalog::WordRoot>)
        ensures
            dict_terms(final(self).seg) == with_catalog_terms(dict_terms(old(self).seg), rows@),
    {
        let mut i: usize = 0;
        while i < rows.len()
            invariant
                i <= rows@.len(),
                dict_terms(self.seg) == with_catalog_terms(dict_terms(old(self).seg), rows@.take(i as int)),
            decreases rows@.len() - i,
        {
            proof {
                assert(rows@.take(i + 1).drop_last() =~= rows@.take(i as int));
            }
            self.add_term(rows[i].cn_name.as_str(), ROOT_TERM_WEIGHT);
            i += 1;
        }
        proof {
            assert(rows@.take(rows@.len() as int) =~= rows@);
        }
    }
}

} // verus!
