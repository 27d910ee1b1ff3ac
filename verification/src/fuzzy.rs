//! Fuzzy matching, which an outside matcher provides.

use crate::stage::TextScorer;
use ltrait_scorer_nucleo::{CaseMatching, Context, Normalization, NucleoMatcher};
use vstd::prelude::*;
use vstd::string::StrSliceExecFns;

verus! {

/// How the matcher treats the case of letters.
#[derive(Clone, Copy, PartialEq, Eq, Structural, Debug)]
pub enum CaseRule {
    /// A letter matches only itself.
    Respect,
    /// A letter matches both of its cases.
    Ignore,
    /// Case is ignored for a word of the query that is all lower case.
    Smart,
}

/// How the matcher treats accented letters.
#[derive(Clone, Copy, PartialEq, Eq, Structural, Debug)]
pub enum AccentRule {
    /// A letter never matches its accented forms.
    Never,
    /// A plain letter of the query also matches its accented forms.
    Smart,
}

/// The longest text, in bytes of its UTF-8 encoding, that is handed to the matcher.
pub const MAX_TEXT: usize = 4294967295;

/// The longest query, in characters, that is handed to the matcher.
pub const MAX_QUERY: usize = 1024;

/// The score that the matcher gives a text for a query under the given settings,
/// where it matches plain text.
pub uninterp spec fn fuzzy_score(
    case: CaseRule,
    accents: AccentRule,
    text: Seq<char>,
    query: Seq<char>,
) -> u32;

/// Whether a text and a query are short enough to be matched: the text by the bytes
/// of its UTF-8 encoding, the query by its characters.
pub open spec fn matchable(text: Seq<char>, query: Seq<char>) -> bool {
    vstd::utf8::encode_utf8(text).len() <= MAX_TEXT && query.len() <= MAX_QUERY
}

/// Calls `NucleoMatcher::new` of ltrait_scorer_nucleo and, on the matcher that it
/// returns, `predicate_score`.
///
/// Trusted: for a matcher of plain text the score is a function of the other
/// settings, the text and the query, and `fuzzy_score` is its name. (A matcher of
/// paths takes the path separators of the platform; the precondition leaves it
/// out.) The matcher splits the query into words, scores the text against each
/// word, and adds the scores up; it gives zero where a word does not match. It
/// takes the text either as its bytes or as one character for each grapheme
/// cluster, and refuses more than `u32::MAX` of either; a text has no more clusters
/// than bytes, and the bytes are bounded here. It counts the score of a word in 16
/// bits, to which each character of the word adds at most 36, so the words of a
/// query within the limit required here stay in range, and so does their sum.
#[verifier::external_body]
fn nucleo_score(
    match_paths: bool,
    case: CaseRule,
    accents: AccentRule,
    text: &str,
    query: &str,
) -> (score: u32)
    requires
        !match_paths,
        matchable(text@, query@),
    ensures
        score == fuzzy_score(case, accents, text@, query@),
{
    let case = match case {
        CaseRule::Respect => CaseMatching::Respect,
        CaseRule::Ignore => CaseMatching::Ignore,
        CaseRule::Smart => CaseMatching::Smart,
    };
    let normalization = match accents {
        AccentRule::Never => Normalization::Never,
        AccentRule::Smart => Normalization::Smart,
    };
    let matcher = NucleoMatcher::new(match_paths, case, normalization);
    let context = Context { match_string: text.to_owned() };
    ltrait_extra::scorer::Scorer::predicate_score(&matcher, &context, query)
}

/// The fuzzy scoring provider for plain text, with its settings.
#[derive(Clone, Copy, Debug)]
pub struct Fuzzy {
    pub case: CaseRule,
    pub accents: AccentRule,
}

impl Fuzzy {
    pub fn new(case: CaseRule, accents: AccentRule) -> (fuzzy: Self)
        ensures
            fuzzy.case == case,
            fuzzy.accents == accents,
    {
        Fuzzy { case, accents }
    }

    /// The settings of the launcher: smart case, smart accents.
    pub open spec fn smart_settings() -> Fuzzy {
        Fuzzy { case: CaseRule::Smart, accents: AccentRule::Smart }
    }

    /// The provider with the settings of the launcher.
    pub fn smart() -> (fuzzy: Self)
        ensures
            fuzzy == Fuzzy::smart_settings(),
    {
        Fuzzy { case: CaseRule::Smart, accents: AccentRule::Smart }
    }
}

impl TextScorer for Fuzzy {
    /// The matcher's score, or zero for a text or a query too long to be matched.
    open spec fn text_score(&self, text: Seq<char>, query: Seq<char>) -> u32 {
        if matchable(text, query) {
            fuzzy_score(self.case, self.accents, text, query)
        } else {
            0
        }
    }

    fn score_text(&self, text: &str, query: &str) -> (score: u32) {
        if query.unicode_len() <= MAX_QUERY && text.as_bytes().len() <= MAX_TEXT {
            nucleo_score(false, self.case, self.accents, text, query)
        } else {
            0
        }
    }
}

} // verus!
