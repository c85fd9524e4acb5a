//! Regular-expression matching, through the `regex` crate.
use vstd::prelude::*;
use vstd::string::*;
use crate::config::read::views;
use crate::fix::utf8;

verus! {

/// What `regex::RegexSet::is_match` answers for `text` on the set that
/// `RegexSet::new` builds from `patterns`: `None` when `RegexSet::new` refuses them.
pub uninterp spec fn regex_set_result(patterns: Seq<Seq<char>>, text: Seq<char>) -> Option<bool>;

/// The matches `regex` finds for `pattern` in `text`, in order, each as its
/// start and end byte offsets and its text: `None` when the pattern does not compile.
pub uninterp spec fn regex_find_result(pattern: Seq<char>, text: Seq<char>) -> Option<Seq<(usize, usize, Seq<char>)>>;

/// `regex::RegexSet::new` on `patterns`, then `RegexSet::is_match` on `text`;
/// `None` when the set is refused. The result is named by `regex_set_result`.
/// The source builds a set of no pattern (that is what `RegexSet::empty` does)
/// and documents that such a set matches nothing.
#[verifier::external_body]
pub(crate) fn regex_set_match(patterns: &Vec<String>, text: &str) -> (r: Option<bool>)
    ensures
        r == regex_set_result(views(patterns@), text@),
        patterns@.len() == 0 ==> r == Some(false),
{
    match regex::RegexSet::new(patterns.iter()) {
        Ok(set) => Some(set.is_match(text)),
        Err(_) => None,
    }
}

/// Matches that lie in the text with bytes `b`, in order and without overlap:
/// each starts no later than it ends, ends within the text, holds the text
/// between its offsets, and ends no later than the next one starts.
pub open spec fn matches_in(ms: Seq<(usize, usize, Seq<char>)>, b: Seq<u8>) -> bool {
    &&& forall|k: int|
        0 <= k < ms.len() ==> (#[trigger] ms[k]).0 <= ms[k].1 <= b.len() && utf8(ms[k].2) == b.subrange(
            ms[k].0 as int,
            ms[k].1 as int,
        )
    &&& forall|k: int, l: int| 0 <= k < l < ms.len() ==> (#[trigger] ms[k]).1 <= (#[trigger] ms[l]).0
}

/// Compiles `pattern` with `regex::Regex::new` and, when it compiles, lists the
/// matches of `find_iter` over `text`, each by `start`, `end` and `as_str`.
/// The result is named by `regex_find_result`. As the documentation of
/// `find_iter` and `Match` gives, the matches are successive and do not
/// overlap, and each match's text is the text between its offsets; which
/// matches are found is not stated.
#[verifier::external_body]
pub(crate) fn regex_find_all(pattern: &str, text: &str) -> (r: Option<Vec<(usize, usize, String)>>)
    ensures
        match r {
            Some(v) => regex_find_result(pattern@, text@) == Some(
                v@.map_values(|m: (usize, usize, String)| (m.0, m.1, m.2@)),
            ) && matches_in(v@.map_values(|m: (usize, usize, String)| (m.0, m.1, m.2@)), text.spec_bytes()),
            None => regex_find_result(pattern@, text@) is None,
        },
{
    let re = match regex::Regex::new(pattern) {
        Ok(re) => re,
        Err(_) => return None,
    };
    let mut out = Vec::new();
    for m in re.find_iter(text) {
        out.push((m.start(), m.end(), m.as_str().to_owned()));
    }
    Some(out)
}

} // verus!
