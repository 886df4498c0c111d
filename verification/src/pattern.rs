use vstd::prelude::*;

verus! {

/// Whether `text` matches the regular expression `pattern`, as the regex
/// crate decides it, or `None` when the crate refuses the pattern. The
/// answer depends on the two texts alone.
pub uninterp spec fn regex_match(pattern: Seq<char>, text: Seq<char>) -> Option<bool>;

/// Compiles `pattern` with `regex::Regex::new` and, when that succeeds,
/// asks `regex::Regex::is_match` about `text`. Nothing is claimed about
/// which texts match; the contract only names the answer, which the two
/// calls compute from the pattern and the text alone.
#[verifier::external_body]
pub(crate) fn match_pattern(pattern: &str, text: &str) -> (r: Option<bool>)
    ensures
        r == regex_match(pattern@, text@),
{
    match regex::Regex::new(pattern) {
        Ok(re) => Some(re.is_match(text)),
        Err(_) => None,
    }
}

} // verus!
