//! Regular expressions.

use crate::text::opt_text;
use vstd::prelude::*;

verus! {

/// Why a pattern cannot be used, with or without regard to case.
pub uninterp spec fn pattern_fault(pattern: Seq<char>, ignore_case: bool) -> Option<Seq<char>>;

/// Whether a pattern matches somewhere in a text, with or without regard to case.
pub uninterp spec fn pattern_found(pattern: Seq<char>, ignore_case: bool, text: Seq<char>) -> bool;

/// `regex::RegexBuilder::build` compiles a pattern or says why it cannot, and `regex::Regex::is_match`
/// says of each text whether the pattern matches in it. Both depend on the arguments alone.
#[verifier::external_body]
pub(crate) fn matches_in(pattern: &str, ignore_case: bool, texts: &Vec<String>) -> (r: Result<
    Vec<bool>,
    String,
>)
    ensures
        match r {
            Ok(found) => {
                &&& pattern_fault(pattern@, ignore_case) is None
                &&& found@.len() == texts@.len()
                &&& forall|i: int|
                    0 <= i < texts@.len() ==> #[trigger] found@[i] == pattern_found(
                        pattern@,
                        ignore_case,
                        texts@[i]@,
                    )
            },
            Err(fault) => pattern_fault(pattern@, ignore_case) == Some(fault@),
        },
{
    let built = regex::RegexBuilder::new(pattern).case_insensitive(ignore_case).build();
    match built {
        Ok(re) => Ok(texts.iter().map(|text| re.is_match(text)).collect()),
        Err(err) => Err(err.to_string()),
    }
}

/// A text without what a pattern matches in it; nothing if the pattern cannot be used.
pub uninterp spec fn pattern_removed(pattern: Seq<char>, text: Seq<char>) -> Option<Seq<char>>;

/// `regex::Regex::replace_all` replaces every match of a pattern by nothing. What is left depends on
/// the pattern and the text alone.
#[verifier::external_body]
pub(crate) fn remove_matches(pattern: &str, text: &str) -> (r: Option<String>)
    ensures
        opt_text(r) == pattern_removed(pattern@, text@),
{
    regex::Regex::new(pattern).ok().map(|re| re.replace_all(text, "").into_owned())
}

/// Whether a character has a meaning of its own in a pattern.
pub open spec fn is_meta(c: char) -> bool {
    c == '\\' || c == '.' || c == '+' || c == '*' || c == '?' || c == '(' || c == ')' || c == '|' || c
        == '[' || c == ']' || c == '{' || c == '}' || c == '^' || c == '$' || c == '#' || c == '&' || c
        == '-' || c == '~'
}

/// The pattern that matches a text and nothing else.
pub open spec fn literal(text: Seq<char>) -> Seq<char>
    decreases text.len(),
{
    if text.len() == 0 {
        Seq::empty()
    } else if is_meta(text.last()) {
        literal(text.drop_last()).push('\\').push(text.last())
    } else {
        literal(text.drop_last()).push(text.last())
    }
}

/// `regex::escape` puts a backslash before each character that has a meaning of its own.
#[verifier::external_body]
pub(crate) fn escape(text: &str) -> (r: String)
    ensures
        r@ == literal(text@),
{
    regex::escape(text)
}

} // verus!
