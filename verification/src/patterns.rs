//! Regular expressions. They are compiled and matched by the `regex` crate;
//! what it answers is taken on trust.

use vstd::prelude::*;
use regex::Regex;

verus! {

/// A compiled regular expression of the `regex` crate.
#[verifier::external_type_specification]
#[verifier::external_body]
pub struct ExRegex(regex::Regex);

/// What `regex::Regex::new` makes of a pattern: the compiled expression, or
/// nothing for a pattern that it refuses.
pub uninterp spec fn compiled(pattern: Seq<char>) -> Option<Regex>;

/// Whether a compiled expression has a match anywhere in the text, as
/// `regex::Regex::is_match` finds.
pub uninterp spec fn matched(re: Regex, text: Seq<char>) -> bool;

/// The text with every match of a compiled expression replaced, as
/// `regex::Regex::replace_all` gives it.
pub uninterp spec fn replaced(re: Regex, text: Seq<char>, replacement: Seq<char>) -> Seq<char>;

/// Whether a pattern compiles.
pub open spec fn regex_valid(pattern: Seq<char>) -> bool {
    compiled(pattern) is Some
}

/// Whether a pattern compiles and has a match anywhere in the text.
pub open spec fn regex_accepts(pattern: Seq<char>, text: Seq<char>) -> bool {
    compiled(pattern) is Some && matched(compiled(pattern)->0, text)
}

/// The text with every match of a pattern replaced.
pub open spec fn regex_replaced(
    pattern: Seq<char>,
    text: Seq<char>,
    replacement: Seq<char>,
) -> Seq<char> {
    replaced(compiled(pattern)->0, text, replacement)
}

/// `regex::Regex::new`: a pattern either compiles or is refused, and what
/// comes of it depends on the pattern alone.
#[verifier::external_body]
fn compile(pattern: &str) -> (re: Option<Regex>)
    ensures
        re == compiled(pattern@),
{
    Regex::new(pattern).ok()
}

/// `regex::Regex::is_match`: whether the expression has a match in the text
/// depends on the expression and the text alone.
#[verifier::external_body]
pub(crate) fn is_match(re: &Regex, text: &str) -> (found: bool)
    ensures
        found == matched(*re, text@),
{
    re.is_match(text)
}

/// `regex::Regex::replace_all`: the text with the matches replaced depends
/// on the expression, the text and the replacement alone.
#[verifier::external_body]
pub(crate) fn replace_all(re: &Regex, text: &str, replacement: &str) -> (text_replaced: String)
    ensures
        text_replaced@ == replaced(*re, text@, replacement@),
{
    re.replace_all(text, replacement).into_owned()
}

/// Compiles a pattern, if it is a valid one.
pub fn construct_regex(pattern: &str) -> (re: Option<Regex>)
    ensures
        re == compiled(pattern@),
{
    compile(pattern)
}

} // verus!
