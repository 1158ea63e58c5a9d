//! Texts that are made from a template. The template is laid out by the
//! `textwrap` crate and filled in by the `dyn-fmt` crate; a list is joined by
//! the `itertools` crate. What `textwrap` and `dyn-fmt` answer is taken on
//! trust.

use vstd::prelude::*;
use dyn_fmt::AsStrFormatExt;
use crate::patterns::{construct_regex, regex_replaced, regex_valid, replace_all};
use crate::strings::push_char;
use crate::texts::{decimal, decimal_string, join_texts, joined_with};
use crate::utils::texts;

verus! {

/// The text without the white space that all its lines begin with, as
/// `textwrap::dedent` gives it.
pub uninterp spec fn dedented(text: Seq<char>) -> Seq<char>;

/// The template with its `{}` replaced by the arguments in their order, as
/// `dyn_fmt::AsStrFormatExt::format` gives it.
pub uninterp spec fn filled(template: Seq<char>, args: Seq<Seq<char>>) -> Seq<char>;

/// The text in upper case, as `str::to_uppercase` gives it.
pub uninterp spec fn uppercased(text: Seq<char>) -> Seq<char>;

/// `str::to_uppercase` of the standard library: the text in upper case by
/// the rules of Unicode, which depends on the text alone.
#[verifier::external_body]
pub(crate) fn to_uppercase(text: &str) -> (upper: String)
    ensures
        upper@ == uppercased(text@),
{
    text.to_uppercase()
}

/// `textwrap::dedent`: the result depends on the text alone.
#[verifier::external_body]
pub(crate) fn dedent(text: &str) -> (plain: String)
    ensures
        plain@ == dedented(text@),
{
    textwrap::dedent(text)
}

/// `dyn_fmt::AsStrFormatExt::format`: the result depends on the template
/// and on the arguments alone.
#[verifier::external_body]
pub(crate) fn fill(template: &str, args: &Vec<String>) -> (text: String)
    ensures
        text@ == filled(template@, texts(args@)),
{
    template.format(args)
}

/// `itertools::join`: the items in their order, with the separator between
/// each two of them.
#[verifier::external_body]
pub(crate) fn join(parts: &Vec<String>, separator: &str) -> (text: String)
    ensures
        text@ == joined_with(texts(parts@), separator@),
{
    itertools::join(parts, separator)
}

/// The pattern of what surrounds a template: the line of white space that
/// it starts with, and the white space behind its last line feed.
pub const FIRST_AND_LAST: &'static str = r"(^\s*\n)|(\n\s*$)";

/// A template made plain: without its first line if that holds white space
/// alone, without the white space behind its last line feed, and without
/// the white space that all its lines begin with.
pub open spec fn plain_template(text: Seq<char>) -> Seq<char> {
    dedented(regex_replaced(FIRST_AND_LAST@, text, Seq::<char>::empty()))
}

/// A template as it is written in the source, made plain: without its first
/// line if that holds white space alone, without the white space behind its
/// last line feed, and without the white space that all its lines begin
/// with. There is no result if the pattern does not compile.
pub fn dedent_ignore_first_last(text: &str) -> (plain: Option<String>)
    ensures
        plain is Some <==> regex_valid(FIRST_AND_LAST@),
        plain is Some ==> plain->0@ == plain_template(text@),
{
    let re = match construct_regex(FIRST_AND_LAST) {
        Some(re) => re,
        None => {
            return None;
        },
    };
    let empty = String::new();
    let text_remove_first_last = replace_all(&re, text, empty.as_str());
    Some(dedent(text_remove_first_last.as_str()))
}

/// Values that can be written as a text.
pub trait HasToString {
    /// The text of the value.
    spec fn text(&self) -> Seq<char>;

    /// The text of the value.
    fn _to_string(&self) -> (text: String)
        ensures
            text@ == self.text(),
    ;
}

impl HasToString for usize {
    open spec fn text(&self) -> Seq<char> {
        decimal(*self as nat)
    }

    fn _to_string(&self) -> (text: String) {
        decimal_string(*self)
    }
}

/// The texts of the values of a list.
pub open spec fn texts_of<T: HasToString>(values: Seq<T>) -> Seq<Seq<char>> {
    values.map_values(|value: T| value.text())
}

/// A list as a text: its values in square brackets, with a comma and a
/// blank between each two of them.
pub open spec fn list_text<T: HasToString>(values: Seq<T>) -> Seq<char> {
    seq!['['] + joined_with(texts_of(values), seq![',', ' ']) + seq![']']
}

/// Writes a list as a text: its values in square brackets, with a comma and
/// a blank between each two of them.
pub fn array_to_string<T: HasToString>(arr: &Vec<T>) -> (text: String)
    ensures
        text@ == list_text(arr@),
{
    let mut parts: Vec<String> = Vec::new();
    let n: usize = arr.len();
    let mut i: usize = 0;
    while i < n
        invariant
            n == arr@.len(),
            i <= n,
            parts@.len() == i,
            forall|k: int| 0 <= k < i ==> (#[trigger] parts@[k])@ == arr@[k].text(),
        decreases n - i,
    {
        parts.push(arr[i]._to_string());
        i = i + 1;
    }
    assert(parts@.map_values(|part: String| part@) =~= texts_of(arr@));
    let mut separator = String::new();
    push_char(&mut separator, ',');
    push_char(&mut separator, ' ');
    assert(separator@ =~= seq![',', ' ']);
    let inside = join_texts(&parts, separator.as_str());
    let mut text = String::new();
    push_char(&mut text, '[');
    text.append(inside.as_str());
    push_char(&mut text, ']');
    assert(text@ =~= list_text(arr@));
    text
}

} // verus!
