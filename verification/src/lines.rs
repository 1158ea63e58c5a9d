//! Reading a text line by line, and reading a list of words from it.

use vstd::prelude::*;
use crate::letters::letters_of;
use crate::patterns::{construct_regex, is_match, regex_accepts, regex_valid};
use crate::strings::string_of;
use crate::texts::{
    leading_space_length, lines_of, part_of, split_lines, trimmed, trimmed_end,
    trimmed_end_length,
};
use crate::utils::texts;

verus! {

/// The pattern of a line that holds white space and nothing else.
pub const BLANK_LINE: &'static str = r"^\s+$";

/// The pattern of a word: letters, digits and underscores, at least one.
pub const WORD: &'static str = r"^\w+$";

/// Whether both patterns of this file are valid.
pub open spec fn patterns_valid() -> bool {
    regex_valid(BLANK_LINE@) && regex_valid(WORD@)
}

/// The lines that are read from the given raw lines: each without the white
/// space at its end. With `skip_empty`, lines of white space alone are left
/// out; a line without any letter is not one of them.
pub open spec fn kept_lines(raw: Seq<Seq<char>>, skip_empty: bool) -> Seq<Seq<char>>
    decreases raw.len(),
{
    if raw.len() == 0 {
        Seq::empty()
    } else {
        let before = kept_lines(raw.drop_last(), skip_empty);
        if skip_empty && regex_accepts(BLANK_LINE@, raw.last()) {
            before
        } else {
            before.push(trimmed_end(raw.last()))
        }
    }
}

/// The words among the given lines: each line without the white space at
/// its ends, if that is a word.
pub open spec fn kept_words(lines: Seq<Seq<char>>) -> Seq<Seq<char>>
    decreases lines.len(),
{
    if lines.len() == 0 {
        Seq::empty()
    } else {
        let before = kept_words(lines.drop_last());
        if regex_accepts(WORD@, trimmed(lines.last())) {
            before.push(trimmed(lines.last()))
        } else {
            before
        }
    }
}

/// The lines of a text, split at its line feeds, each without the white
/// space at its end. With `skip_empty`, lines of white space alone are left
/// out. Nothing is read if the pattern of such a line does not compile.
pub fn read_contents_to_lines(contents: &String, skip_empty: bool) -> (lines: Option<Vec<String>>)
    ensures
        lines is Some <==> regex_valid(BLANK_LINE@),
        lines is Some ==> texts(lines->0@) == kept_lines(split_lines(contents@), skip_empty),
{
    let matcher = match construct_regex(BLANK_LINE) {
        Some(re) => re,
        None => {
            return None;
        },
    };
    let letters = letters_of(contents.as_str());
    let raw_lines = lines_of(&letters);
    let ghost raw = raw_lines@.map_values(|line: Vec<char>| line@);
    let mut lines: Vec<String> = Vec::new();
    let n: usize = raw_lines.len();
    let mut i: usize = 0;
    assert(raw.take(0) =~= Seq::<Seq<char>>::empty());
    assert(texts(lines@) =~= kept_lines(raw.take(0), skip_empty));
    while i < n
        invariant
            n == raw_lines@.len(),
            raw == raw_lines@.map_values(|line: Vec<char>| line@),
            crate::patterns::compiled(BLANK_LINE@) == Some(matcher),
            i <= n,
            texts(lines@) == kept_lines(raw.take(i as int), skip_empty),
        decreases n - i,
    {
        let ghost before = texts(lines@);
        proof {
            let next = raw.take(i + 1);
            assert(next.drop_last() =~= raw.take(i as int));
            assert(next.last() == raw_lines@[i as int]@);
        }
        let line = string_of(&raw_lines[i]);
        if skip_empty && is_match(&matcher, line.as_str()) {
        } else {
            let end = trimmed_end_length(&raw_lines[i]);
            let word = string_of(&part_of(&raw_lines[i], 0, end));
            assert(raw_lines@[i as int]@.subrange(0, end as int) =~= raw_lines@[i as int]@.take(
                end as int,
            ));
            lines.push(word);
            assert(texts(lines@) =~= before.push(trimmed_end(raw_lines@[i as int]@)));
        }
        i = i + 1;
    }
    assert(raw.take(n as int) =~= raw);
    Some(lines)
}

/// The words of a text: its lines without the white space at their ends,
/// as far as they are words. Nothing is read if a pattern does not compile.
pub fn read_words(contents: &String) -> (words: Option<Vec<String>>)
    ensures
        words is Some <==> patterns_valid(),
        words is Some ==> texts(words->0@) == kept_words(
            kept_lines(split_lines(contents@), true),
        ),
{
    let lines = match read_contents_to_lines(contents, true) {
        Some(lines) => lines,
        None => {
            return None;
        },
    };
    let matcher = match construct_regex(WORD) {
        Some(re) => re,
        None => {
            return None;
        },
    };
    let ghost given = texts(lines@);
    let mut words: Vec<String> = Vec::new();
    let n: usize = lines.len();
    let mut i: usize = 0;
    assert(given.take(0) =~= Seq::<Seq<char>>::empty());
    assert(texts(words@) =~= kept_words(given.take(0)));
    while i < n
        invariant
            n == lines@.len(),
            given == texts(lines@),
            crate::patterns::compiled(WORD@) == Some(matcher),
            i <= n,
            texts(words@) == kept_words(given.take(i as int)),
        decreases n - i,
    {
        let ghost before = texts(words@);
        proof {
            let next = given.take(i + 1);
            assert(next.drop_last() =~= given.take(i as int));
            assert(next.last() == lines@[i as int]@);
        }
        let letters = letters_of(lines[i].as_str());
        let end = trimmed_end_length(&letters);
        let start = leading_space_length(&letters, end);
        let word = string_of(&part_of(&letters, start, end));
        if is_match(&matcher, word.as_str()) {
            words.push(word);
            assert(texts(words@) =~= before.push(trimmed(lines@[i as int]@)));
        }
        i = i + 1;
    }
    assert(given.take(n as int) =~= given);
    Some(words)
}

} // verus!
