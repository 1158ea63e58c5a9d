//! Small helpers on numbers, texts and letters.

use vstd::prelude::*;
use crate::counts::{count_letters, LetterCounts};
use crate::letters::{
    distinct_letters, lemma_distinct_letters, lemma_occurrences_bounded,
    lemma_occurrences_positive, letters_of, occurrences, to_upper, upper, upper_word,
};
use crate::strings::push_char;

verus! {

/// The nearest value of `i8`: 127 for a greater number, -128 for a smaller
/// one.
pub fn i64_to_i8(n: i64) -> (m: i8)
    ensures
        m == if n > i8::MAX {
            i8::MAX as int
        } else if n < i8::MIN {
            i8::MIN as int
        } else {
            n as int
        },
{
    if n > i8::MAX as i64 {
        i8::MAX
    } else if n < i8::MIN as i64 {
        i8::MIN
    } else {
        n as i8
    }
}

/// The number as a `usize`: itself where it fits, else what its low bits
/// give.
pub fn i64_to_usize(n: i64) -> (m: usize)
    ensures
        m == n as usize,
        0 <= n <= usize::MAX ==> m == n,
{
    #[verifier::truncate]
    (n as usize)
}

/// The value of the option, or the default where it has none.
pub fn attribute_or_default<T>(opt: Option<T>, default: T) -> (value: T)
    ensures
        value == match opt {
            Some(v) => v,
            None => default,
        },
{
    match opt {
        Some(v) => v,
        None => default,
    }
}

/// The letters of the words, one word after the other.
pub open spec fn all_letters(words: Seq<String>) -> Seq<char>
    decreases words.len(),
{
    if words.len() == 0 {
        Seq::empty()
    } else {
        all_letters(words.drop_last()) + words.last()@
    }
}

/// Each letter of a text as a text of its own.
pub open spec fn single_letters(text: Seq<char>) -> Seq<Seq<char>> {
    Seq::new(text.len(), |i: int| seq![text[i]])
}

/// The texts of a list of strings.
pub open spec fn texts(strings: Seq<String>) -> Seq<Seq<char>> {
    strings.map_values(|s: String| s@)
}

/// The string that holds one letter.
fn letter_string(c: char) -> (text: String)
    ensures
        text@ == seq![c],
{
    let mut text = String::new();
    push_char(&mut text, c);
    assert(text@ =~= seq![c]);
    text
}

/// The letters of a list as strings of one letter each.
fn letter_strings(letters: &Vec<char>) -> (chars: Vec<String>)
    ensures
        texts(chars@) == single_letters(letters@),
{
    let mut chars: Vec<String> = Vec::new();
    let n: usize = letters.len();
    let mut i: usize = 0;
    while i < n
        invariant
            n == letters@.len(),
            i <= n,
            chars@.len() == i,
            forall|k: int| 0 <= k < i ==> (#[trigger] chars@[k])@ == seq![letters@[k]],
        decreases n - i,
    {
        chars.push(letter_string(letters[i]));
        i = i + 1;
    }
    assert(texts(chars@) =~= single_letters(letters@));
    chars
}

/// Splits a text into its letters, each as a string of its own.
pub fn string_to_chars(text: &str) -> (chars: Vec<String>)
    ensures
        texts(chars@) == single_letters(text@),
{
    let letters = letters_of(text);
    letter_strings(&letters)
}

/// Every text of the list in ASCII upper case.
pub fn chars_to_uppercase(chars: Vec<String>) -> (upper_chars: Vec<String>)
    ensures
        texts(upper_chars@) == texts(chars@).map_values(|t: Seq<char>| upper_word(t)),
{
    let mut upper_chars: Vec<String> = Vec::new();
    let n: usize = chars.len();
    let mut i: usize = 0;
    while i < n
        invariant
            n == chars@.len(),
            i <= n,
            upper_chars@.len() == i,
            forall|k: int| 0 <= k < i ==> (#[trigger] upper_chars@[k])@ == upper_word(chars@[k]@),
        decreases n - i,
    {
        let letters = letters_of(chars[i].as_str());
        let mut text = String::new();
        let m: usize = letters.len();
        let mut j: usize = 0;
        assert(text@ =~= upper_word(letters@.take(0)));
        while j < m
            invariant
                m == letters@.len(),
                j <= m,
                text@ == upper_word(letters@.take(j as int)),
            decreases m - j,
        {
            push_char(&mut text, to_upper(letters[j]));
            assert(upper_word(letters@.take(j + 1)) =~= upper_word(letters@.take(j as int)).push(
                upper(letters@[j as int]),
            ));
            j = j + 1;
        }
        assert(letters@.take(m as int) =~= letters@);
        upper_chars.push(text);
        i = i + 1;
    }
    assert(texts(upper_chars@) =~= texts(chars@).map_values(|t: Seq<char>| upper_word(t)));
    upper_chars
}

/// Every text of the list in ASCII upper case, exactly as
/// `chars_to_uppercase` gives it. The name notwithstanding, no letter is put
/// in lower case.
pub fn chars_to_lowercase(chars: Vec<String>) -> (upper_chars: Vec<String>)
    ensures
        texts(upper_chars@) == texts(chars@).map_values(|t: Seq<char>| upper_word(t)),
{
    chars_to_uppercase(chars)
}

/// The number of letters of a word.
pub fn length_of_word(text: &String) -> (n: usize)
    ensures
        n == text@.len(),
{
    text.as_str().unicode_len()
}

/// `str::from_utf8` of the standard library: bytes are read as a text if
/// and only if they are valid UTF-8, and the text is what they encode.
#[verifier::external_body]
fn decode_text(data: &Vec<u8>) -> (text: Option<String>)
    ensures
        text is Some <==> vstd::utf8::valid_utf8(data@),
        text is Some ==> text->0@ == vstd::utf8::decode_utf8(data@),
{
    match std::str::from_utf8(data) {
        Ok(text) => Some(text.to_string()),
        Err(_) => None,
    }
}

/// The text of a file that is given by its bytes, if they are valid UTF-8.
pub fn read_from_embedded_file(data: &Vec<u8>) -> (text: Option<String>)
    ensures
        text is Some <==> vstd::utf8::valid_utf8(data@),
        text is Some ==> text->0@ == vstd::utf8::decode_utf8(data@),
{
    decode_text(data)
}

/// The letters of all the words in one list.
fn gather_letters(words: &Vec<String>) -> (letters: Vec<char>)
    ensures
        letters@ == all_letters(words@),
{
    let mut letters: Vec<char> = Vec::new();
    let n: usize = words.len();
    let mut i: usize = 0;
    assert(words@.take(0) =~= Seq::<String>::empty());
    while i < n
        invariant
            n == words@.len(),
            i <= n,
            letters@ == all_letters(words@.take(i as int)),
        decreases n - i,
    {
        let mut word_letters = letters_of(words[i].as_str());
        proof {
            let next = words@.take(i + 1);
            assert(next.drop_last() =~= words@.take(i as int));
            assert(next.last() == words@[i as int]);
        }
        letters.append(&mut word_letters);
        i = i + 1;
    }
    assert(words@.take(n as int) =~= words@);
    letters
}

/// The letters that occur in the words, each once, in the order in which
/// they first occur.
pub fn get_letters_in_strings(words: &Vec<String>) -> (letters: Vec<String>)
    ensures
        texts(letters@) == single_letters(distinct_letters(all_letters(words@))),
{
    let all = gather_letters(words);
    let table = count_letters(&all);
    let n: usize = table.len();
    let mut found: Vec<char> = Vec::new();
    let mut i: usize = 0;
    while i < n
        invariant
            n == table.entries().len(),
            i <= n,
            found@ == table.letters().take(i as int),
        decreases n - i,
    {
        let entry = table.entry(i);
        found.push(entry.0);
        assert(table.letters().take(i + 1) =~= table.letters().take(i as int).push(entry.0));
        i = i + 1;
    }
    assert(table.letters().take(n as int) =~= table.letters());
    letter_strings(&found)
}

/// The letters that occur in the word, each once, in the order in which
/// they first occur.
pub fn get_letters_in_string(word: &String) -> (letters: Vec<String>)
    ensures
        texts(letters@) == single_letters(distinct_letters(word@)),
{
    let mut words: Vec<String> = Vec::new();
    words.push(word.clone());
    proof {
        assert(words@.len() == 1);
        assert(words@.last() == *word);
        assert(words@.drop_last() =~= Seq::<String>::empty());
        assert(all_letters(words@.drop_last()) =~= Seq::<char>::empty());
        assert(all_letters(words@) =~= word@);
    }
    get_letters_in_strings(&words)
}

/// How often each letter occurs in the words, all words taken together.
pub fn get_letter_frequencies_in_strings(words: &Vec<String>) -> (counts: LetterCounts)
    ensures
        counts.wf(),
        forall|c: char| counts.count(c) == occurrences(all_letters(words@), c),
        counts.letters() == distinct_letters(all_letters(words@)),
{
    let all = gather_letters(words);
    count_letters(&all)
}

/// How often each letter occurs in the word.
pub fn get_letter_frequencies_in_string(word: &String) -> (counts: LetterCounts)
    ensures
        counts.wf(),
        forall|c: char| counts.count(c) == occurrences(word@, c),
        counts.letters() == distinct_letters(word@),
{
    let letters = letters_of(word.as_str());
    count_letters(&letters)
}

/// Every letter of a pool occurs in it at least once, and no more often
/// than the pool has letters: its share of the letters is above zero and at
/// most one.
pub proof fn lemma_letter_share(words: Seq<String>, c: char)
    requires
        all_letters(words).contains(c),
    ensures
        0 < occurrences(all_letters(words), c) <= all_letters(words).len(),
{
    lemma_occurrences_bounded(all_letters(words), c);
    lemma_occurrences_positive(all_letters(words), c);
}

/// The number of different letters of a text.
pub fn nr_unique_letters(text: &String) -> (n: usize)
    ensures
        n == distinct_letters(text@).len(),
        n == text@.to_set().len(),
{
    let letters = letters_of(text.as_str());
    let table = count_letters(&letters);
    proof {
        lemma_distinct_letters(text@);
    }
    table.len()
}

} // verus!
