//! Words as sequences of letters: reading the letters of a string, ASCII
//! upper case, and counting letters.

use vstd::prelude::*;

verus! {

/// The ASCII upper-case form of a character: `a` to `z` become `A` to `Z`,
/// every other character stays as it is.
pub open spec fn upper(c: char) -> char {
    if 'a' <= c && c <= 'z' {
        ((c as u8) - 32) as char
    } else {
        c
    }
}

/// A word in upper case, letter by letter.
pub open spec fn upper_word(word: Seq<char>) -> Seq<char> {
    word.map_values(|c: char| upper(c))
}

/// The ASCII upper-case form of a character.
pub fn to_upper(c: char) -> (u: char)
    ensures
        u == upper(c),
{
    if 'a' <= c && c <= 'z' {
        ((c as u8) - 32) as char
    } else {
        c
    }
}

/// The letters of a text, in order.
pub fn letters_of(text: &str) -> (letters: Vec<char>)
    ensures
        letters@ == text@,
{
    let mut letters: Vec<char> = Vec::new();
    for c in it: text.chars()
        invariant
            letters@ == it.seq().take(it.index()),
            it.seq() == text@,
    {
        letters.push(c);
    }
    letters
}

/// The letters of a text in upper case, in order.
pub fn upper_letters_of(text: &str) -> (letters: Vec<char>)
    ensures
        letters@ == upper_word(text@),
{
    let mut letters: Vec<char> = Vec::new();
    for c in it: text.chars()
        invariant
            letters@ == upper_word(text@.take(it.index())),
            it.seq() == text@,
    {
        letters.push(to_upper(c));
        assert(upper_word(text@.take(it.index() + 1)) =~= upper_word(
            text@.take(it.index()),
        ).push(upper(c)));
    }
    assert(text@.take(text@.len() as int) =~= text@);
    letters
}

/// How often the letter `c` occurs in `s`.
pub open spec fn occurrences(s: Seq<char>, c: char) -> nat
    decreases s.len(),
{
    if s.len() == 0 {
        0
    } else {
        occurrences(s.drop_last(), c) + if s.last() == c {
            1nat
        } else {
            0nat
        }
    }
}

/// The letters of `s` without repetition, each at the place of its first
/// occurrence.
pub open spec fn distinct_letters(s: Seq<char>) -> Seq<char>
    decreases s.len(),
{
    if s.len() == 0 {
        Seq::empty()
    } else {
        let before = distinct_letters(s.drop_last());
        if before.contains(s.last()) {
            before
        } else {
            before.push(s.last())
        }
    }
}

/// A letter occurs at most as often as the text is long.
pub proof fn lemma_occurrences_bounded(s: Seq<char>, c: char)
    ensures
        occurrences(s, c) <= s.len(),
    decreases s.len(),
{
    if s.len() > 0 {
        lemma_occurrences_bounded(s.drop_last(), c);
    }
}

/// A letter occurs in a text exactly if its number of occurrences is not zero.
pub proof fn lemma_occurrences_positive(s: Seq<char>, c: char)
    ensures
        occurrences(s, c) > 0 <==> s.contains(c),
    decreases s.len(),
{
    if s.len() > 0 {
        let rest = s.drop_last();
        lemma_occurrences_positive(rest, c);
        if s.contains(c) {
            let k = choose|k: int| 0 <= k < s.len() && s[k] == c;
            if k < s.len() - 1 {
                assert(rest[k] == c);
            }
        }
        if rest.contains(c) {
            let k = choose|k: int| 0 <= k < rest.len() && rest[k] == c;
            assert(s[k] == c);
        }
    }
}

/// `distinct_letters` holds every letter of the text once and no other.
pub proof fn lemma_distinct_letters(s: Seq<char>)
    ensures
        distinct_letters(s).no_duplicates(),
        forall|c: char| #[trigger] distinct_letters(s).contains(c) <==> s.contains(c),
        distinct_letters(s).len() <= s.len(),
        distinct_letters(s).to_set() == s.to_set(),
        distinct_letters(s).len() == s.to_set().len(),
    decreases s.len(),
{
    let d = distinct_letters(s);
    if s.len() > 0 {
        let rest = s.drop_last();
        let before = distinct_letters(rest);
        lemma_distinct_letters(rest);
        assert forall|c: char| d.contains(c) <==> s.contains(c) by {
            assert(before.contains(c) <==> rest.contains(c));
            if d.contains(c) {
                let k = choose|k: int| 0 <= k < d.len() && d[k] == c;
                if k < before.len() {
                    assert(before[k] == c);
                    assert(before.contains(c));
                    let j = choose|j: int| 0 <= j < rest.len() && rest[j] == c;
                    assert(s[j] == c);
                } else {
                    assert(s[s.len() - 1] == c);
                }
            }
            if s.contains(c) {
                let k = choose|k: int| 0 <= k < s.len() && s[k] == c;
                if k < s.len() - 1 {
                    assert(rest[k] == c);
                    assert(rest.contains(c));
                    let j = choose|j: int| 0 <= j < before.len() && before[j] == c;
                    assert(d[j] == c);
                } else if before.contains(c) {
                } else {
                    assert(d[d.len() - 1] == c);
                }
            }
        }
    }
    assert(d.to_set() =~= s.to_set());
    d.unique_seq_to_set();
}

} // verus!
