//! How a word is shown.

use vstd::prelude::*;
use crate::letters::{letters_of, to_upper, upper};
use crate::states::{joined, plain_block};
use crate::strings::push_char;

verus! {

/// The letters of a word in upper case, each in square brackets.
pub open spec fn word_blocks(word: Seq<char>) -> Seq<Seq<char>> {
    Seq::new(word.len(), |i: int| plain_block(upper(word[i])))
}

/// Shows a word: its letters in upper case, each in square brackets.
pub fn display_word(word: &String) -> (repr: String)
    ensures
        repr@ == joined(word_blocks(word@)),
{
    let letters = letters_of(word.as_str());
    let mut repr = String::new();
    let n: usize = letters.len();
    let mut i: usize = 0;
    assert(word_blocks(word@).take(0) =~= Seq::<Seq<char>>::empty());
    while i < n
        invariant
            n == letters@.len(),
            letters@ == word@,
            i <= n,
            repr@ == joined(word_blocks(word@).take(i as int)),
        decreases n - i,
    {
        let ghost before = repr@;
        push_char(&mut repr, '[');
        push_char(&mut repr, to_upper(letters[i]));
        push_char(&mut repr, ']');
        proof {
            let next = word_blocks(word@).take(i + 1);
            assert(next.drop_last() =~= word_blocks(word@).take(i as int));
            assert(next.last() == plain_block(upper(word@[i as int])));
            assert(repr@ =~= before + plain_block(upper(word@[i as int])));
        }
        i = i + 1;
    }
    assert(word_blocks(word@).take(n as int) =~= word_blocks(word@));
    repr
}

} // verus!
