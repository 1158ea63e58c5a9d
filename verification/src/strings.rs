//! Building strings from letters.

use vstd::prelude::*;

verus! {

/// `String::push` of the standard library: the character is appended to the
/// string, and nothing else changes.
#[verifier::external_body]
pub(crate) fn push_char(text: &mut String, c: char)
    ensures
        final(text)@ == old(text)@.push(c),
{
    text.push(c)
}

/// The string that holds the given letters.
pub fn string_of(letters: &Vec<char>) -> (text: String)
    ensures
        text@ == letters@,
{
    let mut text = String::new();
    let n: usize = letters.len();
    let mut i: usize = 0;
    while i < n
        invariant
            n == letters@.len(),
            i <= n,
            text@ == letters@.take(i as int),
        decreases n - i,
    {
        push_char(&mut text, letters[i]);
        assert(letters@.take(i + 1) =~= letters@.take(i as int).push(letters@[i as int]));
        i = i + 1;
    }
    assert(letters@.take(n as int) =~= letters@);
    text
}

} // verus!
