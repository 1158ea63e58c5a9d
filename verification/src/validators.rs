//! Whether what the player entered can be used: a guess, and the feedback to
//! a guess.

use vstd::prelude::*;
use crate::config::ConfigParams;
use crate::feedback::{decode_symbol, symbol_of, valid_code};
use crate::letters::letters_of;
use crate::patterns::{construct_regex, is_match, regex_accepts, regex_valid};
use crate::utils::length_of_word;

verus! {

/// The pattern of a text of letters, digits and underscores.
pub const WORD_CHARS: &'static str = r"^\w*$";

/// The pattern of a text without a digit.
pub const NO_DIGITS: &'static str = r"^\D*$";

/// Whether a guess can be used, given its length, the length that is asked
/// for, and what the two patterns found: it has the right length, holds
/// letters, digits and underscores alone, and holds no digit.
pub fn guess_verdict(length: usize, size: usize, word_chars: bool, no_digits: bool) -> (ok: bool)
    ensures
        ok == (length == size && word_chars && no_digits),
{
    length == size && word_chars && no_digits
}

/// Whether a guess can be used: it has as many letters as the solution, and
/// it consists of letters. There is no verdict if a pattern does not
/// compile.
pub fn validate_guess(guess: &String, config: &ConfigParams) -> (verdict: Option<bool>)
    ensures
        verdict is Some <==> regex_valid(WORD_CHARS@) && regex_valid(NO_DIGITS@),
        verdict is Some ==> verdict->0 == (guess@.len() == config.size_of_wordle && regex_accepts(
            WORD_CHARS@,
            guess@,
        ) && regex_accepts(NO_DIGITS@, guess@)),
{
    let n = config.size_of_wordle;
    let re1 = match construct_regex(WORD_CHARS) {
        Some(re) => re,
        None => {
            return None;
        },
    };
    let re2 = match construct_regex(NO_DIGITS) {
        Some(re) => re,
        None => {
            return None;
        },
    };
    let word_chars = is_match(&re1, guess.as_str());
    let no_digits = is_match(&re2, guess.as_str());
    Some(guess_verdict(length_of_word(guess), n, word_chars, no_digits))
}

/// Whether the feedback to a guess can be used: it has as many characters as
/// the solution has letters, each of them `0`, `1`, `x` or `-`.
pub fn validate_feedback(_guess: &String, feedback: &String, config: &ConfigParams) -> (verdict:
    Option<()>)
    ensures
        verdict is Some <==> feedback@.len() == config.size_of_wordle && valid_code(feedback@),
{
    let n = config.size_of_wordle;
    let codes = letters_of(feedback.as_str());
    if codes.len() != n {
        return None;
    }
    let mut i: usize = 0;
    while i < n
        invariant
            n == codes@.len(),
            codes@ == feedback@,
            i <= n,
            forall|k: int| 0 <= k < i ==> (#[trigger] decode_symbol(codes@[k])) is Some,
        decreases n - i,
    {
        if symbol_of(codes[i]).is_none() {
            assert(decode_symbol(feedback@[i as int]) is None);
            return None;
        }
        i = i + 1;
    }
    Some(())
}

} // verus!
