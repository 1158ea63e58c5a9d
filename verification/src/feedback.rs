//! The feedback that a guess earns against a solution, and its code of one
//! character per letter.

use vstd::prelude::*;
use crate::counts::LetterCounts;

verus! {

/// What one letter of a guess earns.
#[derive(Clone, Copy, Debug, PartialEq, Eq, Structural)]
pub enum FeedbackSymbol {
    /// The letter stands at this place in the solution.
    Exact,
    /// The letter occurs in the solution, at another place.
    Misplaced,
    /// The solution has no occurrence left for this letter.
    Absent,
}

/// Why a feedback code was not accepted.
#[derive(Clone, Copy, Debug, PartialEq, Eq, Structural)]
pub enum FeedbackError {
    /// The code has not one character for each letter of the guess.
    WrongLength,
    /// The code holds a character that stands for no symbol.
    UnknownSymbol,
}

/// The number of places `k < n` at which `a` holds the letter `c` and `b`
/// holds another letter.
pub open spec fn unmatched(a: Seq<char>, b: Seq<char>, c: char, n: int) -> nat
    decreases n,
{
    if n <= 0 {
        0
    } else {
        unmatched(a, b, c, n - 1) + if a[n - 1] == c && b[n - 1] != c {
            1nat
        } else {
            0nat
        }
    }
}

/// What the letter at place `i` of `guess` earns against `solution`. A letter
/// at its right place is `Exact`. The other occurrences of a letter are
/// served from the left: as many of them are `Misplaced` as the solution has
/// occurrences of the letter that no `Exact` place uses, the rest is `Absent`.
pub open spec fn feedback_at(guess: Seq<char>, solution: Seq<char>, i: int) -> FeedbackSymbol {
    if guess[i] == solution[i] {
        FeedbackSymbol::Exact
    } else if unmatched(guess, solution, guess[i], i) < unmatched(
        solution,
        guess,
        guess[i],
        solution.len() as int,
    ) {
        FeedbackSymbol::Misplaced
    } else {
        FeedbackSymbol::Absent
    }
}

/// The feedback of a guess against a solution of the same length.
pub open spec fn feedback(guess: Seq<char>, solution: Seq<char>) -> Seq<FeedbackSymbol> {
    Seq::new(guess.len(), |i: int| feedback_at(guess, solution, i))
}

/// The character that stands for a symbol in a feedback code.
pub open spec fn symbol_code(symbol: FeedbackSymbol) -> char {
    match symbol {
        FeedbackSymbol::Exact => '1',
        FeedbackSymbol::Misplaced => '-',
        FeedbackSymbol::Absent => 'x',
    }
}

/// The symbol that a character of a feedback code stands for, if any.
pub open spec fn decode_symbol(code: char) -> Option<FeedbackSymbol> {
    if code == '1' {
        Some(FeedbackSymbol::Exact)
    } else if code == '-' {
        Some(FeedbackSymbol::Misplaced)
    } else if code == '0' || code == 'x' {
        Some(FeedbackSymbol::Absent)
    } else {
        None
    }
}

/// Whether every character of a feedback code stands for a symbol.
pub open spec fn valid_code(code: Seq<char>) -> bool {
    forall|i: int| 0 <= i < code.len() ==> (#[trigger] decode_symbol(code[i])) is Some
}

/// The symbols of a feedback code, meant for a valid one.
pub open spec fn decode(code: Seq<char>) -> Seq<FeedbackSymbol> {
    Seq::new(code.len(), |i: int| decode_symbol(code[i]).unwrap())
}

/// The feedback code of a sequence of symbols.
pub open spec fn encode(symbols: Seq<FeedbackSymbol>) -> Seq<char> {
    Seq::new(symbols.len(), |i: int| symbol_code(symbols[i]))
}

/// `unmatched` counts at most `n` places.
pub proof fn lemma_unmatched_bounded(a: Seq<char>, b: Seq<char>, c: char, n: int)
    requires
        0 <= n,
    ensures
        unmatched(a, b, c, n) <= n,
    decreases n,
{
    if n > 0 {
        lemma_unmatched_bounded(a, b, c, n - 1);
    }
}

/// The symbol that a character of a feedback code stands for.
pub fn symbol_of(code: char) -> (symbol: Option<FeedbackSymbol>)
    ensures
        symbol == decode_symbol(code),
{
    if code == '1' {
        Some(FeedbackSymbol::Exact)
    } else if code == '-' {
        Some(FeedbackSymbol::Misplaced)
    } else if code == '0' || code == 'x' {
        Some(FeedbackSymbol::Absent)
    } else {
        None
    }
}

/// The character that stands for a symbol in a feedback code.
pub fn code_of(symbol: FeedbackSymbol) -> (code: char)
    ensures
        code == symbol_code(symbol),
{
    match symbol {
        FeedbackSymbol::Exact => '1',
        FeedbackSymbol::Misplaced => '-',
        FeedbackSymbol::Absent => 'x',
    }
}

/// Reads a feedback code: `1` is `Exact`, `-` is `Misplaced`, `0` and `x` are
/// `Absent`. A code with any other character is refused.
pub fn decode_feedback(code: &Vec<char>) -> (symbols: Result<Vec<FeedbackSymbol>, FeedbackError>)
    ensures
        valid_code(code@) ==> symbols is Ok && symbols->Ok_0@ == decode(code@),
        !valid_code(code@) ==> symbols == Err::<Vec<FeedbackSymbol>, FeedbackError>(
            FeedbackError::UnknownSymbol,
        ),
{
    let mut symbols: Vec<FeedbackSymbol> = Vec::new();
    let n: usize = code.len();
    let mut i: usize = 0;
    while i < n
        invariant
            n == code@.len(),
            i <= n,
            symbols@.len() == i,
            forall|k: int| 0 <= k < i ==> decode_symbol(code@[k]) == Some(#[trigger] symbols@[k]),
        decreases n - i,
    {
        match symbol_of(code[i]) {
            Some(symbol) => {
                symbols.push(symbol);
            },
            None => {
                assert(decode_symbol(code@[i as int]) is None);
                return Err(FeedbackError::UnknownSymbol);
            },
        }
        i = i + 1;
    }
    assert forall|k: int| 0 <= k < code@.len() implies (#[trigger] decode_symbol(code@[k])) is Some by {
        assert(decode_symbol(code@[k]) == Some(symbols@[k]));
    }
    assert(symbols@ =~= decode(code@));
    Ok(symbols)
}

/// Scores a guess against a solution of the same length, in two passes.
/// The first pass counts, for each letter, the places of the solution that
/// hold it while the guess holds another letter there. The second pass walks
/// the guess from the left: a letter at its right place is `Exact`; any
/// other letter is `Misplaced` while the count of its letter is not used up,
/// and uses one up; after that it is `Absent`.
pub fn score_guess(guess: &Vec<char>, solution: &Vec<char>) -> (symbols: Vec<FeedbackSymbol>)
    requires
        guess@.len() == solution@.len(),
    ensures
        symbols@ == feedback(guess@, solution@),
{
    let n: usize = guess.len();
    let mut remaining = LetterCounts::new();
    let mut i: usize = 0;
    while i < n
        invariant
            n == guess@.len(),
            n == solution@.len(),
            i <= n,
            remaining.wf(),
            forall|c: char| remaining.count(c) == unmatched(solution@, guess@, c, i as int),
        decreases n - i,
    {
        if solution[i] != guess[i] {
            proof {
                lemma_unmatched_bounded(solution@, guess@, solution@[i as int], i as int);
            }
            remaining.add(solution[i]);
        }
        i = i + 1;
    }
    let mut symbols: Vec<FeedbackSymbol> = Vec::new();
    let mut i: usize = 0;
    while i < n
        invariant
            n == guess@.len(),
            n == solution@.len(),
            i <= n,
            remaining.wf(),
            symbols@.len() == i,
            forall|k: int| 0 <= k < i ==> #[trigger] symbols@[k] == feedback_at(guess@, solution@, k),
            forall|c: char|
                remaining.count(c) == spare(
                    unmatched(solution@, guess@, c, n as int),
                    unmatched(guess@, solution@, c, i as int),
                ),
        decreases n - i,
    {
        if solution[i] == guess[i] {
            symbols.push(FeedbackSymbol::Exact);
        } else if remaining.take(guess[i]) {
            symbols.push(FeedbackSymbol::Misplaced);
        } else {
            symbols.push(FeedbackSymbol::Absent);
        }
        i = i + 1;
    }
    assert(symbols@ =~= feedback(guess@, solution@));
    symbols
}

/// What is left of `free` occurrences after `used` of them were asked for.
pub open spec fn spare(free: nat, used: nat) -> nat {
    if free >= used {
        (free - used) as nat
    } else {
        0
    }
}

} // verus!
