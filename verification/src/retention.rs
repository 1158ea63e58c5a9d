//! The solution is never eliminated by the feedback that it gives itself.

use vstd::prelude::*;
use crate::constraints::{constraint_for, found_count, lemma_constraint_places};
use crate::feedback::{feedback, feedback_at, unmatched, FeedbackSymbol};
use crate::letters::{occurrences, upper_word};
use crate::states::{constraints_of, WordlState};

verus! {

/// The number of places `k < n` at which both `a` and `b` hold the letter `c`.
pub open spec fn matched(a: Seq<char>, b: Seq<char>, c: char, n: int) -> nat
    decreases n,
{
    if n <= 0 {
        0
    } else {
        matched(a, b, c, n - 1) + if a[n - 1] == c && b[n - 1] == c {
            1nat
        } else {
            0nat
        }
    }
}

/// The smaller of two numbers.
pub open spec fn least(a: nat, b: nat) -> nat {
    if a <= b {
        a
    } else {
        b
    }
}

/// `unmatched` does not fall when more places are counted.
proof fn lemma_unmatched_grows(a: Seq<char>, b: Seq<char>, c: char, m: int, n: int)
    requires
        0 <= m <= n,
    ensures
        unmatched(a, b, c, m) <= unmatched(a, b, c, n),
    decreases n - m,
{
    if m < n {
        lemma_unmatched_grows(a, b, c, m, n - 1);
    }
}

/// The occurrences of a letter in the solution are those at places where
/// the guess holds it too, and those where the guess holds another letter.
proof fn lemma_occurrences_split(guess: Seq<char>, solution: Seq<char>, c: char, n: int)
    requires
        0 <= n <= solution.len(),
    ensures
        occurrences(solution.take(n), c) == matched(guess, solution, c, n) + unmatched(
            solution,
            guess,
            c,
            n,
        ),
    decreases n,
{
    if n > 0 {
        lemma_occurrences_split(guess, solution, c, n - 1);
        assert(solution.take(n).drop_last() =~= solution.take(n - 1));
        assert(solution.take(n).last() == solution[n - 1]);
    }
}

/// Among the first `n` places the letter was found as often as it stands at
/// its right place, and besides as often as the solution has occurrences
/// left for it, but no more often than the guess asks for.
proof fn lemma_found_count(guess: Seq<char>, solution: Seq<char>, c: char, n: int)
    requires
        guess.len() == solution.len(),
        0 <= n <= guess.len(),
    ensures
        found_count(guess, feedback(guess, solution), c, n) == matched(guess, solution, c, n)
            + least(
            unmatched(solution, guess, c, solution.len() as int),
            unmatched(guess, solution, c, n),
        ),
    decreases n,
{
    if n > 0 {
        lemma_found_count(guess, solution, c, n - 1);
        assert(feedback(guess, solution)[n - 1] == feedback_at(guess, solution, n - 1));
    }
}

/// The solution obeys the constraint that its own feedback puts on any
/// letter.
pub proof fn lemma_solution_fits(guess: Seq<char>, solution: Seq<char>, c: char)
    requires
        guess.len() == solution.len(),
        guess.len() <= usize::MAX,
    ensures
        constraint_for(guess, feedback(guess, solution), c).fits(solution),
{
    let n = guess.len() as int;
    let symbols = feedback(guess, solution);
    let constraint = constraint_for(guess, symbols, c);
    lemma_constraint_places(guess, symbols, c, n);
    assert forall|k: int|
        0 <= k < constraint.required.len() && (#[trigger] constraint.required[k])
            < solution.len() implies solution[constraint.required[k] as int] == c by {
        let p = constraint.required[k] as int;
        assert(symbols[p] == feedback_at(guess, solution, p));
    }
    assert forall|k: int|
        0 <= k < constraint.forbidden.len() && (#[trigger] constraint.forbidden[k])
            < solution.len() implies solution[constraint.forbidden[k] as int] != c by {
        let p = constraint.forbidden[k] as int;
        assert(symbols[p] == feedback_at(guess, solution, p));
    }
    lemma_found_count(guess, solution, c, n);
    lemma_occurrences_split(guess, solution, c, n);
    assert(solution.take(n) =~= solution);
    if constraint.bounded {
        let i = choose|i: int|
            0 <= i < n && guess[i] == c && #[trigger] symbols[i] == FeedbackSymbol::Absent;
        assert(symbols[i] == feedback_at(guess, solution, i));
        lemma_unmatched_grows(guess, solution, c, i, n);
    }
}

/// Solution retention: a word of the pool that is the solution is still in
/// the pool after the pool was filtered by the outcome of any guess against
/// that solution.
pub proof fn lemma_solution_retained(
    state: WordlState,
    guess: Seq<char>,
    solution: String,
    words: Seq<String>,
)
    requires
        guess.len() == solution@.len(),
        guess.len() <= usize::MAX,
        state.wf(),
        state.letters() == upper_word(guess),
        state.symbols() == feedback(upper_word(guess), upper_word(solution@)),
        words.contains(solution),
    ensures
        state.compatible(solution@),
        words.filter(state.keeps()).contains(solution),
{
    let letters = upper_word(guess);
    let target = upper_word(solution@);
    let models = constraints_of(letters, state.symbols());
    assert forall|k: int| 0 <= k < models.len() implies (#[trigger] models[k]).fits(target) by {
        lemma_solution_fits(letters, target, crate::letters::distinct_letters(letters)[k]);
    }
    let i = choose|i: int| 0 <= i < words.len() && words[i] == solution;
    words.lemma_filter_contains(state.keeps(), i);
}

} // verus!
