//! One game, turn by turn: the pool of words that are still possible, the
//! choice of the tactic that ranks it, the words that are proposed, and what
//! follows from the player's answer.
//!
//! Reading the player's answer and showing the proposals is left to the
//! caller. A game runs as follows: `restrict_to_length` makes the pool;
//! while `phase_of` says `Active`, the caller ranks the pool with
//! `rank_pool`, shows what `suggest` proposes, reads an answer and hands it
//! to `take_turn`, which gives the next pool; `resolve` says how the game
//! ended.

use vstd::prelude::*;
use crate::advanced::reduce_sort_by_distance_then_entropy_then_uniqueness;
use crate::feedback::{decode, valid_code, FeedbackError};
use crate::letters::upper_word;
use crate::states::WordlState;
use crate::tactics::{
    distance_keys, entropy_uniqueness_keys, has_unique_letters, is_ranked_pool,
    reduce_sort_by_entropy_then_uniqueness, reduce_to_words_with_unique_letters, same_length,
};
use crate::utils::length_of_word;

verus! {

/// The two tactics that rank a pool.
#[derive(Clone, Copy, Debug, PartialEq, Eq, Structural)]
pub enum Tactic {
    /// By information, then by the number of distinct letters.
    Cheap,
    /// By the distance to the other words of the pool first. The work grows
    /// with the square of the pool's size.
    Expensive,
}

/// Whether a game goes on.
#[derive(Clone, Copy, Debug, PartialEq, Eq, Structural)]
pub enum Phase {
    /// More than one word is still possible.
    Active,
    /// At most one word is still possible.
    Resolved,
}

/// How a game ended.
#[derive(Debug)]
pub enum Resolution {
    /// One word is left: it is the solution.
    Forced(String),
    /// No word is left: the answers contradict each other.
    NoSolution,
}

/// What the caller learned from the player in one turn.
#[derive(Debug)]
pub enum TurnEvent {
    /// The player made a guess and entered the feedback to it.
    Answered { guess: String, feedback: String },
    /// The player asked to leave the game.
    Cancelled,
    /// The player asked to leave the program.
    Aborted,
}

/// What follows from a turn.
pub enum TurnOutcome {
    /// The pool was filtered by the outcome of the guess.
    Next { pool: Vec<String>, state: WordlState },
    /// The feedback cannot be read; the pool stays as it was.
    Rejected(FeedbackError),
    /// The game ends on the player's wish; the pool stays as it was.
    Cancelled,
    /// The program ends on the player's wish; the pool stays as it was.
    Aborted,
}

/// What is shown to the player before a guess.
#[derive(Debug)]
pub struct Suggestions {
    /// The proposed words, best first, no more of them than the limit.
    pub shown: Vec<String>,
    /// The number of words that are still possible.
    pub remaining: usize,
    /// Whether more words are still possible than the limit allows to show.
    pub truncated: bool,
    /// The best of the proposed words, if there is any.
    pub best: Option<String>,
}

/// The tactic for a pool of the given size: the expensive one up to the
/// threshold, the threshold included, the cheap one above it.
pub open spec fn tactic_for(pool_size: int, threshold: int) -> Tactic {
    if pool_size <= threshold {
        Tactic::Expensive
    } else {
        Tactic::Cheap
    }
}

/// The test that a word passes if it has `size` letters.
pub open spec fn has_length(size: usize) -> spec_fn(String) -> bool {
    |word: String| word@.len() == size
}

/// The words from which the proposals are taken: the words of the pool in
/// which no letter occurs twice, or the whole pool if there is no such word.
pub open spec fn candidates(pool: Seq<String>) -> Seq<String> {
    if pool.filter(has_unique_letters()).len() > 0 {
        pool.filter(has_unique_letters())
    } else {
        pool
    }
}

/// The keys by which a pool is ranked under a tactic.
pub open spec fn keys_for(tactic: Tactic, pool: Seq<String>, entropy: Seq<u64>) -> Seq<
    crate::ranking::RankKey,
> {
    match tactic {
        Tactic::Cheap => entropy_uniqueness_keys(pool, entropy),
        Tactic::Expensive => distance_keys(pool, entropy),
    }
}

/// The tactic for a pool of the given size: the expensive one up to the
/// threshold, the threshold included, the cheap one above it.
pub fn select_tactic(pool_size: usize, threshold: usize) -> (tactic: Tactic)
    ensures
        tactic == tactic_for(pool_size as int, threshold as int),
        pool_size == threshold ==> tactic == Tactic::Expensive,
{
    if pool_size <= threshold {
        Tactic::Expensive
    } else {
        Tactic::Cheap
    }
}

/// Whether a game with a pool of the given size goes on.
pub fn phase_of(pool_size: usize) -> (phase: Phase)
    ensures
        phase == if pool_size > 1 {
            Phase::Active
        } else {
            Phase::Resolved
        },
{
    if pool_size > 1 {
        Phase::Active
    } else {
        Phase::Resolved
    }
}

/// The first pool of a game: the words of the dictionary that have `size`
/// letters, in the order of the dictionary.
pub fn restrict_to_length(words: &Vec<String>, size: usize) -> (pool: Vec<String>)
    ensures
        pool@ == words@.filter(has_length(size)),
        pool@.len() <= words@.len(),
        same_length(pool@),
{
    let mut pool: Vec<String> = Vec::new();
    let n: usize = words.len();
    let mut i: usize = 0;
    proof {
        reveal(Seq::filter);
        assert(words@.take(0).filter(has_length(size)) =~= Seq::<String>::empty());
    }
    while i < n
        invariant
            n == words@.len(),
            i <= n,
            pool@ == words@.take(i as int).filter(has_length(size)),
            forall|k: int| 0 <= k < pool@.len() ==> (#[trigger] pool@[k])@.len() == size,
        decreases n - i,
    {
        proof {
            reveal(Seq::filter);
            let next = words@.take(i + 1);
            assert(next.drop_last() =~= words@.take(i as int));
            assert(next.last() == words@[i as int]);
        }
        if length_of_word(&words[i]) == size {
            pool.push(words[i].clone());
        }
        i = i + 1;
    }
    proof {
        assert(words@.take(n as int) =~= words@);
        words@.lemma_filter_len(has_length(size));
    }
    pool
}

/// Ranks the pool by the tactic that its size selects, and says which one
/// that was. `entropy` holds the information of each word of the pool.
pub fn rank_pool(words: &mut Vec<String>, entropy: &Vec<u64>, threshold: usize) -> (tactic: Tactic)
    requires
        entropy@.len() == old(words)@.len(),
        old(words)@.len() <= threshold ==> same_length(old(words)@),
    ensures
        tactic == tactic_for(old(words)@.len() as int, threshold as int),
        is_ranked_pool(old(words)@, keys_for(tactic, old(words)@, entropy@), final(words)@),
{
    let tactic = select_tactic(words.len(), threshold);
    match tactic {
        Tactic::Expensive => {
            reduce_sort_by_distance_then_entropy_then_uniqueness(words, entropy);
        },
        Tactic::Cheap => {
            reduce_sort_by_entropy_then_uniqueness(words, entropy);
        },
    }
    tactic
}

/// What is shown to the player of a ranked pool: the words in which no
/// letter occurs twice, or all words if there is none, best first and no
/// more than `max_display_length` of them; and the best of them.
pub fn suggest(words: &Vec<String>, max_display_length: usize) -> (proposal: Suggestions)
    ensures
        proposal.remaining == words@.len(),
        proposal.truncated == (words@.len() > max_display_length),
        proposal.shown@ == if candidates(words@).len() <= max_display_length {
            candidates(words@)
        } else {
            candidates(words@).take(max_display_length as int)
        },
        proposal.best == if candidates(words@).len() > 0 {
            Some(candidates(words@)[0])
        } else {
            None
        },
{
    let words_unique = reduce_to_words_with_unique_letters(words);
    let list: &Vec<String> = if words_unique.len() > 0 {
        &words_unique
    } else {
        words
    };
    let best: Option<String> = if list.len() > 0 {
        Some(list[0].clone())
    } else {
        None
    };
    let m: usize = if list.len() <= max_display_length {
        list.len()
    } else {
        max_display_length
    };
    let mut shown: Vec<String> = Vec::new();
    let mut i: usize = 0;
    while i < m
        invariant
            m <= list@.len(),
            i <= m,
            shown@ == list@.take(i as int),
        decreases m - i,
    {
        shown.push(list[i].clone());
        assert(list@.take(i + 1) =~= list@.take(i as int).push(list@[i as int]));
        i = i + 1;
    }
    assert(list@.take(list@.len() as int) =~= list@);
    Suggestions {
        shown,
        remaining: words.len(),
        truncated: words.len() > max_display_length,
        best,
    }
}

/// What follows from a turn. A guess with its feedback filters the pool;
/// feedback that cannot be read is refused; the player's wish to leave is
/// handed on. Only the first changes the pool.
pub fn take_turn(pool: &Vec<String>, event: &TurnEvent) -> (outcome: TurnOutcome)
    ensures
        match (*event, outcome) {
            (TurnEvent::Answered { guess, feedback }, TurnOutcome::Next { pool: next, state }) => {
                &&& feedback@.len() == guess@.len()
                &&& valid_code(feedback@)
                &&& state.wf()
                &&& state.letters() == upper_word(guess@)
                &&& state.symbols() == decode(feedback@)
                &&& next@ == pool@.filter(state.keeps())
                &&& next@.len() <= pool@.len()
            },
            (TurnEvent::Answered { guess, feedback }, TurnOutcome::Rejected(error)) => {
                &&& !(feedback@.len() == guess@.len() && valid_code(feedback@))
                &&& error == if feedback@.len() != guess@.len() {
                    FeedbackError::WrongLength
                } else {
                    FeedbackError::UnknownSymbol
                }
            },
            (TurnEvent::Cancelled, TurnOutcome::Cancelled) => true,
            (TurnEvent::Aborted, TurnOutcome::Aborted) => true,
            _ => false,
        },
{
    match event {
        TurnEvent::Answered { guess, feedback } => {
            match WordlState::parse(guess.as_str(), feedback.as_str()) {
                Ok(state) => {
                    let next = state.constrain(pool);
                    TurnOutcome::Next { pool: next, state }
                },
                Err(error) => TurnOutcome::Rejected(error),
            }
        },
        TurnEvent::Cancelled => TurnOutcome::Cancelled,
        TurnEvent::Aborted => TurnOutcome::Aborted,
    }
}

/// How the game ended: with the one word that is left, or without a
/// solution if no word is left. While more words are left the game has not
/// ended.
pub fn resolve(pool: &Vec<String>) -> (end: Option<Resolution>)
    ensures
        match end {
            None => pool@.len() > 1,
            Some(Resolution::Forced(word)) => pool@.len() == 1 && word == pool@[0],
            Some(Resolution::NoSolution) => pool@.len() == 0,
        },
{
    if pool.len() > 1 {
        None
    } else if pool.len() == 1 {
        Some(Resolution::Forced(pool[0].clone()))
    } else {
        Some(Resolution::NoSolution)
    }
}

} // verus!
