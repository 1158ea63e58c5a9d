//! The expensive tactics, for small pools: they score every word of the
//! pool against every other.

use vstd::prelude::*;
use crate::feedback::{score_guess, FeedbackSymbol};
use crate::letters::{upper_letters_of, upper_word};
use crate::ranking::RankKey;
use crate::states::{symbol_count, WordlState};
use crate::tactics::{
    distance_keys, distance_total, is_ranked_pool, remaining_size_keys, remaining_total,
    same_length, sort_by_keys, survives, uniqueness, uniqueness_of_words,
};

verus! {

/// The numbers of `Absent` and of `Misplaced` symbols.
fn count_symbols(symbols: &Vec<FeedbackSymbol>) -> (counts: (usize, usize))
    ensures
        counts.0 == symbol_count(symbols@, FeedbackSymbol::Absent),
        counts.1 == symbol_count(symbols@, FeedbackSymbol::Misplaced),
{
    let mut nr_incorrect: usize = 0;
    let mut nr_shifts: usize = 0;
    let n: usize = symbols.len();
    let mut i: usize = 0;
    while i < n
        invariant
            n == symbols@.len(),
            i <= n,
            nr_incorrect == symbol_count(symbols@.take(i as int), FeedbackSymbol::Absent),
            nr_shifts == symbol_count(symbols@.take(i as int), FeedbackSymbol::Misplaced),
            nr_incorrect <= i,
            nr_shifts <= i,
        decreases n - i,
    {
        proof {
            let next = symbols@.take(i + 1);
            assert(next.drop_last() =~= symbols@.take(i as int));
            assert(next.last() == symbols@[i as int]);
        }
        match symbols[i] {
            FeedbackSymbol::Exact => {},
            FeedbackSymbol::Misplaced => {
                nr_shifts = nr_shifts + 1;
            },
            FeedbackSymbol::Absent => {
                nr_incorrect = nr_incorrect + 1;
            },
        }
        i = i + 1;
    }
    assert(symbols@.take(n as int) =~= symbols@);
    (nr_incorrect, nr_shifts)
}

/// The letters of each word of the pool, in upper case.
fn upper_letters_of_words(words: &Vec<String>) -> (letters: Vec<Vec<char>>)
    ensures
        letters@.len() == words@.len(),
        forall|i: int| 0 <= i < words@.len() ==> (#[trigger] letters@[i])@ == upper_word(words@[i]@),
{
    let mut letters: Vec<Vec<char>> = Vec::new();
    let n: usize = words.len();
    let mut i: usize = 0;
    while i < n
        invariant
            n == words@.len(),
            i <= n,
            letters@.len() == i,
            forall|k: int| 0 <= k < i ==> (#[trigger] letters@[k])@ == upper_word(words@[k]@),
        decreases n - i,
    {
        letters.push(upper_letters_of(words[i].as_str()));
        i = i + 1;
    }
    letters
}

/// A sum of `count` numbers, none of them above `usize::MAX`, fits in 128
/// bits with room for one more.
proof fn lemma_sum_fits(count: int, sum: int)
    requires
        0 <= count < usize::MAX,
        0 <= sum <= count * usize::MAX,
    ensures
        sum + usize::MAX <= (count + 1) * usize::MAX,
        (count + 1) * usize::MAX <= u128::MAX,
{
    assert((count + 1) * usize::MAX == count * usize::MAX + usize::MAX) by (nonlinear_arith);
    assert((count + 1) * usize::MAX <= usize::MAX * usize::MAX) by (nonlinear_arith)
        requires
            0 <= count + 1 <= usize::MAX,
    ;
    assert(usize::MAX * usize::MAX <= 0xffff_ffff_ffff_ffff * 0xffff_ffff_ffff_ffff)
        by (nonlinear_arith)
        requires
            0 <= usize::MAX <= 0xffff_ffff_ffff_ffff,
    ;
}

/// The distances of each word of the pool to the pool: the number of its
/// letters that are not in the solution, and the number of its letters that
/// stand at a wrong place, each summed over all words of the pool taken as
/// the solution. The averages over the pool are these sums divided by the
/// size of the pool, which is the same for every word.
pub fn get_distances(words: &Vec<String>) -> (dist: Vec<(u128, u128)>)
    requires
        same_length(words@),
    ensures
        dist@.len() == words@.len(),
        forall|i: int|
            0 <= i < words@.len() ==> {
                &&& (#[trigger] dist@[i]).0 == distance_total(
                    words@[i]@,
                    words@,
                    FeedbackSymbol::Absent,
                    words@.len() as int,
                )
                &&& dist@[i].1 == distance_total(
                    words@[i]@,
                    words@,
                    FeedbackSymbol::Misplaced,
                    words@.len() as int,
                )
            },
{
    let letters = upper_letters_of_words(words);
    let n: usize = words.len();
    let mut dist: Vec<(u128, u128)> = Vec::new();
    let mut g: usize = 0;
    while g < n
        invariant
            n == words@.len(),
            n == letters@.len(),
            same_length(words@),
            forall|k: int| 0 <= k < n ==> (#[trigger] letters@[k])@ == upper_word(words@[k]@),
            g <= n,
            dist@.len() == g,
            forall|i: int|
                0 <= i < g ==> {
                    &&& (#[trigger] dist@[i]).0 == distance_total(
                        words@[i]@,
                        words@,
                        FeedbackSymbol::Absent,
                        n as int,
                    )
                    &&& dist@[i].1 == distance_total(
                        words@[i]@,
                        words@,
                        FeedbackSymbol::Misplaced,
                        n as int,
                    )
                },
        decreases n - g,
    {
        let mut count1: u128 = 0;
        let mut count2: u128 = 0;
        let mut s: usize = 0;
        while s < n
            invariant
                n == words@.len(),
                n == letters@.len(),
                same_length(words@),
                forall|k: int| 0 <= k < n ==> (#[trigger] letters@[k])@ == upper_word(words@[k]@),
                g < n,
                s <= n,
                count1 == distance_total(words@[g as int]@, words@, FeedbackSymbol::Absent, s as int),
                count2 == distance_total(
                    words@[g as int]@,
                    words@,
                    FeedbackSymbol::Misplaced,
                    s as int,
                ),
                count1 <= s * usize::MAX,
                count2 <= s * usize::MAX,
            decreases n - s,
        {
            assert(words@[g as int]@.len() == words@[s as int]@.len());
            let symbols = score_guess(&letters[g], &letters[s]);
            let (d1, d2) = count_symbols(&symbols);
            proof {
                lemma_sum_fits(s as int, count1 as int);
                lemma_sum_fits(s as int, count2 as int);
            }
            count1 = count1 + d1 as u128;
            count2 = count2 + d2 as u128;
            s = s + 1;
        }
        dist.push((count1, count2));
        g = g + 1;
    }
    dist
}

/// Two tests that agree on every word keep the same words.
proof fn lemma_filter_alike(
    words: Seq<String>,
    first: spec_fn(String) -> bool,
    second: spec_fn(String) -> bool,
)
    requires
        forall|word: String| #[trigger] first(word) == second(word),
    ensures
        words.filter(first) == words.filter(second),
    decreases words.len(),
{
    reveal(Seq::filter);
    if words.len() > 0 {
        lemma_filter_alike(words.drop_last(), first, second);
    }
}

/// For each word of the pool taken as the guess: the number of words of the
/// pool that are still possible after the guess, summed over all words of
/// the pool taken as the solution. The average over the pool is this sum
/// divided by the size of the pool, which is the same for every word.
pub fn get_average_size_of_remaining_words(words: &Vec<String>) -> (sizes: Vec<u128>)
    requires
        same_length(words@),
    ensures
        sizes@.len() == words@.len(),
        forall|i: int|
            0 <= i < words@.len() ==> #[trigger] sizes@[i] == remaining_total(
                words@[i]@,
                words@,
                words@.len() as int,
            ),
{
    let n: usize = words.len();
    let mut sizes: Vec<u128> = Vec::new();
    let mut g: usize = 0;
    while g < n
        invariant
            n == words@.len(),
            same_length(words@),
            g <= n,
            sizes@.len() == g,
            forall|i: int|
                0 <= i < g ==> #[trigger] sizes@[i] == remaining_total(
                    words@[i]@,
                    words@,
                    n as int,
                ),
        decreases n - g,
    {
        let mut count: u128 = 0;
        let mut s: usize = 0;
        while s < n
            invariant
                n == words@.len(),
                same_length(words@),
                g < n,
                s <= n,
                count == remaining_total(words@[g as int]@, words@, s as int),
                count <= s * usize::MAX,
            decreases n - s,
        {
            assert(words@[g as int]@.len() == words@[s as int]@.len());
            let state = WordlState::from(words[g].as_str(), words[s].as_str());
            let word_remaining = state.constrain(words);
            proof {
                lemma_filter_alike(
                    words@,
                    state.keeps(),
                    survives(words@[g as int]@, words@[s as int]@),
                );
                lemma_sum_fits(s as int, count as int);
            }
            count = count + word_remaining.len() as u128;
            s = s + 1;
        }
        sizes.push(count);
        g = g + 1;
    }
    sizes
}

/// Sorts the words by the number of words that they leave on average, least
/// first; then by their information, most first; then by the number of
/// their distinct letters, most first. Words that agree in all keep their
/// order.
pub fn reduce_sort_by_remaining_size_then_entropy_then_uniqueness(
    words: &mut Vec<String>,
    entropy: &Vec<u64>,
)
    requires
        entropy@.len() == old(words)@.len(),
        same_length(old(words)@),
    ensures
        is_ranked_pool(old(words)@, remaining_size_keys(old(words)@, entropy@), final(words)@),
{
    let sizes = get_average_size_of_remaining_words(words);
    let counts = uniqueness_of_words(words);
    let n: usize = words.len();
    let mut keys: Vec<RankKey> = Vec::new();
    let mut i: usize = 0;
    while i < n
        invariant
            n == words@.len(),
            n == counts@.len(),
            n == sizes@.len(),
            n == entropy@.len(),
            i <= n,
            keys@.len() == i,
            forall|k: int| 0 <= k < n ==> #[trigger] counts@[k] == uniqueness(words@[k]@),
            forall|k: int|
                0 <= k < n ==> #[trigger] sizes@[k] == remaining_total(
                    words@[k]@,
                    words@,
                    n as int,
                ),
            forall|k: int|
                0 <= k < i ==> #[trigger] keys@[k] == remaining_size_keys(words@, entropy@)[k],
        decreases n - i,
    {
        keys.push(
            RankKey { incorrect: sizes[i], shift: 0, entropy: entropy[i], uniqueness: counts[i] },
        );
        i = i + 1;
    }
    assert(keys@ =~= remaining_size_keys(words@, entropy@));
    sort_by_keys(words, &keys);
}

/// The expensive tactic: sorts the words by the average number of their
/// letters that are not in the solution, least first; then by the average
/// number of their letters that stand at a wrong place, least first; then
/// by their information, most first; then by the number of their distinct
/// letters, most first. The averages are taken over all words of the pool
/// as the solution. Words that agree in all keep their order.
pub fn reduce_sort_by_distance_then_entropy_then_uniqueness(
    words: &mut Vec<String>,
    entropy: &Vec<u64>,
)
    requires
        entropy@.len() == old(words)@.len(),
        same_length(old(words)@),
    ensures
        is_ranked_pool(old(words)@, distance_keys(old(words)@, entropy@), final(words)@),
{
    let dist = get_distances(words);
    let counts = uniqueness_of_words(words);
    let n: usize = words.len();
    let mut keys: Vec<RankKey> = Vec::new();
    let mut i: usize = 0;
    while i < n
        invariant
            n == words@.len(),
            n == counts@.len(),
            n == dist@.len(),
            n == entropy@.len(),
            i <= n,
            keys@.len() == i,
            forall|k: int| 0 <= k < n ==> #[trigger] counts@[k] == uniqueness(words@[k]@),
            forall|k: int|
                0 <= k < n ==> {
                    &&& (#[trigger] dist@[k]).0 == distance_total(
                        words@[k]@,
                        words@,
                        FeedbackSymbol::Absent,
                        n as int,
                    )
                    &&& dist@[k].1 == distance_total(
                        words@[k]@,
                        words@,
                        FeedbackSymbol::Misplaced,
                        n as int,
                    )
                },
            forall|k: int| 0 <= k < i ==> #[trigger] keys@[k] == distance_keys(words@, entropy@)[k],
        decreases n - i,
    {
        keys.push(
            RankKey {
                incorrect: dist[i].0,
                shift: dist[i].1,
                entropy: entropy[i],
                uniqueness: counts[i],
            },
        );
        i = i + 1;
    }
    assert(keys@ =~= distance_keys(words@, entropy@));
    sort_by_keys(words, &keys);
}

} // verus!
