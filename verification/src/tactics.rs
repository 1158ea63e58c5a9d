//! The tactics that rank a pool of words: by the number of distinct
//! letters, by the information that the letters carry, by the distance to
//! the other words of the pool, and by the number of words that a guess
//! would leave.
//!
//! The information of a word is a number with a fraction. It reaches these
//! functions as one integer for each word, higher for more information,
//! made by the caller so that it orders the words as their information does.

use vstd::prelude::*;
use crate::feedback::{feedback, FeedbackSymbol};
use crate::letters::{distinct_letters, upper_word};
use crate::ranking::RankKey;
use crate::sorting::{is_ranking, ranking};
use crate::states::{constraints_of, obeys_all, symbol_count};
use crate::utils::{length_of_word, nr_unique_letters};

verus! {

/// The words of `before` in the order that `order` gives to their places.
pub open spec fn arranged(before: Seq<String>, order: Seq<usize>) -> Seq<String> {
    Seq::new(order.len(), |i: int| before[order[i] as int])
}

/// Whether `after` holds the words of `before` sorted by their keys: a word
/// with a key that ranks before another comes first, and words whose keys
/// rank alike keep the order that they had.
pub open spec fn is_ranked_pool(before: Seq<String>, keys: Seq<RankKey>, after: Seq<String>) -> bool {
    exists|order: Seq<usize>| is_ranking(keys, order) && after == arranged(before, order)
}

/// A pool has one ranking by given keys: the order of words with like keys
/// is not left open.
pub proof fn lemma_ranked_pool_unique(
    before: Seq<String>,
    keys: Seq<RankKey>,
    first: Seq<String>,
    second: Seq<String>,
)
    requires
        is_ranked_pool(before, keys, first),
        is_ranked_pool(before, keys, second),
    ensures
        first == second,
{
    let order1 = choose|order: Seq<usize>|
        is_ranking(keys, order) && first == arranged(before, order);
    let order2 = choose|order: Seq<usize>|
        is_ranking(keys, order) && second == arranged(before, order);
    crate::sorting::lemma_ranking_unique(keys, order1, order2);
}

/// The number of distinct letters of a word.
pub open spec fn uniqueness(word: Seq<char>) -> nat {
    distinct_letters(word).len()
}

/// The test by which `reduce_to_words_with_unique_letters` keeps a word: no
/// letter occurs twice in it.
pub open spec fn has_unique_letters() -> spec_fn(String) -> bool {
    |word: String| word@.no_duplicates()
}

/// Whether all words of the pool have the same number of letters.
pub open spec fn same_length(words: Seq<String>) -> bool {
    forall|i: int, j: int|
        0 <= i < words.len() && 0 <= j < words.len() ==> (#[trigger] words[i])@.len()
            == (#[trigger] words[j])@.len()
}

/// The sum, over the first `n` words of the pool taken as the solution, of
/// the number of letters of `guess` that earn `symbol`.
pub open spec fn distance_total(
    guess: Seq<char>,
    pool: Seq<String>,
    symbol: FeedbackSymbol,
    n: int,
) -> nat
    decreases n,
{
    if n <= 0 {
        0
    } else {
        distance_total(guess, pool, symbol, n - 1) + symbol_count(
            feedback(upper_word(guess), upper_word(pool[n - 1]@)),
            symbol,
        )
    }
}

/// The test that a word passes if it is still possible after `guess` was
/// scored against `solution`.
pub open spec fn survives(guess: Seq<char>, solution: Seq<char>) -> spec_fn(String) -> bool {
    |word: String|
        obeys_all(
            constraints_of(
                upper_word(guess),
                feedback(upper_word(guess), upper_word(solution)),
            ),
            word@,
        )
}

/// The sum, over the first `n` words of the pool taken as the solution, of
/// the number of words of the pool that are still possible after `guess`.
pub open spec fn remaining_total(guess: Seq<char>, pool: Seq<String>, n: int) -> nat
    decreases n,
{
    if n <= 0 {
        0
    } else {
        remaining_total(guess, pool, n - 1) + pool.filter(survives(guess, pool[n - 1]@)).len()
    }
}

/// The keys of a pool that is ranked by the number of distinct letters.
pub open spec fn uniqueness_keys(words: Seq<String>) -> Seq<RankKey> {
    Seq::new(
        words.len(),
        |i: int|
            RankKey { incorrect: 0, shift: 0, entropy: 0, uniqueness: uniqueness(words[i]@) as usize },
    )
}

/// The keys of a pool that is ranked by information.
pub open spec fn entropy_keys(entropy: Seq<u64>) -> Seq<RankKey> {
    Seq::new(
        entropy.len(),
        |i: int| RankKey { incorrect: 0, shift: 0, entropy: entropy[i], uniqueness: 0 },
    )
}

/// The keys of a pool that is ranked by information, then by the number of
/// distinct letters.
pub open spec fn entropy_uniqueness_keys(words: Seq<String>, entropy: Seq<u64>) -> Seq<RankKey> {
    Seq::new(
        words.len(),
        |i: int|
            RankKey {
                incorrect: 0,
                shift: 0,
                entropy: entropy[i],
                uniqueness: uniqueness(words[i]@) as usize,
            },
    )
}

/// The keys of a pool that is ranked by the distance to the other words,
/// then by information, then by the number of distinct letters.
pub open spec fn distance_keys(words: Seq<String>, entropy: Seq<u64>) -> Seq<RankKey> {
    Seq::new(
        words.len(),
        |i: int|
            RankKey {
                incorrect: distance_total(
                    words[i]@,
                    words,
                    FeedbackSymbol::Absent,
                    words.len() as int,
                ) as u128,
                shift: distance_total(
                    words[i]@,
                    words,
                    FeedbackSymbol::Misplaced,
                    words.len() as int,
                ) as u128,
                entropy: entropy[i],
                uniqueness: uniqueness(words[i]@) as usize,
            },
    )
}

/// The keys of a pool that is ranked by the number of words that a guess
/// leaves, then by information, then by the number of distinct letters.
pub open spec fn remaining_size_keys(words: Seq<String>, entropy: Seq<u64>) -> Seq<RankKey> {
    Seq::new(
        words.len(),
        |i: int|
            RankKey {
                incorrect: remaining_total(words[i]@, words, words.len() as int) as u128,
                shift: 0,
                entropy: entropy[i],
                uniqueness: uniqueness(words[i]@) as usize,
            },
    )
}

/// Puts the words into the ranking order of their keys.
pub fn sort_by_keys(words: &mut Vec<String>, keys: &Vec<RankKey>)
    requires
        keys@.len() == old(words)@.len(),
    ensures
        is_ranked_pool(old(words)@, keys@, final(words)@),
        final(words)@.len() == old(words)@.len(),
{
    let order = ranking(keys);
    let n: usize = order.len();
    let mut sorted: Vec<String> = Vec::new();
    let mut i: usize = 0;
    while i < n
        invariant
            n == order@.len(),
            n == words@.len(),
            is_ranking(keys@, order@),
            keys@.len() == words@.len(),
            i <= n,
            sorted@.len() == i,
            forall|k: int| 0 <= k < i ==> #[trigger] sorted@[k] == words@[order@[k] as int],
        decreases n - i,
    {
        sorted.push(words[order[i]].clone());
        i = i + 1;
    }
    assert(sorted@ =~= arranged(words@, order@));
    *words = sorted;
}

/// The number of distinct letters of each word of the pool.
pub fn uniqueness_of_words(words: &Vec<String>) -> (counts: Vec<usize>)
    ensures
        counts@.len() == words@.len(),
        forall|i: int| 0 <= i < words@.len() ==> #[trigger] counts@[i] == uniqueness(words@[i]@),
{
    let mut counts: Vec<usize> = Vec::new();
    let n: usize = words.len();
    let mut i: usize = 0;
    while i < n
        invariant
            n == words@.len(),
            i <= n,
            counts@.len() == i,
            forall|k: int| 0 <= k < i ==> #[trigger] counts@[k] == uniqueness(words@[k]@),
        decreases n - i,
    {
        counts.push(nr_unique_letters(&words[i]));
        i = i + 1;
    }
    counts
}

/// Sorts the words by the number of their distinct letters, most first.
/// Words with the same number keep their order.
pub fn reduce_sort_by_uniqueness(words: &mut Vec<String>)
    ensures
        is_ranked_pool(old(words)@, uniqueness_keys(old(words)@), final(words)@),
{
    let counts = uniqueness_of_words(words);
    let n: usize = words.len();
    let mut keys: Vec<RankKey> = Vec::new();
    let mut i: usize = 0;
    while i < n
        invariant
            n == words@.len(),
            n == counts@.len(),
            i <= n,
            keys@.len() == i,
            forall|k: int| 0 <= k < n ==> #[trigger] counts@[k] == uniqueness(words@[k]@),
            forall|k: int| 0 <= k < i ==> #[trigger] keys@[k] == uniqueness_keys(words@)[k],
        decreases n - i,
    {
        keys.push(RankKey { incorrect: 0, shift: 0, entropy: 0, uniqueness: counts[i] });
        i = i + 1;
    }
    assert(keys@ =~= uniqueness_keys(words@));
    sort_by_keys(words, &keys);
}

/// The words in which no letter occurs twice, in the order in which they
/// were given.
pub fn reduce_to_words_with_unique_letters(words: &Vec<String>) -> (kept: Vec<String>)
    ensures
        kept@ == words@.filter(has_unique_letters()),
        kept@.len() <= words@.len(),
{
    let mut kept: Vec<String> = Vec::new();
    let n: usize = words.len();
    let mut i: usize = 0;
    proof {
        reveal(Seq::filter);
        assert(words@.take(0).filter(has_unique_letters()) =~= Seq::<String>::empty());
    }
    while i < n
        invariant
            n == words@.len(),
            i <= n,
            kept@ == words@.take(i as int).filter(has_unique_letters()),
        decreases n - i,
    {
        let unique = nr_unique_letters(&words[i]) == length_of_word(&words[i]);
        proof {
            reveal(Seq::filter);
            let word = words@[i as int]@;
            let next = words@.take(i + 1);
            assert(next.drop_last() =~= words@.take(i as int));
            assert(next.last() == words@[i as int]);
            if word.no_duplicates() {
                word.unique_seq_to_set();
            }
            if word.to_set().len() == word.len() {
                word.lemma_no_dup_set_cardinality();
            }
        }
        if unique {
            kept.push(words[i].clone());
        }
        i = i + 1;
    }
    proof {
        assert(words@.take(n as int) =~= words@);
        words@.lemma_filter_len(has_unique_letters());
    }
    kept
}

/// Sorts the words by their information, most first. Words with the same
/// information keep their order.
pub fn reduce_sort_by_entropy(words: &mut Vec<String>, entropy: &Vec<u64>)
    requires
        entropy@.len() == old(words)@.len(),
    ensures
        is_ranked_pool(old(words)@, entropy_keys(entropy@), final(words)@),
{
    let n: usize = words.len();
    let mut keys: Vec<RankKey> = Vec::new();
    let mut i: usize = 0;
    while i < n
        invariant
            n == entropy@.len(),
            i <= n,
            keys@.len() == i,
            forall|k: int| 0 <= k < i ==> #[trigger] keys@[k] == entropy_keys(entropy@)[k],
        decreases n - i,
    {
        keys.push(RankKey { incorrect: 0, shift: 0, entropy: entropy[i], uniqueness: 0 });
        i = i + 1;
    }
    assert(keys@ =~= entropy_keys(entropy@));
    sort_by_keys(words, &keys);
}

/// The cheap tactic: sorts the words by their information, most first, and
/// words with the same information by the number of their distinct
/// letters, most first. Words that agree in both keep their order.
pub fn reduce_sort_by_entropy_then_uniqueness(words: &mut Vec<String>, entropy: &Vec<u64>)
    requires
        entropy@.len() == old(words)@.len(),
    ensures
        is_ranked_pool(
            old(words)@,
            entropy_uniqueness_keys(old(words)@, entropy@),
            final(words)@,
        ),
{
    let counts = uniqueness_of_words(words);
    let n: usize = words.len();
    let mut keys: Vec<RankKey> = Vec::new();
    let mut i: usize = 0;
    while i < n
        invariant
            n == words@.len(),
            n == counts@.len(),
            n == entropy@.len(),
            i <= n,
            keys@.len() == i,
            forall|k: int| 0 <= k < n ==> #[trigger] counts@[k] == uniqueness(words@[k]@),
            forall|k: int|
                0 <= k < i ==> #[trigger] keys@[k] == entropy_uniqueness_keys(words@, entropy@)[k],
        decreases n - i,
    {
        keys.push(RankKey { incorrect: 0, shift: 0, entropy: entropy[i], uniqueness: counts[i] });
        i = i + 1;
    }
    assert(keys@ =~= entropy_uniqueness_keys(words@, entropy@));
    sort_by_keys(words, &keys);
}

} // verus!
