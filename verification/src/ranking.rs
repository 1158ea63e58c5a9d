//! The key by which a word is ranked, and the order of two keys.

use std::cmp::Ordering;
use vstd::prelude::*;
use crate::comparison::{cmp_type, lexical_comparison, lexical_order, position, three_way};

verus! {

/// What a word is ranked by. A component that a tactic does not use is zero
/// for every word.
#[derive(Clone, Copy, Debug)]
pub struct RankKey {
    /// The first cost of the word; lower ranks first.
    pub incorrect: u128,
    /// The second cost of the word; lower ranks first.
    pub shift: u128,
    /// The information that the word's letters carry; higher ranks first.
    pub entropy: u64,
    /// The number of distinct letters of the word; higher ranks first.
    pub uniqueness: usize,
}

/// The comparisons of two keys, component by component, in the order in
/// which they decide.
pub open spec fn key_comparisons(a: RankKey, b: RankKey) -> Seq<Ordering> {
    seq![
        three_way(a.incorrect < b.incorrect, a.incorrect > b.incorrect),
        three_way(a.shift < b.shift, a.shift > b.shift),
        three_way(b.entropy < a.entropy, b.entropy > a.entropy),
        three_way(b.uniqueness < a.uniqueness, b.uniqueness > a.uniqueness),
    ]
}

/// The order of two keys: the first component that differs decides.
pub open spec fn key_order(a: RankKey, b: RankKey) -> Ordering {
    lexical_order(key_comparisons(a, b))
}

/// Whether the key `a` ranks strictly before the key `b`.
pub open spec fn key_before(a: RankKey, b: RankKey) -> bool {
    ||| a.incorrect < b.incorrect
    ||| a.incorrect == b.incorrect && a.shift < b.shift
    ||| a.incorrect == b.incorrect && a.shift == b.shift && a.entropy > b.entropy
    ||| a.incorrect == b.incorrect && a.shift == b.shift && a.entropy == b.entropy && a.uniqueness
        > b.uniqueness
}

/// Whether two keys rank alike.
pub open spec fn key_alike(a: RankKey, b: RankKey) -> bool {
    a.incorrect == b.incorrect && a.shift == b.shift && a.entropy == b.entropy && a.uniqueness
        == b.uniqueness
}

/// Whether the word at place `i` goes before the word at place `j` in the
/// ranking: its key ranks before the other, or the keys rank alike and it
/// stood first.
pub open spec fn goes_before(keys: Seq<RankKey>, i: int, j: int) -> bool {
    key_before(keys[i], keys[j]) || (key_alike(keys[i], keys[j]) && i < j)
}

/// The order of two keys says which of them ranks first.
pub proof fn lemma_key_order(a: RankKey, b: RankKey)
    ensures
        key_order(a, b) == Ordering::Less <==> key_before(a, b),
        key_order(a, b) == Ordering::Equal <==> key_alike(a, b),
        key_order(a, b) == Ordering::Greater <==> key_before(b, a),
{
    let all = key_comparisons(a, b);
    let from1 = all.drop_first();
    let from2 = from1.drop_first();
    let from3 = from2.drop_first();
    let from4 = from3.drop_first();
    assert(from1[0] == all[1]);
    assert(from2[0] == all[2]);
    assert(from3[0] == all[3]);
    assert(from4.len() == 0);
    assert(lexical_order(from4) == Ordering::Equal);
    assert(lexical_order(from3) == if from3[0] != Ordering::Equal {
        from3[0]
    } else {
        lexical_order(from4)
    });
    assert(lexical_order(from2) == if from2[0] != Ordering::Equal {
        from2[0]
    } else {
        lexical_order(from3)
    });
    assert(lexical_order(from1) == if from1[0] != Ordering::Equal {
        from1[0]
    } else {
        lexical_order(from2)
    });
    assert(lexical_order(all) == if all[0] != Ordering::Equal {
        all[0]
    } else {
        lexical_order(from1)
    });
}

/// Compares two keys: lower costs first, then higher entropy, then more
/// distinct letters.
pub fn compare_keys(a: &RankKey, b: &RankKey) -> (order: Ordering)
    ensures
        order == key_order(*a, *b),
{
    let mut ord: Vec<Ordering> = Vec::new();
    ord.push(cmp_type::<u128>(a.incorrect, b.incorrect));
    ord.push(cmp_type::<u128>(a.shift, b.shift));
    ord.push(cmp_type::<u64>(b.entropy, a.entropy));
    ord.push(cmp_type::<usize>(b.uniqueness, a.uniqueness));
    assert(ord@ =~= key_comparisons(*a, *b));
    lexical_comparison(&ord)
}

/// Whether the word at place `i` goes before the word at place `j` in the
/// ranking.
pub fn precedes(keys: &Vec<RankKey>, i: usize, j: usize) -> (before: bool)
    requires
        i < keys@.len(),
        j < keys@.len(),
    ensures
        before == goes_before(keys@, position(i), position(j)),
{
    let order = compare_keys(&keys[i], &keys[j]);
    proof {
        lemma_key_order(keys@[position(i)], keys@[position(j)]);
    }
    match order {
        Ordering::Less => true,
        Ordering::Equal => i < j,
        Ordering::Greater => false,
    }
}

} // verus!
