//! A stable merge sort of the places of a pool by the keys of its words.

use vstd::prelude::*;
use crate::ranking::{goes_before, precedes, RankKey};

verus! {

/// Whether the places in `order` stand in ranking order: each goes before
/// all that follow it.
pub open spec fn is_ranked(keys: Seq<RankKey>, order: Seq<usize>) -> bool {
    forall|i: int, j: int|
        0 <= i < j < order.len() ==> goes_before(
            keys,
            (#[trigger] order[i]) as int,
            (#[trigger] order[j]) as int,
        )
}

/// Whether `order` holds the places from `lo` up to `hi`, `hi` left out, and
/// no others.
pub open spec fn holds_places(order: Seq<usize>, lo: int, hi: int) -> bool {
    &&& forall|i: int| 0 <= i < order.len() ==> lo <= #[trigger] order[i] < hi
    &&& forall|p: int| lo <= p < hi ==> #[trigger] order.contains(p as usize)
}

/// Whether `order` is the ranking of the keys: it holds every place of
/// `keys` once, a place with a key that ranks before another first, and of
/// two places whose keys rank alike the lower one first.
pub open spec fn is_ranking(keys: Seq<RankKey>, order: Seq<usize>) -> bool {
    &&& order.len() == keys.len()
    &&& holds_places(order, 0, keys.len() as int)
    &&& is_ranked(keys, order)
}

/// Of three places, if the first goes before the second and the second
/// before the third, the first goes before the third.
pub proof fn lemma_goes_before_chain(keys: Seq<RankKey>, a: int, b: int, c: int)
    requires
        goes_before(keys, a, b),
        goes_before(keys, b, c),
    ensures
        goes_before(keys, a, c),
{
}

/// Of two different places one goes before the other, and never both.
pub proof fn lemma_goes_before_total(keys: Seq<RankKey>, a: int, b: int)
    ensures
        a != b ==> (goes_before(keys, a, b) <==> !goes_before(keys, b, a)),
        !goes_before(keys, a, a),
{
}

/// Two sequences of places that stand in ranking order and hold the same
/// places are the same.
pub proof fn lemma_ranked_alike(keys: Seq<RankKey>, first: Seq<usize>, second: Seq<usize>)
    requires
        is_ranked(keys, first),
        is_ranked(keys, second),
        forall|x: usize| first.contains(x) <==> second.contains(x),
    ensures
        first == second,
    decreases first.len(),
{
    if first.len() == 0 {
        if second.len() > 0 {
            assert(second.contains(second[0]));
        }
        assert(first =~= second);
    } else {
        assert(first.contains(first[0]));
        let k = choose|k: int| 0 <= k < second.len() && second[k] == first[0];
        assert(second.contains(second[0]));
        let m = choose|m: int| 0 <= m < first.len() && first[m] == second[0];
        lemma_goes_before_total(keys, first[0] as int, second[0] as int);
        if k > 0 && m > 0 {
            assert(goes_before(keys, second[0] as int, second[k] as int));
            assert(goes_before(keys, first[0] as int, first[m] as int));
        }
        assert(first[0] == second[0]);
        let rest1 = first.drop_first();
        let rest2 = second.drop_first();
        assert forall|i: int, j: int| 0 <= i < j < rest1.len() implies goes_before(
            keys,
            (#[trigger] rest1[i]) as int,
            (#[trigger] rest1[j]) as int,
        ) by {
            assert(rest1[i] == first[i + 1] && rest1[j] == first[j + 1]);
        }
        assert forall|i: int, j: int| 0 <= i < j < rest2.len() implies goes_before(
            keys,
            (#[trigger] rest2[i]) as int,
            (#[trigger] rest2[j]) as int,
        ) by {
            assert(rest2[i] == second[i + 1] && rest2[j] == second[j + 1]);
        }
        assert forall|x: usize| rest1.contains(x) <==> rest2.contains(x) by {
            lemma_goes_before_total(keys, x as int, x as int);
            if rest1.contains(x) {
                let i = choose|i: int| 0 <= i < rest1.len() && rest1[i] == x;
                assert(first[i + 1] == x);
                assert(first.contains(x));
                let j = choose|j: int| 0 <= j < second.len() && second[j] == x;
                if j == 0 {
                    assert(goes_before(keys, first[0] as int, first[i + 1] as int));
                }
                assert(rest2[j - 1] == x);
            }
            if rest2.contains(x) {
                let i = choose|i: int| 0 <= i < rest2.len() && rest2[i] == x;
                assert(second[i + 1] == x);
                assert(second.contains(x));
                let j = choose|j: int| 0 <= j < first.len() && first[j] == x;
                if j == 0 {
                    assert(goes_before(keys, second[0] as int, second[i + 1] as int));
                }
                assert(rest1[j - 1] == x);
            }
        }
        lemma_ranked_alike(keys, rest1, rest2);
        assert(first =~= seq![first[0]] + rest1);
        assert(second =~= seq![second[0]] + rest2);
    }
}

/// The ranking of a list of keys is determined: there is one order of the
/// places that puts lower keys first and leaves places with like keys as
/// they stood, whatever the way in which it is found.
pub proof fn lemma_ranking_unique(keys: Seq<RankKey>, first: Seq<usize>, second: Seq<usize>)
    requires
        is_ranking(keys, first),
        is_ranking(keys, second),
    ensures
        first == second,
{
    assert forall|x: usize| first.contains(x) <==> second.contains(x) by {
        if first.contains(x) {
            let i = choose|i: int| 0 <= i < first.len() && first[i] == x;
            assert(0 <= first[i] < keys.len());
            assert(second.contains((x as int) as usize));
        }
        if second.contains(x) {
            let i = choose|i: int| 0 <= i < second.len() && second[i] == x;
            assert(0 <= second[i] < keys.len());
            assert(first.contains((x as int) as usize));
        }
    }
    lemma_ranked_alike(keys, first, second);
}

/// Merges two rankings of separate places into one.
fn merge(keys: &Vec<RankKey>, left: &Vec<usize>, right: &Vec<usize>) -> (out: Vec<usize>)
    requires
        is_ranked(keys@, left@),
        is_ranked(keys@, right@),
        forall|i: int| 0 <= i < left@.len() ==> (#[trigger] left@[i]) < keys@.len(),
        forall|j: int| 0 <= j < right@.len() ==> (#[trigger] right@[j]) < keys@.len(),
        forall|i: int, j: int|
            0 <= i < left@.len() && 0 <= j < right@.len() ==> (#[trigger] left@[i])
                != (#[trigger] right@[j]),
        left@.len() + right@.len() <= usize::MAX,
    ensures
        is_ranked(keys@, out@),
        out@.len() == left@.len() + right@.len(),
        forall|k: int|
            0 <= k < out@.len() ==> left@.contains(#[trigger] out@[k]) || right@.contains(out@[k]),
        forall|i: int| 0 <= i < left@.len() ==> out@.contains(#[trigger] left@[i]),
        forall|j: int| 0 <= j < right@.len() ==> out@.contains(#[trigger] right@[j]),
{
    let n: usize = left.len();
    let m: usize = right.len();
    let mut out: Vec<usize> = Vec::new();
    let mut i: usize = 0;
    let mut j: usize = 0;
    while i < n || j < m
        invariant
            n == left@.len(),
            m == right@.len(),
            n + m <= usize::MAX,
            i <= n,
            j <= m,
            out@.len() == i + j,
            is_ranked(keys@, left@),
            is_ranked(keys@, right@),
            is_ranked(keys@, out@),
            forall|k: int| 0 <= k < left@.len() ==> (#[trigger] left@[k]) < keys@.len(),
            forall|k: int| 0 <= k < right@.len() ==> (#[trigger] right@[k]) < keys@.len(),
            forall|a: int, b: int|
                0 <= a < left@.len() && 0 <= b < right@.len() ==> (#[trigger] left@[a])
                    != (#[trigger] right@[b]),
            forall|k: int, a: int|
                0 <= k < out@.len() && i <= a < n ==> goes_before(
                    keys@,
                    (#[trigger] out@[k]) as int,
                    (#[trigger] left@[a]) as int,
                ),
            forall|k: int, b: int|
                0 <= k < out@.len() && j <= b < m ==> goes_before(
                    keys@,
                    (#[trigger] out@[k]) as int,
                    (#[trigger] right@[b]) as int,
                ),
            forall|k: int|
                0 <= k < out@.len() ==> left@.contains(#[trigger] out@[k]) || right@.contains(
                    out@[k],
                ),
            forall|a: int| 0 <= a < i ==> out@.contains(#[trigger] left@[a]),
            forall|b: int| 0 <= b < j ==> out@.contains(#[trigger] right@[b]),
        decreases (n - i) + (m - j),
    {
        let ghost before = out@;
        let from_left = if j >= m {
            true
        } else if i >= n {
            false
        } else {
            precedes(keys, left[i], right[j])
        };
        if from_left {
            let x: usize = left[i];
            out.push(x);
            proof {
                assert(out@[before.len() as int] == x);
                assert(left@.contains(x));
                assert forall|k: int, b: int|
                    0 <= k < out@.len() && j <= b < m implies goes_before(
                    keys@,
                    (#[trigger] out@[k]) as int,
                    (#[trigger] right@[b]) as int,
                ) by {
                    if k == before.len() {
                        if b > j {
                            lemma_goes_before_chain(
                                keys@,
                                x as int,
                                right@[j as int] as int,
                                right@[b] as int,
                            );
                        }
                    } else {
                        assert(out@[k] == before[k]);
                    }
                }
                assert forall|k: int, a: int|
                    0 <= k < out@.len() && i + 1 <= a < n implies goes_before(
                    keys@,
                    (#[trigger] out@[k]) as int,
                    (#[trigger] left@[a]) as int,
                ) by {
                    if k < before.len() {
                        assert(out@[k] == before[k]);
                    }
                }
                assert forall|a: int, b: int| 0 <= a < b < out@.len() implies goes_before(
                    keys@,
                    (#[trigger] out@[a]) as int,
                    (#[trigger] out@[b]) as int,
                ) by {
                    assert(out@[a] == before[a]);
                    if b < before.len() {
                        assert(out@[b] == before[b]);
                    }
                }
                lemma_push_keeps(before, x, left@, i as int, right@, j as int);
            }
            i = i + 1;
        } else {
            let x: usize = right[j];
            out.push(x);
            proof {
                assert(out@[before.len() as int] == x);
                assert(right@.contains(x));
                if i < n {
                    lemma_goes_before_total(keys@, left@[i as int] as int, x as int);
                }
                assert forall|k: int, a: int|
                    0 <= k < out@.len() && i <= a < n implies goes_before(
                    keys@,
                    (#[trigger] out@[k]) as int,
                    (#[trigger] left@[a]) as int,
                ) by {
                    if k == before.len() {
                        if a > i {
                            lemma_goes_before_chain(
                                keys@,
                                x as int,
                                left@[i as int] as int,
                                left@[a] as int,
                            );
                        }
                    } else {
                        assert(out@[k] == before[k]);
                    }
                }
                assert forall|k: int, b: int|
                    0 <= k < out@.len() && j + 1 <= b < m implies goes_before(
                    keys@,
                    (#[trigger] out@[k]) as int,
                    (#[trigger] right@[b]) as int,
                ) by {
                    if k < before.len() {
                        assert(out@[k] == before[k]);
                    }
                }
                assert forall|a: int, b: int| 0 <= a < b < out@.len() implies goes_before(
                    keys@,
                    (#[trigger] out@[a]) as int,
                    (#[trigger] out@[b]) as int,
                ) by {
                    assert(out@[a] == before[a]);
                    if b < before.len() {
                        assert(out@[b] == before[b]);
                    }
                }
                lemma_push_keeps(before, x, left@, i as int, right@, j as int);
            }
            j = j + 1;
        }
    }
    out
}

/// What a sequence holds, it still holds after a push, and it holds what
/// was pushed.
proof fn lemma_push_keeps(
    before: Seq<usize>,
    x: usize,
    left: Seq<usize>,
    i: int,
    right: Seq<usize>,
    j: int,
)
    requires
        0 <= i <= left.len(),
        0 <= j <= right.len(),
        forall|a: int| 0 <= a < i ==> before.contains(#[trigger] left[a]),
        forall|b: int| 0 <= b < j ==> before.contains(#[trigger] right[b]),
        forall|k: int|
            0 <= k < before.len() ==> left.contains(#[trigger] before[k]) || right.contains(
                before[k],
            ),
        left.contains(x) || right.contains(x),
    ensures
        before.push(x).contains(x),
        forall|a: int| 0 <= a < i ==> before.push(x).contains(#[trigger] left[a]),
        forall|b: int| 0 <= b < j ==> before.push(x).contains(#[trigger] right[b]),
        forall|k: int|
            0 <= k < before.push(x).len() ==> left.contains(#[trigger] before.push(x)[k])
                || right.contains(before.push(x)[k]),
{
    let after = before.push(x);
    assert(after[before.len() as int] == x);
    assert forall|y: usize| before.contains(y) implies after.contains(y) by {
        let k = choose|k: int| 0 <= k < before.len() && before[k] == y;
        assert(after[k] == y);
    }
    assert forall|k: int| 0 <= k < after.len() implies left.contains(#[trigger] after[k])
        || right.contains(after[k]) by {
        if k < before.len() {
            assert(after[k] == before[k]);
        }
    }
}

/// The ranking of the places from `lo` up to `hi`, `hi` left out.
fn rank_range(keys: &Vec<RankKey>, lo: usize, hi: usize) -> (order: Vec<usize>)
    requires
        lo <= hi <= keys@.len(),
    ensures
        order@.len() == hi - lo,
        holds_places(order@, lo as int, hi as int),
        is_ranked(keys@, order@),
    decreases hi - lo,
{
    if hi - lo == 0 {
        Vec::new()
    } else if hi - lo == 1 {
        let mut order: Vec<usize> = Vec::new();
        order.push(lo);
        assert(order@[0] == lo);
        order
    } else {
        let mid: usize = lo + (hi - lo) / 2;
        let left = rank_range(keys, lo, mid);
        let right = rank_range(keys, mid, hi);
        let order = merge(keys, &left, &right);
        proof {
            assert forall|i: int| 0 <= i < order@.len() implies lo <= #[trigger] order@[i]
                < hi by {
                let x = order@[i];
                if left@.contains(x) {
                    let k = choose|k: int| 0 <= k < left@.len() && left@[k] == x;
                } else {
                    let k = choose|k: int| 0 <= k < right@.len() && right@[k] == x;
                }
            }
            assert forall|p: int| lo <= p < hi implies #[trigger] order@.contains(p as usize) by {
                if p < mid {
                    assert(left@.contains(p as usize));
                    let k = choose|k: int| 0 <= k < left@.len() && left@[k] == p as usize;
                    assert(order@.contains(left@[k]));
                } else {
                    assert(right@.contains(p as usize));
                    let k = choose|k: int| 0 <= k < right@.len() && right@[k] == p as usize;
                    assert(order@.contains(right@[k]));
                }
            }
        }
        order
    }
}

/// The ranking of the keys: the places of `keys`, those with a key that
/// ranks before another first, and places whose keys rank alike in their
/// first order.
pub fn ranking(keys: &Vec<RankKey>) -> (order: Vec<usize>)
    ensures
        is_ranking(keys@, order@),
{
    rank_range(keys, 0, keys.len())
}

} // verus!
