//! Three-way comparison of values and the lexicographic combination of
//! several comparisons.

use std::cmp::Ordering;
use vstd::prelude::*;
use vstd::std_specs::cmp::PartialOrdSpec;

verus! {

/// The first entry of `ord` that is not `Equal`, or `Equal` if there is none.
pub open spec fn lexical_order(ord: Seq<Ordering>) -> Ordering
    decreases ord.len(),
{
    if ord.len() == 0 {
        Ordering::Equal
    } else if ord[0] != Ordering::Equal {
        ord[0]
    } else {
        lexical_order(ord.drop_first())
    }
}

/// A machine index as a mathematical integer.
pub open spec fn position(i: usize) -> int {
    i as int
}

/// The outcome of a comparison with its two sides exchanged.
pub open spec fn reversed(o: Ordering) -> Ordering {
    match o {
        Ordering::Less => Ordering::Greater,
        Ordering::Equal => Ordering::Equal,
        Ordering::Greater => Ordering::Less,
    }
}

/// What `cmp_type` answers for two values of which it is known whether the
/// first is below and whether it is above the second.
pub open spec fn three_way(below: bool, above: bool) -> Ordering {
    if below {
        Ordering::Less
    } else if above {
        Ordering::Greater
    } else {
        Ordering::Equal
    }
}

/// The combination reads from the left and stops at the first comparison
/// that decides: of two lists joined, the second counts only where the
/// first leaves the order open.
pub proof fn lemma_lexical_order_joined(first: Seq<Ordering>, second: Seq<Ordering>)
    ensures
        lexical_order(first + second) == if lexical_order(first) != Ordering::Equal {
            lexical_order(first)
        } else {
            lexical_order(second)
        },
    decreases first.len(),
{
    if first.len() == 0 {
        assert(first + second =~= second);
    } else {
        assert((first + second)[0] == first[0]);
        assert((first + second).drop_first() =~= first.drop_first() + second);
        lemma_lexical_order_joined(first.drop_first(), second);
    }
}

/// Comparisons that leave the order open change nothing: the combination
/// is the same with an `Equal` put in at any place.
pub proof fn lemma_lexical_order_skips_equal(ord: Seq<Ordering>, at: int)
    requires
        0 <= at <= ord.len(),
    ensures
        lexical_order(ord.insert(at, Ordering::Equal)) == lexical_order(ord),
    decreases ord.len(),
{
    let longer = ord.insert(at, Ordering::Equal);
    if at == 0 {
        assert(longer[0] == Ordering::Equal);
        assert(longer.drop_first() =~= ord);
    } else {
        assert(longer[0] == ord[0]);
        assert(longer.drop_first() =~= ord.drop_first().insert(at - 1, Ordering::Equal));
        lemma_lexical_order_skips_equal(ord.drop_first(), at - 1);
    }
}

/// With both sides exchanged in every comparison, the combination is
/// exchanged too.
pub proof fn lemma_lexical_order_reversed(ord: Seq<Ordering>, back: Seq<Ordering>)
    requires
        back.len() == ord.len(),
        forall|i: int| 0 <= i < ord.len() ==> back[i] == reversed(#[trigger] ord[i]),
    ensures
        lexical_order(back) == reversed(lexical_order(ord)),
    decreases ord.len(),
{
    if ord.len() > 0 {
        assert(back[0] == reversed(ord[0]));
        assert forall|i: int| 0 <= i < ord.drop_first().len() implies back.drop_first()[i]
            == reversed(#[trigger] ord.drop_first()[i]) by {
            assert(ord.drop_first()[i] == ord[i + 1]);
            assert(back[i + 1] == reversed(ord[i + 1]));
        }
        lemma_lexical_order_reversed(ord.drop_first(), back.drop_first());
    }
}

/// Compares two values with `<` and `>`: `Less` if `x1 < x2`, else `Greater`
/// if `x1 > x2`, else `Equal` (also for values that are not comparable).
pub fn cmp_type<T>(x1: T, x2: T) -> (order: Ordering) where T: std::cmp::PartialOrd
    ensures
        T::obeys_partial_cmp_spec() ==> order == three_way(
            x1.partial_cmp_spec(&x2) == Some(Ordering::Less),
            x1.partial_cmp_spec(&x2) == Some(Ordering::Greater),
        ),
{
    if x1 < x2 {
        return Ordering::Less;
    } else if x1 > x2 {
        return Ordering::Greater;
    }
    Ordering::Equal
}

/// Combines comparisons lexicographically: the result is the first entry
/// that is not `Equal`, read from the left, and `Equal` if all entries agree.
pub fn lexical_comparison(ord: &Vec<Ordering>) -> (order: Ordering)
    ensures
        order == lexical_order(ord@),
{
    let n: usize = ord.len();
    let mut i: usize = 0;
    assert(ord@.skip(0) =~= ord@);
    while i < n
        invariant
            n == ord@.len(),
            i <= n,
            lexical_order(ord@) == lexical_order(ord@.skip(position(i))),
        decreases n - i,
    {
        let order = ord[i];
        proof {
            let rest = ord@.skip(position(i));
            assert(rest[0] == ord@[position(i)]);
            assert(rest.drop_first() =~= ord@.skip(position(i) + 1));
        }
        match order {
            Ordering::Less => {
                return Ordering::Less;
            },
            Ordering::Greater => {
                return Ordering::Greater;
            },
            Ordering::Equal => {},
        }
        i = i + 1;
    }
    Ordering::Equal
}

} // verus!
