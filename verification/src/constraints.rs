//! What the feedback to one guess says of one letter.

use vstd::prelude::*;
use crate::feedback::FeedbackSymbol;
use crate::formatting::{
    array_to_string, dedent_ignore_first_last, fill, filled, list_text, plain_template,
    FIRST_AND_LAST,
};
use crate::letters::{occurrences, upper_letters_of, upper_word};
use crate::patterns::regex_valid;
use crate::strings::push_char;
use crate::texts::{decimal, decimal_string};
use crate::utils::texts;

verus! {

/// A letter's constraint as a mathematical value.
pub struct ConstraintModel {
    /// The letter that the constraint speaks of.
    pub symbol: char,
    /// The places at which the letter must stand, ascending.
    pub required: Seq<usize>,
    /// The places at which the letter must not stand, ascending.
    pub forbidden: Seq<usize>,
    /// The letter occurs at least this often.
    pub min_count: nat,
    /// Whether the letter occurs exactly `min_count` times.
    pub bounded: bool,
}

impl ConstraintModel {
    /// Whether a word, given in upper case, obeys the constraint: the letter
    /// stands at each required place that the word has and at no forbidden
    /// one, and it occurs at least `min_count` times, and no more often if
    /// the constraint is bounded.
    pub open spec fn fits(self, word: Seq<char>) -> bool {
        &&& forall|k: int|
            0 <= k < self.required.len() && (#[trigger] self.required[k]) < word.len()
                ==> word[self.required[k] as int] == self.symbol
        &&& forall|k: int|
            0 <= k < self.forbidden.len() && (#[trigger] self.forbidden[k]) < word.len()
                ==> word[self.forbidden[k] as int] != self.symbol
        &&& occurrences(word, self.symbol) >= self.min_count
        &&& self.bounded ==> occurrences(word, self.symbol) <= self.min_count
    }

    /// No place is both required and forbidden.
    pub open spec fn consistent(self) -> bool {
        forall|i: int, j: int|
            0 <= i < self.required.len() && 0 <= j < self.forbidden.len()
                ==> (#[trigger] self.required[i]) != (#[trigger] self.forbidden[j])
    }
}

/// The places `i < n` at which the guess holds the letter `c` and earned
/// `Exact`, ascending.
pub open spec fn required_places(
    letters: Seq<char>,
    symbols: Seq<FeedbackSymbol>,
    c: char,
    n: int,
) -> Seq<usize>
    decreases n,
{
    if n <= 0 {
        Seq::empty()
    } else {
        let before = required_places(letters, symbols, c, n - 1);
        if letters[n - 1] == c && symbols[n - 1] == FeedbackSymbol::Exact {
            before.push((n - 1) as usize)
        } else {
            before
        }
    }
}

/// The places `i < n` at which the guess holds the letter `c` and earned
/// `Misplaced` or `Absent`, ascending.
pub open spec fn forbidden_places(
    letters: Seq<char>,
    symbols: Seq<FeedbackSymbol>,
    c: char,
    n: int,
) -> Seq<usize>
    decreases n,
{
    if n <= 0 {
        Seq::empty()
    } else {
        let before = forbidden_places(letters, symbols, c, n - 1);
        if letters[n - 1] == c && symbols[n - 1] != FeedbackSymbol::Exact {
            before.push((n - 1) as usize)
        } else {
            before
        }
    }
}

/// The number of places `i < n` at which the guess holds the letter `c` and
/// earned `Exact` or `Misplaced`.
pub open spec fn found_count(
    letters: Seq<char>,
    symbols: Seq<FeedbackSymbol>,
    c: char,
    n: int,
) -> nat
    decreases n,
{
    if n <= 0 {
        0
    } else {
        found_count(letters, symbols, c, n - 1) + if letters[n - 1] == c && symbols[n - 1]
            != FeedbackSymbol::Absent {
            1nat
        } else {
            0nat
        }
    }
}

/// Whether the guess holds the letter `c` at some place `i < n` that earned
/// `Absent`.
pub open spec fn found_absent(
    letters: Seq<char>,
    symbols: Seq<FeedbackSymbol>,
    c: char,
    n: int,
) -> bool {
    exists|i: int| 0 <= i < n && letters[i] == c && #[trigger] symbols[i] == FeedbackSymbol::Absent
}

/// The constraint that the first `n` places of a guess and its feedback put
/// on the letter `c`.
pub open spec fn constraint_upto(
    letters: Seq<char>,
    symbols: Seq<FeedbackSymbol>,
    c: char,
    n: int,
) -> ConstraintModel {
    ConstraintModel {
        symbol: c,
        required: required_places(letters, symbols, c, n),
        forbidden: forbidden_places(letters, symbols, c, n),
        min_count: found_count(letters, symbols, c, n),
        bounded: found_absent(letters, symbols, c, n),
    }
}

/// The constraint that a guess and its feedback put on the letter `c`.
pub open spec fn constraint_for(
    letters: Seq<char>,
    symbols: Seq<FeedbackSymbol>,
    c: char,
) -> ConstraintModel {
    constraint_upto(letters, symbols, c, letters.len() as int)
}

/// The places that a constraint requires and forbids, and its counts:
/// each required place holds the letter in the guess and earned `Exact`,
/// each forbidden place holds it and earned another symbol, so no place is
/// both; and the letter was found at most once for each place.
pub proof fn lemma_constraint_places(
    letters: Seq<char>,
    symbols: Seq<FeedbackSymbol>,
    c: char,
    n: int,
)
    requires
        0 <= n <= letters.len(),
        n <= usize::MAX,
    ensures
        forall|k: int|
            0 <= k < required_places(letters, symbols, c, n).len() ==> {
                let p = #[trigger] required_places(letters, symbols, c, n)[k];
                p < n && letters[p as int] == c && symbols[p as int] == FeedbackSymbol::Exact
            },
        forall|k: int|
            0 <= k < forbidden_places(letters, symbols, c, n).len() ==> {
                let p = #[trigger] forbidden_places(letters, symbols, c, n)[k];
                p < n && letters[p as int] == c && symbols[p as int] != FeedbackSymbol::Exact
            },
        constraint_upto(letters, symbols, c, n).consistent(),
        found_count(letters, symbols, c, n) <= n,
    decreases n,
{
    if n > 0 {
        lemma_constraint_places(letters, symbols, c, n - 1);
    }
    let required = required_places(letters, symbols, c, n);
    let forbidden = forbidden_places(letters, symbols, c, n);
    assert forall|i: int, j: int|
        0 <= i < required.len() && 0 <= j < forbidden.len() implies (#[trigger] required[i])
        != (#[trigger] forbidden[j]) by {
        let p = required[i];
        let q = forbidden[j];
        assert(symbols[p as int] == FeedbackSymbol::Exact);
        assert(symbols[q as int] != FeedbackSymbol::Exact);
    }
}

/// The template of the text that describes a constraint.
pub const CONSTRAINT_TEMPLATE: &'static str = "
            WordlConstraint for `{}`:
            - must occur at indexes:     {};
            - must NOT occur at indexes: {};
            - must occur at least {} times;
            - must occur at most {} times.
            ";

/// What the template of a constraint is filled with: the letter, the
/// required places, the forbidden places, the least count, and the greatest
/// count, which is -1 for a constraint that is not bounded.
pub open spec fn constraint_args(model: ConstraintModel) -> Seq<Seq<char>> {
    seq![
        seq![model.symbol],
        list_text(model.required),
        list_text(model.forbidden),
        decimal(model.min_count),
        if model.bounded {
            decimal(model.min_count)
        } else {
            seq!['-', '1']
        },
    ]
}

/// What one guess has shown of one letter.
pub struct WordlConstraint {
    /// The letter that the constraint speaks of.
    pub symbol: char,
    /// The places at which the letter must stand.
    pub indexes: Vec<usize>,
    /// The places at which the letter must not stand.
    pub non_indexes: Vec<usize>,
    /// The letter occurs at least this often.
    pub contains_min: usize,
    /// Whether the letter occurs exactly `contains_min` times.
    pub bounded: bool,
}

impl View for WordlConstraint {
    type V = ConstraintModel;

    open spec fn view(&self) -> ConstraintModel {
        ConstraintModel {
            symbol: self.symbol,
            required: self.indexes@,
            forbidden: self.non_indexes@,
            min_count: self.contains_min as nat,
            bounded: self.bounded,
        }
    }
}

/// Whether `places` holds the place `i`.
fn holds_place(places: &Vec<usize>, i: usize) -> (held: bool)
    ensures
        held == places@.contains(i),
{
    let n: usize = places.len();
    let mut k: usize = 0;
    while k < n
        invariant
            n == places@.len(),
            k <= n,
            forall|j: int| 0 <= j < k ==> places@[j] != i,
        decreases n - k,
    {
        if places[k] == i {
            return true;
        }
        k = k + 1;
    }
    false
}

impl WordlConstraint {
    /// The constraint that a guess and its feedback put on the letter `c`,
    /// gathered place by place from the left: `Exact` requires the place and
    /// raises the least count, `Misplaced` forbids the place and raises the
    /// least count, `Absent` forbids the place and makes the count exact.
    pub fn for_letter(letters: &Vec<char>, symbols: &Vec<FeedbackSymbol>, c: char) -> (constraint:
        Self)
        requires
            letters@.len() == symbols@.len(),
        ensures
            constraint@ == constraint_for(letters@, symbols@, c),
            constraint@.consistent(),
    {
        let mut indexes: Vec<usize> = Vec::new();
        let mut non_indexes: Vec<usize> = Vec::new();
        let mut contains_min: usize = 0;
        let mut bounded = false;
        let n: usize = letters.len();
        proof {
            lemma_constraint_places(letters@, symbols@, c, n as int);
        }
        let mut i: usize = 0;
        while i < n
            invariant
                n == letters@.len(),
                n == symbols@.len(),
                i <= n,
                indexes@ == required_places(letters@, symbols@, c, i as int),
                non_indexes@ == forbidden_places(letters@, symbols@, c, i as int),
                contains_min == found_count(letters@, symbols@, c, i as int),
                contains_min <= i,
                bounded == found_absent(letters@, symbols@, c, i as int),
            decreases n - i,
        {
            if letters[i] == c {
                match symbols[i] {
                    FeedbackSymbol::Exact => {
                        indexes.push(i);
                        contains_min = contains_min + 1;
                    },
                    FeedbackSymbol::Misplaced => {
                        non_indexes.push(i);
                        contains_min = contains_min + 1;
                    },
                    FeedbackSymbol::Absent => {
                        non_indexes.push(i);
                        bounded = true;
                    },
                }
            }
            proof {
                if found_absent(letters@, symbols@, c, i + 1) {
                    let k = choose|k: int|
                        0 <= k < i + 1 && letters@[k] == c && #[trigger] symbols@[k]
                            == FeedbackSymbol::Absent;
                    if k < i {
                        assert(found_absent(letters@, symbols@, c, i as int));
                    }
                }
                if found_absent(letters@, symbols@, c, i as int) {
                    let k = choose|k: int|
                        0 <= k < i && letters@[k] == c && #[trigger] symbols@[k]
                            == FeedbackSymbol::Absent;
                    assert(0 <= k < i + 1);
                }
                if letters@[i as int] == c && symbols@[i as int] == FeedbackSymbol::Absent {
                    assert(found_absent(letters@, symbols@, c, i + 1));
                }
            }
            i = i + 1;
        }
        WordlConstraint { symbol: c, indexes, non_indexes, contains_min, bounded }
    }

    /// Describes the constraint in words: the template, made plain and
    /// filled with the constraint's values. There is no text if the pattern
    /// that makes the template plain does not compile.
    pub fn to_string(&self) -> (text: Option<String>)
        ensures
            text is Some <==> regex_valid(FIRST_AND_LAST@),
            text is Some ==> text->0@ == filled(
                plain_template(CONSTRAINT_TEMPLATE@),
                constraint_args(self@),
            ),
    {
        let template = match dedent_ignore_first_last(CONSTRAINT_TEMPLATE) {
            Some(template) => template,
            None => {
                return None;
            },
        };
        let mut symbol = String::new();
        push_char(&mut symbol, self.symbol);
        assert(symbol@ =~= seq![self.symbol]);
        let max = if self.bounded {
            decimal_string(self.contains_min)
        } else {
            let mut minus_one = String::new();
            push_char(&mut minus_one, '-');
            push_char(&mut minus_one, '1');
            assert(minus_one@ =~= seq!['-', '1']);
            minus_one
        };
        let mut args: Vec<String> = Vec::new();
        args.push(symbol);
        args.push(array_to_string(&self.indexes));
        args.push(array_to_string(&self.non_indexes));
        args.push(decimal_string(self.contains_min));
        args.push(max);
        proof {
            let given = texts(args@);
            let wanted = constraint_args(self@);
            assert(given.len() == 5 && wanted.len() == 5);
            assert(given[0] == wanted[0]);
            assert(given[1] == wanted[1]);
            assert(given[2] == wanted[2]);
            assert(given[3] == wanted[3]);
            assert(given[4] == wanted[4]);
            assert(given =~= wanted);
        }
        Some(fill(template.as_str(), &args))
    }

    /// Whether a word obeys the constraint. The word is read in upper case.
    pub fn satisfies(&self, word: &String) -> (ok: bool)
        ensures
            ok == self@.fits(upper_word(word@)),
    {
        let chars = upper_letters_of(word.as_str());
        let n: usize = chars.len();
        let mut count: usize = 0;
        let mut i: usize = 0;
        while i < n
            invariant
                n == chars@.len(),
                chars@ == upper_word(word@),
                i <= n,
                count == occurrences(chars@.take(i as int), self.symbol),
                count <= i,
                forall|k: int|
                    0 <= k < self.indexes@.len() && (#[trigger] self.indexes@[k]) < i
                        ==> chars@[self.indexes@[k] as int] == self.symbol,
                forall|k: int|
                    0 <= k < self.non_indexes@.len() && (#[trigger] self.non_indexes@[k]) < i
                        ==> chars@[self.non_indexes@[k] as int] != self.symbol,
            decreases n - i,
        {
            if chars[i] == self.symbol {
                count = count + 1;
                if holds_place(&self.non_indexes, i) {
                    proof {
                        let k = choose|k: int|
                            0 <= k < self.non_indexes@.len() && self.non_indexes@[k] == i;
                        assert(self@.forbidden[k] == i);
                    }
                    return false;
                }
            } else {
                if holds_place(&self.indexes, i) {
                    proof {
                        let k = choose|k: int|
                            0 <= k < self.indexes@.len() && self.indexes@[k] == i;
                        assert(self@.required[k] == i);
                    }
                    return false;
                }
            }
            proof {
                let next = chars@.take(i + 1);
                assert(next.drop_last() =~= chars@.take(i as int));
                assert(next.last() == chars@[i as int]);
            }
            i = i + 1;
        }
        assert(chars@.take(n as int) =~= chars@);
        if count < self.contains_min || self.bounded && (count > self.contains_min) {
            return false;
        }
        true
    }
}

} // verus!
