//! The outcome of one guess: its letters with what each earned, and the
//! constraints that follow for the words that are still possible.

use vstd::prelude::*;
use crate::constraints::{
    constraint_for, lemma_constraint_places, ConstraintModel, WordlConstraint,
};
use crate::counts::count_letters;
use crate::feedback::{
    code_of, decode, decode_symbol, encode, feedback, score_guess, symbol_code, symbol_of,
    valid_code, FeedbackError, FeedbackSymbol,
};
use crate::letters::{distinct_letters, letters_of, upper_letters_of, upper_word};
use crate::strings::{push_char, string_of};

verus! {

/// The escape character that starts a colour code.
pub open spec fn escape() -> char {
    '\u{1b}'
}

/// A letter in square brackets.
pub open spec fn plain_block(symbol: char) -> Seq<char> {
    seq!['[', symbol, ']']
}

/// The digit that selects the colour of a letter: `1` (red) for a letter
/// that is not correct, `2` (green) for one at its right place, `3` (yellow)
/// for one at another place.
pub open spec fn colour_digit(correct: bool, partial: bool) -> char {
    if !correct {
        '1'
    } else if !partial {
        '2'
    } else {
        '3'
    }
}

/// A letter in square brackets, in the colour that its feedback selects.
pub open spec fn coloured_block(symbol: char, correct: bool, partial: bool) -> Seq<char> {
    seq![
        '[',
        escape(),
        '[',
        '9',
        colour_digit(correct, partial),
        'm',
        symbol,
        escape(),
        '[',
        '0',
        'm',
        ']',
    ]
}

/// The parts of a text, one after the other.
pub open spec fn joined(parts: Seq<Seq<char>>) -> Seq<char>
    decreases parts.len(),
{
    if parts.len() == 0 {
        Seq::empty()
    } else {
        joined(parts.drop_last()) + parts.last()
    }
}

/// One letter of a guess with what it earned.
#[derive(Debug)]
pub struct WordlCharState {
    /// The letter, in upper case.
    pub symbol: char,
    /// Whether the letter occurs in the solution.
    pub correct: bool,
    /// Whether the letter occurs in the solution, but at another place.
    pub partial: bool,
    /// The letter in square brackets.
    pub repr: String,
    /// The letter in square brackets, in the colour of its feedback.
    pub repr_feedback: String,
}

impl WordlCharState {
    /// The text that shows the letter.
    pub open spec fn text(&self) -> Seq<char> {
        self.repr@
    }

    /// The text that shows the letter in the colour of its feedback.
    pub open spec fn text_with_feedback(&self) -> Seq<char> {
        self.repr_feedback@
    }

    /// What the letter earned.
    pub open spec fn mark(&self) -> FeedbackSymbol {
        if !self.correct {
            FeedbackSymbol::Absent
        } else if !self.partial {
            FeedbackSymbol::Exact
        } else {
            FeedbackSymbol::Misplaced
        }
    }

    /// The two texts show the letter and its feedback.
    pub open spec fn wf(&self) -> bool {
        &&& self.text() == plain_block(self.symbol)
        &&& self.text_with_feedback() == coloured_block(self.symbol, self.correct, self.partial)
    }

    fn new(symbol: char, correct: bool, partial: bool) -> (state: Self)
        ensures
            state.wf(),
            state.symbol == symbol,
            state.correct == correct,
            state.partial == partial,
    {
        let mut state = WordlCharState {
            symbol,
            correct,
            partial,
            repr: String::new(),
            repr_feedback: String::new(),
        };
        state.repr = state.to_representation(false);
        state.repr_feedback = state.to_representation(true);
        state
    }

    fn to_representation(&self, with_feedback: bool) -> (text: String)
        ensures
            text@ == if with_feedback {
                coloured_block(self.symbol, self.correct, self.partial)
            } else {
                plain_block(self.symbol)
            },
    {
        let mut text = String::new();
        push_char(&mut text, '[');
        if with_feedback {
            let digit: char = if !self.correct {
                '1'
            } else if !self.partial {
                '2'
            } else {
                '3'
            };
            push_char(&mut text, '\u{1b}');
            push_char(&mut text, '[');
            push_char(&mut text, '9');
            push_char(&mut text, digit);
            push_char(&mut text, 'm');
            push_char(&mut text, self.symbol);
            push_char(&mut text, '\u{1b}');
            push_char(&mut text, '[');
            push_char(&mut text, '0');
            push_char(&mut text, 'm');
            push_char(&mut text, ']');
            assert(text@ =~= coloured_block(self.symbol, self.correct, self.partial));
        } else {
            push_char(&mut text, self.symbol);
            push_char(&mut text, ']');
            assert(text@ =~= plain_block(self.symbol));
        }
        text
    }

    /// The letter in square brackets.
    pub fn to_string(&self) -> (text: String)
        ensures
            text@ == self.text(),
    {
        self.repr.clone()
    }

    /// The letter in square brackets.
    pub fn as_str<'life>(&'life self) -> (text: &'life str)
        ensures
            text@ == self.text(),
    {
        self.repr.as_str()
    }

    /// The letter in square brackets, in the colour of its feedback.
    pub fn to_string_with_feedback(&self) -> (text: String)
        ensures
            text@ == self.text_with_feedback(),
    {
        self.repr_feedback.clone()
    }

    /// The letter in square brackets, in the colour of its feedback.
    pub fn as_str_with_feedback<'life>(&'life self) -> (text: &'life str)
        ensures
            text@ == self.text_with_feedback(),
    {
        self.repr_feedback.as_str()
    }
}

/// The constraints that a guess and its feedback put on the words: one for
/// each letter of the guess, in the order in which the letters first occur.
pub open spec fn constraints_of(letters: Seq<char>, symbols: Seq<FeedbackSymbol>) -> Seq<
    ConstraintModel,
> {
    Seq::new(
        distinct_letters(letters).len(),
        |k: int| constraint_for(letters, symbols, distinct_letters(letters)[k]),
    )
}

/// Whether a word obeys every one of the constraints. The word is read in
/// upper case.
pub open spec fn obeys_all(constraints: Seq<ConstraintModel>, word: Seq<char>) -> bool {
    forall|k: int| 0 <= k < constraints.len() ==> (#[trigger] constraints[k]).fits(upper_word(word))
}

/// How often `symbol` stands among `symbols`.
pub open spec fn symbol_count(symbols: Seq<FeedbackSymbol>, symbol: FeedbackSymbol) -> nat
    decreases symbols.len(),
{
    if symbols.len() == 0 {
        0
    } else {
        symbol_count(symbols.drop_last(), symbol) + if symbols.last() == symbol {
            1nat
        } else {
            0nat
        }
    }
}

/// The outcome of one guess.
pub struct WordlState {
    /// The letters of the guess, each with what it earned.
    pub states: Vec<WordlCharState>,
    /// One constraint for each letter of the guess.
    pub constraints: Vec<WordlConstraint>,
    /// The letters in square brackets.
    pub repr: String,
    /// The letters in square brackets, in the colours of their feedback.
    pub repr_feedback: String,
}

impl WordlState {
    /// The letters of the guess.
    pub open spec fn letters(&self) -> Seq<char> {
        self.states@.map_values(|state: WordlCharState| state.symbol)
    }

    /// What the letters of the guess earned.
    pub open spec fn symbols(&self) -> Seq<FeedbackSymbol> {
        self.states@.map_values(|state: WordlCharState| state.mark())
    }

    /// The constraints as mathematical values.
    pub open spec fn constraint_models(&self) -> Seq<ConstraintModel> {
        self.constraints@.map_values(|constraint: WordlConstraint| constraint@)
    }

    /// The text that shows the guess.
    pub open spec fn text(&self) -> Seq<char> {
        self.repr@
    }

    /// The text that shows the guess in the colours of its feedback.
    pub open spec fn text_with_feedback(&self) -> Seq<char> {
        self.repr_feedback@
    }

    /// The outcome's invariant: the constraints are those of the letters and
    /// their feedback, and the texts show the letters in order.
    pub open spec fn wf(&self) -> bool {
        &&& forall|i: int| 0 <= i < self.states@.len() ==> (#[trigger] self.states@[i]).wf()
        &&& self.constraint_models() == constraints_of(self.letters(), self.symbols())
        &&& self.text() == joined(self.states@.map_values(|state: WordlCharState| state.text()))
        &&& self.text_with_feedback() == joined(
            self.states@.map_values(|state: WordlCharState| state.text_with_feedback()),
        )
    }

    /// Whether a word obeys every constraint of the outcome.
    pub open spec fn compatible(&self, word: Seq<char>) -> bool {
        obeys_all(self.constraint_models(), word)
    }

    /// The test by which `constrain` keeps a word.
    pub open spec fn keeps(&self) -> spec_fn(String) -> bool {
        |word: String| self.compatible(word@)
    }

    /// The outcome of no guess: no letters and no constraints.
    pub fn empty() -> (state: Self)
        ensures
            state.wf(),
            state.states@.len() == 0,
            state.constraints@.len() == 0,
            state.text() == Seq::<char>::empty(),
            state.text_with_feedback() == Seq::<char>::empty(),
    {
        let state = WordlState {
            states: Vec::new(),
            constraints: Vec::new(),
            repr: String::new(),
            repr_feedback: String::new(),
        };
        proof {
            assert(state.constraint_models() =~= constraints_of(state.letters(), state.symbols()));
            assert(state.states@.map_values(|state: WordlCharState| state.text()).len() == 0);
            assert(state.states@.map_values(
                |state: WordlCharState| state.text_with_feedback(),
            ).len() == 0);
        }
        state
    }

    /// The outcome of a guess whose letters and symbols are given.
    pub fn assemble(letters: &Vec<char>, symbols: &Vec<FeedbackSymbol>) -> (state: Self)
        requires
            letters@.len() == symbols@.len(),
        ensures
            state.wf(),
            state.letters() == letters@,
            state.symbols() == symbols@,
    {
        let n: usize = letters.len();
        let mut states: Vec<WordlCharState> = Vec::new();
        let mut i: usize = 0;
        while i < n
            invariant
                n == letters@.len(),
                n == symbols@.len(),
                i <= n,
                states@.len() == i,
                forall|k: int|
                    0 <= k < i ==> {
                        &&& (#[trigger] states@[k]).wf()
                        &&& states@[k].symbol == letters@[k]
                        &&& states@[k].mark() == symbols@[k]
                    },
            decreases n - i,
        {
            let state = match symbols[i] {
                FeedbackSymbol::Misplaced => WordlCharState::new(letters[i], true, true),
                FeedbackSymbol::Exact => WordlCharState::new(letters[i], true, false),
                FeedbackSymbol::Absent => WordlCharState::new(letters[i], false, false),
            };
            states.push(state);
            i = i + 1;
        }
        let table = count_letters(letters);
        let m: usize = table.len();
        let mut constraints: Vec<WordlConstraint> = Vec::new();
        let mut k: usize = 0;
        while k < m
            invariant
                letters@.len() == symbols@.len(),
                m == table.entries().len(),
                table.letters() == distinct_letters(letters@),
                k <= m,
                constraints@.len() == k,
                forall|j: int|
                    0 <= j < k ==> (#[trigger] constraints@[j])@ == constraint_for(
                        letters@,
                        symbols@,
                        distinct_letters(letters@)[j],
                    ),
            decreases m - k,
        {
            let entry = table.entry(k);
            assert(table.letters()[k as int] == entry.0);
            constraints.push(WordlConstraint::for_letter(letters, symbols, entry.0));
            k = k + 1;
        }
        let mut state = WordlState {
            states,
            constraints,
            repr: String::new(),
            repr_feedback: String::new(),
        };
        state.repr = state.to_representation(false);
        state.repr_feedback = state.to_representation(true);
        proof {
            assert(state.letters() =~= letters@);
            assert(state.symbols() =~= symbols@);
            assert(state.constraint_models() =~= constraints_of(letters@, symbols@));
        }
        state
    }

    /// The outcome of a guess with the feedback that the game gave: one
    /// character for each letter, `1` for a letter at its right place, `-`
    /// for a letter at another place, `0` or `x` for a letter that is not in
    /// the solution. The guess is read in upper case.
    pub fn new(guess: &str, feedback: &str) -> (state: Self)
        requires
            feedback@.len() == guess@.len(),
            valid_code(feedback@),
        ensures
            state.wf(),
            state.letters() == upper_word(guess@),
            state.symbols() == decode(feedback@),
    {
        let guess_chars = upper_letters_of(guess);
        let feedback_chars = letters_of(feedback);
        let n: usize = guess_chars.len();
        let mut symbols: Vec<FeedbackSymbol> = Vec::new();
        let mut index: usize = 0;
        while index < n
            invariant
                n == feedback_chars@.len(),
                valid_code(feedback_chars@),
                index <= n,
                symbols@.len() == index,
                forall|k: int|
                    0 <= k < index ==> #[trigger] symbols@[k] == decode_symbol(
                        feedback_chars@[k],
                    ).unwrap(),
            decreases n - index,
        {
            let symbol = symbol_of(feedback_chars[index]);
            assert(decode_symbol(feedback_chars@[index as int]) is Some);
            symbols.push(symbol.unwrap());
            index = index + 1;
        }
        assert(symbols@ =~= decode(feedback@));
        Self::assemble(&guess_chars, &symbols)
    }

    /// The outcome of a guess with the feedback that the game gave, or the
    /// reason why the feedback cannot be read: it must have one character
    /// for each letter of the guess, each of them `1`, `-`, `0` or `x`.
    pub fn parse(guess: &str, feedback: &str) -> (outcome: Result<Self, FeedbackError>)
        ensures
            match outcome {
                Ok(state) => {
                    &&& feedback@.len() == guess@.len()
                    &&& valid_code(feedback@)
                    &&& state.wf()
                    &&& state.letters() == upper_word(guess@)
                    &&& state.symbols() == decode(feedback@)
                },
                Err(FeedbackError::WrongLength) => feedback@.len() != guess@.len(),
                Err(FeedbackError::UnknownSymbol) => feedback@.len() == guess@.len() && !valid_code(
                    feedback@,
                ),
            },
    {
        let feedback_chars = letters_of(feedback);
        if feedback_chars.len() != guess.unicode_len() {
            return Err(FeedbackError::WrongLength);
        }
        let n: usize = feedback_chars.len();
        let mut index: usize = 0;
        while index < n
            invariant
                n == feedback_chars@.len(),
                feedback_chars@ == feedback@,
                feedback@.len() == guess@.len(),
                index <= n,
                forall|k: int|
                    0 <= k < index ==> (#[trigger] decode_symbol(feedback_chars@[k])) is Some,
            decreases n - index,
        {
            if symbol_of(feedback_chars[index]).is_none() {
                assert(decode_symbol(feedback@[index as int]) is None);
                return Err(FeedbackError::UnknownSymbol);
            }
            index = index + 1;
        }
        Ok(Self::new(guess, feedback))
    }

    /// The outcome of a guess when the solution is known.
    pub fn from(guess: &str, solution: &str) -> (state: Self)
        requires
            guess@.len() == solution@.len(),
        ensures
            state.wf(),
            state.letters() == upper_word(guess@),
            state.symbols() == feedback(upper_word(guess@), upper_word(solution@)),
    {
        compare_guess(guess, solution)
    }

    /// Whether a word obeys every constraint of the outcome.
    pub fn is_compatible_with(&self, word: &String) -> (ok: bool)
        ensures
            ok == self.compatible(word@),
    {
        let n: usize = self.constraints.len();
        let mut k: usize = 0;
        while k < n
            invariant
                n == self.constraints@.len(),
                k <= n,
                forall|j: int|
                    0 <= j < k ==> (#[trigger] self.constraint_models()[j]).fits(
                        upper_word(word@),
                    ),
            decreases n - k,
        {
            if !self.constraints[k].satisfies(word) {
                assert(!self.constraint_models()[k as int].fits(upper_word(word@)));
                return false;
            }
            k = k + 1;
        }
        true
    }

    /// The words that obey every constraint of the outcome, in the order in
    /// which they were given.
    pub fn constrain(&self, words: &Vec<String>) -> (kept: Vec<String>)
        ensures
            kept@ == words@.filter(self.keeps()),
            kept@.len() <= words@.len(),
    {
        let mut kept: Vec<String> = Vec::new();
        let n: usize = words.len();
        let mut i: usize = 0;
        proof {
            reveal(Seq::filter);
            assert(words@.take(0).filter(self.keeps()) =~= Seq::<String>::empty());
        }
        while i < n
            invariant
                n == words@.len(),
                i <= n,
                kept@ == words@.take(i as int).filter(self.keeps()),
            decreases n - i,
        {
            let ok = self.is_compatible_with(&words[i]);
            proof {
                reveal(Seq::filter);
                let next = words@.take(i + 1);
                assert(next.drop_last() =~= words@.take(i as int));
                assert(next.last() == words@[i as int]);
            }
            if ok {
                kept.push(words[i].clone());
            }
            i = i + 1;
        }
        proof {
            assert(words@.take(n as int) =~= words@);
            words@.lemma_filter_len(self.keeps());
        }
        kept
    }

    fn to_representation(&self, with_feedback: bool) -> (text: String)
        ensures
            text@ == if with_feedback {
                joined(self.states@.map_values(|state: WordlCharState| state.text_with_feedback()))
            } else {
                joined(self.states@.map_values(|state: WordlCharState| state.text()))
            },
    {
        let mut text = String::new();
        let n: usize = self.states.len();
        let mut i: usize = 0;
        let ghost parts = if with_feedback {
            self.states@.map_values(|state: WordlCharState| state.text_with_feedback())
        } else {
            self.states@.map_values(|state: WordlCharState| state.text())
        };
        while i < n
            invariant
                n == self.states@.len(),
                i <= n,
                parts == if with_feedback {
                    self.states@.map_values(|state: WordlCharState| state.text_with_feedback())
                } else {
                    self.states@.map_values(|state: WordlCharState| state.text())
                },
                text@ == joined(parts.take(i as int)),
            decreases n - i,
        {
            if with_feedback {
                text.append(self.states[i].as_str_with_feedback());
            } else {
                text.append(self.states[i].as_str());
            }
            proof {
                let next = parts.take(i + 1);
                assert(next.drop_last() =~= parts.take(i as int));
                assert(next.last() == parts[i as int]);
            }
            i = i + 1;
        }
        assert(parts.take(n as int) =~= parts);
        text
    }

    /// Whether the guess was the solution: it has letters, and each of them
    /// stands at its right place.
    pub fn is_correct(&self) -> (yes: bool)
        ensures
            yes == (self.states@.len() > 0 && forall|i: int|
                0 <= i < self.states@.len() ==> (#[trigger] self.symbols()[i])
                    == FeedbackSymbol::Exact),
    {
        let n: usize = self.states.len();
        if n == 0 {
            return false;
        }
        let mut i: usize = 0;
        while i < n
            invariant
                n == self.states@.len(),
                i <= n,
                forall|k: int| 0 <= k < i ==> (#[trigger] self.symbols()[k]) == FeedbackSymbol::Exact,
            decreases n - i,
        {
            if !self.states[i].correct || self.states[i].partial {
                assert(self.symbols()[i as int] != FeedbackSymbol::Exact);
                return false;
            }
            i = i + 1;
        }
        true
    }

    /// The number of letters of the guess.
    pub fn len(&self) -> (n: usize)
        ensures
            n == self.states@.len(),
    {
        self.states.len()
    }

    /// The letters of the guess in square brackets.
    pub fn to_string(&self) -> (text: String)
        ensures
            text@ == self.text(),
    {
        self.repr.clone()
    }

    /// The letters of the guess in square brackets.
    pub fn as_str<'life>(&'life self) -> (text: &'life str)
        ensures
            text@ == self.text(),
    {
        self.repr.as_str()
    }

    /// The letters of the guess in square brackets, in the colours of their
    /// feedback.
    pub fn to_string_with_feedback(&self) -> (text: String)
        ensures
            text@ == self.text_with_feedback(),
    {
        self.repr_feedback.clone()
    }

    /// The letters of the guess in square brackets, in the colours of their
    /// feedback.
    pub fn as_str_with_feedback<'life>(&'life self) -> (text: &'life str)
        ensures
            text@ == self.text_with_feedback(),
    {
        self.repr_feedback.as_str()
    }
}

/// An outcome without constraints keeps every word of a pool.
pub proof fn lemma_no_constraint_keeps_all(state: WordlState, words: Seq<String>)
    requires
        state.constraints@.len() == 0,
    ensures
        words.filter(state.keeps()) == words,
    decreases words.len(),
{
    reveal(Seq::filter);
    if words.len() > 0 {
        lemma_no_constraint_keeps_all(state, words.drop_last());
        assert((state.keeps())(words.last()));
        assert(words.drop_last().push(words.last()) =~= words);
    }
}

/// No constraint of a guess requires a place that it forbids.
pub proof fn lemma_constraints_consistent(letters: Seq<char>, symbols: Seq<FeedbackSymbol>)
    requires
        letters.len() <= usize::MAX,
    ensures
        forall|k: int|
            0 <= k < constraints_of(letters, symbols).len() ==> (#[trigger] constraints_of(
                letters,
                symbols,
            )[k]).consistent(),
{
    assert forall|k: int| 0 <= k < constraints_of(letters, symbols).len() implies (
    #[trigger] constraints_of(letters, symbols)[k]).consistent() by {
        lemma_constraint_places(
            letters,
            symbols,
            distinct_letters(letters)[k],
            letters.len() as int,
        );
    }
}

/// A feedback code that was made from symbols is valid and gives the symbols
/// back.
pub proof fn lemma_decode_encode(symbols: Seq<FeedbackSymbol>)
    ensures
        valid_code(encode(symbols)),
        decode(encode(symbols)) == symbols,
        encode(symbols).len() == symbols.len(),
{
    assert forall|i: int| 0 <= i < encode(symbols).len() implies (#[trigger] decode_symbol(
        encode(symbols)[i],
    )) is Some by {
        assert(decode_symbol(symbol_code(symbols[i])) == Some(symbols[i]));
    }
    assert forall|i: int| 0 <= i < symbols.len() implies decode(encode(symbols))[i]
        == symbols[i] by {
        assert(decode_symbol(symbol_code(symbols[i])) == Some(symbols[i]));
    }
    assert(decode(encode(symbols)) =~= symbols);
}

/// Round trip: the feedback of a word against itself is `Exact` at every
/// place, and it is so again after it was written as a code and read back.
pub proof fn lemma_own_feedback_is_exact(word: Seq<char>)
    ensures
        feedback(word, word) == Seq::new(word.len(), |i: int| FeedbackSymbol::Exact),
        valid_code(encode(feedback(word, word))),
        decode(encode(feedback(word, word))) == Seq::new(
            word.len(),
            |i: int| FeedbackSymbol::Exact,
        ),
{
    assert(feedback(word, word) =~= Seq::new(word.len(), |i: int| FeedbackSymbol::Exact));
    lemma_decode_encode(feedback(word, word));
}

/// Scores a guess against the solution, both read in upper case, writes the
/// feedback as a code and reads the outcome from the guess and that code.
pub fn compare_guess(guess: &str, solution: &str) -> (state: WordlState)
    requires
        guess@.len() == solution@.len(),
    ensures
        state.wf(),
        state.letters() == upper_word(guess@),
        state.symbols() == feedback(upper_word(guess@), upper_word(solution@)),
{
    let guess_chars = upper_letters_of(guess);
    let solution_chars = upper_letters_of(solution);
    let symbols = score_guess(&guess_chars, &solution_chars);
    let n: usize = symbols.len();
    let mut codes: Vec<char> = Vec::new();
    let mut index: usize = 0;
    while index < n
        invariant
            n == symbols@.len(),
            index <= n,
            codes@.len() == index,
            forall|k: int| 0 <= k < index ==> #[trigger] codes@[k] == symbol_code(symbols@[k]),
        decreases n - index,
    {
        codes.push(code_of(symbols[index]));
        index = index + 1;
    }
    assert(codes@ =~= encode(symbols@));
    proof {
        lemma_decode_encode(symbols@);
    }
    let feedback = string_of(&codes);
    WordlState::new(guess, feedback.as_str())
}

/// The distance of a guess from the solution: the number of letters that
/// are not in the solution, and the number of letters that stand at a wrong
/// place.
pub fn change_distance(guess: &str, solution: &str) -> (distance: (i32, i32))
    requires
        guess@.len() == solution@.len(),
        guess@.len() <= i32::MAX,
    ensures
        distance.0 == symbol_count(
            feedback(upper_word(guess@), upper_word(solution@)),
            FeedbackSymbol::Absent,
        ),
        distance.1 == symbol_count(
            feedback(upper_word(guess@), upper_word(solution@)),
            FeedbackSymbol::Misplaced,
        ),
{
    let wordl_state = WordlState::from(guess, solution);
    let mut nr_incorrect: i32 = 0;
    let mut nr_shifts: i32 = 0;
    let n: usize = wordl_state.states.len();
    let mut i: usize = 0;
    let ghost symbols = wordl_state.symbols();
    while i < n
        invariant
            n == wordl_state.states@.len(),
            n <= i32::MAX,
            symbols == wordl_state.symbols(),
            i <= n,
            nr_incorrect == symbol_count(symbols.take(i as int), FeedbackSymbol::Absent),
            nr_shifts == symbol_count(symbols.take(i as int), FeedbackSymbol::Misplaced),
            nr_incorrect <= i,
            nr_shifts <= i,
        decreases n - i,
    {
        proof {
            let next = symbols.take(i + 1);
            assert(next.drop_last() =~= symbols.take(i as int));
            assert(next.last() == wordl_state.states@[i as int].mark());
        }
        if wordl_state.states[i].correct {
            if wordl_state.states[i].partial {
                nr_shifts += 1;
            }
        } else {
            nr_incorrect += 1;
        }
        i = i + 1;
    }
    assert(symbols.take(n as int) =~= symbols);
    (nr_incorrect, nr_shifts)
}

} // verus!
