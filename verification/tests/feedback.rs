use wordle::feedback::{decode_feedback, score_guess, FeedbackError, FeedbackSymbol};
use wordle::states::{change_distance, compare_guess, WordlState};

fn chars(text: &str) -> Vec<char> {
    text.chars().collect()
}

fn words(list: &[&str]) -> Vec<String> {
    list.iter().map(|word| word.to_string()).collect()
}

#[test]
fn distance_with_repeated_letters() {
    assert_eq!(change_distance("oodloitt", "flooding"), (3, 4));
}

#[test]
fn distance_of_a_word_to_itself() {
    assert_eq!(change_distance("goo", "goo"), (0, 0));
}

#[test]
fn distance_of_two_swapped_letters() {
    assert_eq!(change_distance("ogo", "goo"), (0, 2));
}

#[test]
fn distance_of_one_wrong_letter() {
    assert_eq!(change_distance("dog", "dot"), (1, 0));
}

#[test]
fn distance_of_one_wrong_and_one_shifted_letter() {
    assert_eq!(change_distance("tor", "dot"), (1, 1));
}

#[test]
fn score_serves_repeated_letters_from_the_left() {
    let symbols = score_guess(&chars("OODLOITT"), &chars("FLOODING"));
    assert_eq!(
        symbols,
        vec![
            FeedbackSymbol::Misplaced,
            FeedbackSymbol::Misplaced,
            FeedbackSymbol::Misplaced,
            FeedbackSymbol::Misplaced,
            FeedbackSymbol::Absent,
            FeedbackSymbol::Exact,
            FeedbackSymbol::Absent,
            FeedbackSymbol::Absent,
        ]
    );
}

#[test]
fn score_marks_the_surplus_of_a_letter_absent() {
    let symbols = score_guess(&chars("ABBY"), &chars("BOAT"));
    assert_eq!(
        symbols,
        vec![
            FeedbackSymbol::Misplaced,
            FeedbackSymbol::Misplaced,
            FeedbackSymbol::Absent,
            FeedbackSymbol::Absent,
        ]
    );
}

#[test]
fn score_of_empty_words_is_empty() {
    assert_eq!(score_guess(&chars(""), &chars("")), Vec::<FeedbackSymbol>::new());
}

#[test]
fn decode_reads_all_four_characters() {
    assert_eq!(
        decode_feedback(&chars("1-0x")),
        Ok(vec![
            FeedbackSymbol::Exact,
            FeedbackSymbol::Misplaced,
            FeedbackSymbol::Absent,
            FeedbackSymbol::Absent,
        ])
    );
}

#[test]
fn decode_refuses_an_unknown_character() {
    assert_eq!(decode_feedback(&chars("1-2")), Err(FeedbackError::UnknownSymbol));
    assert_eq!(decode_feedback(&chars("X")), Err(FeedbackError::UnknownSymbol));
}

#[test]
fn own_feedback_is_exact_everywhere() {
    for word in ["crane", "goo", "Flooding", "a", ""] {
        let state = WordlState::from(word, word);
        assert_eq!(state.len(), word.chars().count());
        for letter in state.states.iter() {
            assert!(letter.correct);
            assert!(!letter.partial);
        }
    }
}

#[test]
fn compare_guess_reads_both_words_in_upper_case() {
    let state = compare_guess("Dog", "dOT");
    let marks: Vec<(char, bool, bool)> = state
        .states
        .iter()
        .map(|letter| (letter.symbol, letter.correct, letter.partial))
        .collect();
    assert_eq!(marks, vec![('D', true, false), ('O', true, false), ('G', false, false)]);
}

#[test]
fn parse_refuses_feedback_of_another_length() {
    assert!(matches!(WordlState::parse("abc", "1-"), Err(FeedbackError::WrongLength)));
    assert!(matches!(WordlState::parse("abc", "1-xx"), Err(FeedbackError::WrongLength)));
}

#[test]
fn parse_refuses_an_unknown_character() {
    assert!(matches!(WordlState::parse("abc", "1-z"), Err(FeedbackError::UnknownSymbol)));
}

#[test]
fn parse_accepts_valid_feedback() {
    let state = WordlState::parse("alert", "xx-x1").unwrap();
    assert_eq!(state.len(), 5);
    assert_eq!(state.to_string(), "[A][L][E][R][T]");
}

#[test]
fn state_shows_letters_in_the_colours_of_their_feedback() {
    let state = WordlState::new("abc", "1-x");
    assert_eq!(state.to_string(), "[A][B][C]");
    assert_eq!(state.as_str(), "[A][B][C]");
    assert_eq!(
        state.to_string_with_feedback(),
        "[\x1b[92mA\x1b[0m][\x1b[93mB\x1b[0m][\x1b[91mC\x1b[0m]"
    );
    assert_eq!(state.as_str_with_feedback(), state.to_string_with_feedback());
    assert_eq!(state.states[1].to_string(), "[B]");
    assert_eq!(state.states[1].as_str(), "[B]");
    assert_eq!(state.states[1].to_string_with_feedback(), "[\x1b[93mB\x1b[0m]");
    assert_eq!(state.states[1].as_str_with_feedback(), "[\x1b[93mB\x1b[0m]");
}

#[test]
fn empty_state_has_nothing() {
    let state = WordlState::empty();
    assert_eq!(state.len(), 0);
    assert!(state.constraints.is_empty());
    assert_eq!(state.to_string(), "");
    assert_eq!(state.to_string_with_feedback(), "");
    assert!(state.is_compatible_with(&String::from("anything")));
}

#[test]
fn bounded_count_for_a_letter_marked_misplaced_and_absent() {
    let state = WordlState::new("ABBY", "x-xx");
    let b = state
        .constraints
        .iter()
        .find(|constraint| constraint.symbol == 'B')
        .unwrap();
    assert_eq!(b.contains_min, 1);
    assert!(b.bounded);
    assert_eq!(b.indexes, Vec::<usize>::new());
    assert_eq!(b.non_indexes, vec![1, 2]);
    assert!(b.satisfies(&String::from("BOAT")));
    assert!(!b.satisfies(&String::from("BOBS")));
    assert!(!b.satisfies(&String::from("BBBB")));
    assert!(!b.satisfies(&String::from("TOAD")));
    assert!(!state.is_compatible_with(&String::from("BOBS")));
}

#[test]
fn one_constraint_for_each_letter_in_the_order_of_first_occurrence() {
    let state = WordlState::new("ABBY", "x-1x");
    let letters: Vec<char> = state.constraints.iter().map(|c| c.symbol).collect();
    assert_eq!(letters, vec!['A', 'B', 'Y']);
    let b = &state.constraints[1];
    assert_eq!(b.indexes, vec![2]);
    assert_eq!(b.non_indexes, vec![1]);
    assert_eq!(b.contains_min, 2);
    assert!(!b.bounded);
    let a = &state.constraints[0];
    assert_eq!(a.contains_min, 0);
    assert!(a.bounded);
    assert_eq!(a.non_indexes, vec![0]);
}

#[test]
fn an_absent_mark_bounds_the_count_wherever_it_stands() {
    let early = WordlState::new("BBA", "x1x");
    let late = WordlState::new("BBA", "1xx");
    for state in [early, late] {
        let b = &state.constraints[0];
        assert_eq!(b.contains_min, 1);
        assert!(b.bounded);
    }
}

#[test]
fn satisfies_reads_the_word_in_upper_case() {
    let state = WordlState::new("ab", "1x");
    assert!(state.is_compatible_with(&String::from("ac")));
    assert!(state.is_compatible_with(&String::from("AC")));
    assert!(!state.is_compatible_with(&String::from("ab")));
    assert!(!state.is_compatible_with(&String::from("ca")));
}

#[test]
fn constraint_is_described_in_words() {
    let state = WordlState::new("ABBY", "x-xx");
    let text = state.constraints[1].to_string().unwrap();
    assert_eq!(
        text,
        "WordlConstraint for `B`:\n\
         - must occur at indexes:     [];\n\
         - must NOT occur at indexes: [1, 2];\n\
         - must occur at least 1 times;\n\
         - must occur at most 1 times."
    );
    let state = WordlState::new("ABBY", "x11x");
    let text = state.constraints[1].to_string().unwrap();
    assert_eq!(
        text,
        "WordlConstraint for `B`:\n\
         - must occur at indexes:     [1, 2];\n\
         - must NOT occur at indexes: [];\n\
         - must occur at least 2 times;\n\
         - must occur at most -1 times."
    );
}

#[test]
fn constrain_keeps_the_compatible_words_in_order() {
    let pool = words(&["alter", "burnt", "event", "exist", "later", "tepid", "quiet", "edict"]);
    let state = WordlState::new("alert", "xx-x1");
    assert_eq!(state.constrain(&pool), words(&["exist", "quiet", "edict"]));
}

#[test]
fn constrain_without_constraints_keeps_everything() {
    let pool = words(&["alter", "burnt", "event"]);
    assert_eq!(WordlState::empty().constrain(&pool), pool);
}

#[test]
fn constrain_never_adds_a_word() {
    let pool = words(&["dog", "dot", "tor", "rot", "god", "odd"]);
    for guess in pool.iter() {
        for solution in pool.iter() {
            let kept = WordlState::from(guess, solution).constrain(&pool);
            assert!(kept.len() <= pool.len());
        }
    }
}

#[test]
fn the_solution_survives_its_own_feedback() {
    let pool = words(&[
        "dog", "dot", "tor", "rot", "god", "odd", "goo", "ogo", "too", "oto", "ddd", "Dot",
    ]);
    for guess in pool.iter() {
        for solution in pool.iter() {
            let kept = WordlState::from(guess, solution).constrain(&pool);
            assert!(kept.contains(solution), "{} against {}", guess, solution);
        }
    }
}
