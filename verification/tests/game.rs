use wordle::feedback::FeedbackError;
use wordle::game::{
    phase_of, rank_pool, resolve, restrict_to_length, select_tactic, suggest, take_turn, Phase,
    Resolution, Tactic, TurnEvent, TurnOutcome,
};
use wordle::states::WordlState;
use wordle::utils::get_letter_frequencies_in_strings;

fn words(list: &[&str]) -> Vec<String> {
    list.iter().map(|word| word.to_string()).collect()
}

fn entropy_of(pool: &Vec<String>) -> Vec<u64> {
    let counts = get_letter_frequencies_in_strings(pool);
    let mut n: f64 = 0.0;
    for i in 0..counts.len() {
        n += counts.entry(i).1 as f64;
    }
    pool.iter()
        .map(|word| {
            let mut h: f64 = 0.0;
            for a in word.chars() {
                let p = counts.get(a) as f64 / n;
                h += -p * p.log2();
            }
            h.to_bits()
        })
        .collect()
}

fn code_of(state: &WordlState) -> String {
    state
        .states
        .iter()
        .map(|letter| {
            if !letter.correct {
                'x'
            } else if letter.partial {
                '-'
            } else {
                '1'
            }
        })
        .collect()
}

#[test]
fn expensive_tactic_is_selected_up_to_the_threshold() {
    assert_eq!(select_tactic(500, 500), Tactic::Expensive);
    assert_eq!(select_tactic(499, 500), Tactic::Expensive);
    assert_eq!(select_tactic(501, 500), Tactic::Cheap);
    assert_eq!(select_tactic(0, 0), Tactic::Expensive);
    assert_eq!(select_tactic(1, 0), Tactic::Cheap);
    assert_eq!(select_tactic(usize::MAX, usize::MAX), Tactic::Expensive);
}

#[test]
fn game_is_active_while_more_than_one_word_is_left() {
    assert_eq!(phase_of(0), Phase::Resolved);
    assert_eq!(phase_of(1), Phase::Resolved);
    assert_eq!(phase_of(2), Phase::Active);
    assert_eq!(phase_of(1000), Phase::Active);
}

#[test]
fn pool_holds_the_words_of_the_right_length() {
    let dictionary = words(&["dog", "apple", "dot", "", "grüße", "to", "tor", "étude"]);
    assert_eq!(restrict_to_length(&dictionary, 3), words(&["dog", "dot", "tor"]));
    assert_eq!(restrict_to_length(&dictionary, 5), words(&["apple", "grüße", "étude"]));
    assert_eq!(restrict_to_length(&dictionary, 7), Vec::<String>::new());
}

#[test]
fn pool_is_ranked_by_the_tactic_of_its_size() {
    let mut pool = words(&["tor", "dot", "dog"]);
    assert_eq!(rank_pool(&mut pool, &vec![0, 0, 0], 3), Tactic::Expensive);
    assert_eq!(pool, words(&["dot", "dog", "tor"]));
    let mut pool = words(&["tor", "dot", "dog"]);
    assert_eq!(rank_pool(&mut pool, &vec![1, 2, 3], 2), Tactic::Cheap);
    assert_eq!(pool, words(&["dog", "dot", "tor"]));
}

#[test]
fn proposals_prefer_words_with_distinct_letters() {
    let pool = words(&["goo", "dog", "odd", "dot", "tor"]);
    let proposal = suggest(&pool, 2);
    assert_eq!(proposal.shown, words(&["dog", "dot"]));
    assert_eq!(proposal.remaining, 5);
    assert!(proposal.truncated);
    assert_eq!(proposal.best, Some("dog".to_string()));
    let proposal = suggest(&pool, 10);
    assert_eq!(proposal.shown, words(&["dog", "dot", "tor"]));
    assert!(!proposal.truncated);
}

#[test]
fn proposals_fall_back_on_the_whole_pool() {
    let pool = words(&["goo", "odd", "ddd"]);
    let proposal = suggest(&pool, 5);
    assert_eq!(proposal.shown, pool);
    assert_eq!(proposal.best, Some("goo".to_string()));
    assert_eq!(proposal.remaining, 3);
    assert!(!proposal.truncated);
    let proposal = suggest(&pool, 3);
    assert!(!proposal.truncated);
    let proposal = suggest(&pool, 0);
    assert_eq!(proposal.shown, Vec::<String>::new());
    assert_eq!(proposal.best, Some("goo".to_string()));
    assert!(proposal.truncated);
}

#[test]
fn proposals_of_an_empty_pool_are_empty() {
    let proposal = suggest(&Vec::new(), 5);
    assert_eq!(proposal.shown, Vec::<String>::new());
    assert_eq!(proposal.best, None);
    assert_eq!(proposal.remaining, 0);
    assert!(!proposal.truncated);
}

#[test]
fn answer_filters_the_pool() {
    let pool = words(&["alter", "burnt", "event", "exist", "later", "quiet"]);
    let event = TurnEvent::Answered { guess: "alert".to_string(), feedback: "xx-x1".to_string() };
    match take_turn(&pool, &event) {
        TurnOutcome::Next { pool: next, state } => {
            assert_eq!(next, words(&["exist", "quiet"]));
            assert_eq!(state.to_string(), "[A][L][E][R][T]");
        }
        _ => panic!("the answer was not taken"),
    }
}

#[test]
fn answer_that_cannot_be_read_is_refused() {
    let pool = words(&["alter", "burnt"]);
    let event = TurnEvent::Answered { guess: "alert".to_string(), feedback: "xx-x".to_string() };
    assert!(matches!(take_turn(&pool, &event), TurnOutcome::Rejected(FeedbackError::WrongLength)));
    let event = TurnEvent::Answered { guess: "alert".to_string(), feedback: "xx-x?".to_string() };
    assert!(matches!(take_turn(&pool, &event), TurnOutcome::Rejected(FeedbackError::UnknownSymbol)));
}

#[test]
fn wish_to_leave_is_handed_on() {
    let pool = words(&["alter", "burnt"]);
    assert!(matches!(take_turn(&pool, &TurnEvent::Cancelled), TurnOutcome::Cancelled));
    assert!(matches!(take_turn(&pool, &TurnEvent::Aborted), TurnOutcome::Aborted));
}

#[test]
fn game_ends_with_one_word_or_none() {
    assert!(resolve(&words(&["a", "b"])).is_none());
    match resolve(&words(&["only"])) {
        Some(Resolution::Forced(word)) => assert_eq!(word, "only"),
        _ => panic!("one word is the solution"),
    }
    assert!(matches!(resolve(&Vec::new()), Some(Resolution::NoSolution)));
}

#[test]
fn contradicting_answers_leave_no_word() {
    let pool = words(&["dog", "dot"]);
    let event = TurnEvent::Answered { guess: "dog".to_string(), feedback: "xxx".to_string() };
    match take_turn(&pool, &event) {
        TurnOutcome::Next { pool: next, .. } => {
            assert!(next.is_empty());
            assert!(matches!(resolve(&next), Some(Resolution::NoSolution)));
        }
        _ => panic!("the answer was not taken"),
    }
}

#[test]
fn every_solution_is_found() {
    let dictionary = words(&[
        "crane", "slate", "trace", "crate", "react", "caret", "eerie", "geese", "apple", "dog",
        "ample", "maple", "plead", "pedal", "paled", "lapse", "pales", "leaps", "peals", "sepal",
        "hello", "jolly", "skill", "krill", "drill", "grill", "trill", "shill", "still", "spill",
    ]);
    for threshold in [0, 5, 100] {
        for solution in restrict_to_length(&dictionary, 5) {
            let mut pool = restrict_to_length(&dictionary, 5);
            let mut turns = 0;
            while phase_of(pool.len()) == Phase::Active {
                let entropy = entropy_of(&pool);
                let before = pool.len();
                let tactic = rank_pool(&mut pool, &entropy, threshold);
                assert_eq!(tactic, select_tactic(before, threshold));
                let guess = suggest(&pool, 3).best.unwrap();
                let feedback = code_of(&WordlState::from(&guess, &solution));
                match take_turn(&pool, &TurnEvent::Answered { guess, feedback }) {
                    TurnOutcome::Next { pool: next, .. } => {
                        assert!(next.len() <= pool.len());
                        assert!(next.contains(&solution));
                        pool = next;
                    }
                    _ => panic!("the answer was not taken"),
                }
                turns += 1;
                assert!(turns <= 29);
            }
            match resolve(&pool) {
                Some(Resolution::Forced(word)) => assert_eq!(word, solution),
                _ => panic!("the solution was lost"),
            }
        }
    }
}
