use wordle::config::{set_config, ConfigParams, ConfigSource};
use wordle::console::{ConsoleTextState, Echo, KeyPress};
use wordle::menus::{
    action_set_word_list_from_defaults, action_set_word_list_from_path, action_set_word_size,
    create_main_menu, create_settings_menu, parse_word_size, MainAction, SettingsAction,
};
use wordle::response::ResponseState;
use wordle::screens::{
    display_words, end_screen, feedback_request, invalid_feedback_message,
    invalid_guess_message, notes_line, start_screen,
};
use wordle::states::WordlState;
use wordle::utils::{chars_to_lowercase, read_from_embedded_file};

fn words(list: &[&str]) -> Vec<String> {
    list.iter().map(|word| word.to_string()).collect()
}

fn config() -> ConfigParams {
    let source = ConfigSource {
        title: Some("Wordle aid".to_string()),
        url: Some("https://example.org".to_string()),
        notes: Some("mind the gap".to_string()),
        paths: None,
        path_to_words: None,
        size_of_wordle: Some(5),
        max_display_length: None,
        max_length_for_best_optimisation: None,
        hard_mode: None,
    };
    set_config(&source, &"1.0.2".to_string())
}

#[test]
fn start_screen_names_title_version_and_address() {
    assert_eq!(
        start_screen(&config()).unwrap(),
        "* --------------------------------\n\
         | \x1b[92;1mWORDLE AID\x1b[0m\n\
         |\n\
         |   version: \x1b[1m1.0.2\x1b[0m\n\
         |   url:     \x1b[2;4mhttps://example.org\x1b[0m\n\
         * ----------------\n"
    );
}

#[test]
fn end_screen_names_title_version_and_address() {
    assert_eq!(
        end_screen(&config()).unwrap(),
        "Thank you for using\n\
         \n\
         * --------------------------------\n\
         | \x1b[92;1mWORDLE AID\x1b[0m\n\
         |\n\
         |   version: \x1b[1m1.0.2\x1b[0m\n\
         |   url:     \x1b[2;4mhttps://example.org\x1b[0m\n\
         * ----------------\n\
         \n\
         Terminating programme.\n"
    );
}

#[test]
fn notes_are_shown_if_there_are_any() {
    assert_eq!(notes_line(&config()).unwrap(), "\x1b[2mNOTE: mind the gap\x1b[0m");
    let mut silent = config();
    silent.notes = String::new();
    assert_eq!(notes_line(&silent), None);
}

#[test]
fn message_for_a_guess_names_the_length() {
    assert_eq!(
        invalid_guess_message(&config()).unwrap(),
        "[\x1b[91mERROR\x1b[0m] Invalid Guess!\n\
         \n\
         - Must consist of letters.\n\
         - Length of guess must be 5."
    );
}

#[test]
fn message_for_feedback_names_the_rules() {
    assert_eq!(
        invalid_feedback_message(&config()).unwrap(),
        "[\x1b[91mERROR\x1b[0m] Invalid Feedback option!\n\
         \n\
         - Format must only contain the symbols: 0, 1, -\n\
         - Length of feedback must match length of guess.\n\
         - Letters marked (correct|partially correct|incorrect) must be disjoint!"
    );
}

#[test]
fn request_for_feedback_shows_the_guess() {
    assert_eq!(
        feedback_request(&"alert".to_string()).unwrap(),
        "Enter the feedback to your input \x1b[1m[A][L][E][R][T]\x1b[0m\n  \
         \x1b[2mE.g. if it was                  \x1b[2;1mx  x  ~  x  \u{221a}\x1b[0m\n  \
         \x1b[2mthen enter \x1b[4;1mxx-x1\x1b[0m\x1b[2m.\x1b[0m\n\
         \n\
         >> "
    );
}

#[test]
fn proposed_words_are_listed_up_to_the_limit() {
    assert_eq!(
        display_words(&words(&["dog", "dot"]), 5, 1),
        words(&[
            "\n\x1b[4mCurrent best options (5 remaining):\x1b[0m\n",
            "  \x1b[2mdog\x1b[0m",
            "  ...",
        ])
    );
    assert_eq!(
        display_words(&words(&["dog", "dot"]), 2, 2),
        words(&[
            "\n\x1b[4mCurrent best options (2 remaining):\x1b[0m\n",
            "  \x1b[2mdog\x1b[0m",
            "  \x1b[2mdot\x1b[0m",
        ])
    );
    assert_eq!(
        display_words(&Vec::new(), 0, 0),
        words(&["\n\x1b[4mCurrent best options (0 remaining):\x1b[0m\n"])
    );
    assert_eq!(
        display_words(&words(&["dog"]), 12, 10),
        words(&[
            "\n\x1b[4mCurrent best options (12 remaining):\x1b[0m\n",
            "  \x1b[2mdog\x1b[0m",
            "  ...",
        ])
    );
}

#[test]
fn main_menu_has_three_options() {
    let menu = create_main_menu().unwrap();
    assert_eq!(menu.len(), 3);
    assert_eq!(*menu.get_match(&"1".to_string()).unwrap().action(), MainAction::Play);
    assert_eq!(*menu.get_match(&"play".to_string()).unwrap().action(), MainAction::Play);
    assert_eq!(*menu.get_match(&"2".to_string()).unwrap().action(), MainAction::Settings);
    assert_eq!(*menu.get_match(&"settings".to_string()).unwrap().action(), MainAction::Settings);
    assert_eq!(*menu.get_match(&"q".to_string()).unwrap().action(), MainAction::Quit);
    assert_eq!(*menu.get_match(&"quit".to_string()).unwrap().action(), MainAction::Quit);
    assert!(menu.get_match(&"3".to_string()).is_none());
    assert_eq!(
        menu.to_string(),
        "Main menu\n\
         \n  \x1b[1m1\x1b[0m) Play the game [\x1b[1mplay\x1b[0m]\
         \n  \x1b[1m2\x1b[0m) Adjust game settings [\x1b[1msettings\x1b[0m]\
         \n  Quit [\x1b[1mq\x1b[0m]\
         \n\nEnter your selection >> "
    );
}

#[test]
fn menu_of_settings_has_four_options() {
    let menu = create_settings_menu().unwrap();
    assert_eq!(menu.len(), 4);
    assert_eq!(*menu.get_match(&"1".to_string()).unwrap().action(), SettingsAction::WordSize);
    assert_eq!(
        *menu.get_match(&"2".to_string()).unwrap().action(),
        SettingsAction::WordListFromPath
    );
    assert_eq!(
        *menu.get_match(&"3".to_string()).unwrap().action(),
        SettingsAction::WordListFromDefaults
    );
    for entry in ["r", "q", "quit"] {
        assert_eq!(
            *menu.get_match(&entry.to_string()).unwrap().action(),
            SettingsAction::Return
        );
    }
    assert!(menu.get_match(&"4".to_string()).is_none());
    assert_eq!(
        menu.to_string(),
        "Game settings\n\
         \n  \x1b[1m1\x1b[0m) Set word-size\
         \n  \x1b[1m2\x1b[0m) Choose word list from path\
         \n  \x1b[1m3\x1b[0m) Choose word list from preset options\
         \n  Return [\x1b[1mr/q\x1b[0m]\
         \n\nEnter your selection >> "
    );
}

#[test]
fn word_size_is_a_number_above_zero() {
    assert_eq!(parse_word_size(&"5".to_string()), Some(5));
    assert_eq!(parse_word_size(&"+5".to_string()), Some(5));
    assert_eq!(parse_word_size(&"007".to_string()), Some(7));
    assert_eq!(parse_word_size(&"120".to_string()), Some(120));
    assert_eq!(parse_word_size(&"0".to_string()), None);
    assert_eq!(parse_word_size(&"+0".to_string()), None);
    assert_eq!(parse_word_size(&"".to_string()), None);
    assert_eq!(parse_word_size(&"+".to_string()), None);
    assert_eq!(parse_word_size(&"-5".to_string()), None);
    assert_eq!(parse_word_size(&"5a".to_string()), None);
    assert_eq!(parse_word_size(&" 5".to_string()), None);
    assert_eq!(parse_word_size(&"++5".to_string()), None);
    assert_eq!(parse_word_size(&"99999999999999999999999".to_string()), None);
    assert_eq!(parse_word_size(&usize::MAX.to_string()), Some(usize::MAX));
}

#[test]
fn word_size_is_read_as_the_standard_library_reads_it() {
    let mut entries: Vec<String> = (0..300).map(|n| n.to_string()).collect();
    for text in ["18446744073709551615", "18446744073709551616", "18446744073709551625",
        "184467440737095516150", "+18446744073709551615", "000000000000000000000001", "1_0",
        "٣", "1.0", "1e3", "0x10", "+-1"]
    {
        entries.push(text.to_string());
    }
    for entry in entries {
        let expected = match entry.parse::<usize>() {
            Ok(n) if n > 0 => Some(n),
            _ => None,
        };
        assert_eq!(parse_word_size(&entry), expected, "{}", entry);
    }
}

#[test]
fn word_size_is_set_unless_the_player_leaves() {
    let mut settings = config();
    assert_eq!(
        action_set_word_size(&mut settings, ResponseState::COMPLETED, Some(7)),
        ResponseState::COMPLETED
    );
    assert_eq!(settings.size_of_wordle, 7);
    assert_eq!(
        action_set_word_size(&mut settings, ResponseState::CANCEL, None),
        ResponseState::COMPLETED
    );
    assert_eq!(settings.size_of_wordle, 7);
    assert_eq!(
        action_set_word_size(&mut settings, ResponseState::QUIT, Some(3)),
        ResponseState::QUIT
    );
    assert_eq!(settings.size_of_wordle, 7);
}

#[test]
fn word_list_is_set_unless_the_player_leaves() {
    let mut settings = config();
    assert_eq!(
        action_set_word_list_from_path(
            &mut settings,
            ResponseState::COMPLETED,
            Some("list.txt".to_string())
        ),
        ResponseState::COMPLETED
    );
    assert_eq!(settings.path_to_words, "list.txt");
    assert_eq!(
        action_set_word_list_from_path(&mut settings, ResponseState::QUIT, None),
        ResponseState::QUIT
    );
    assert_eq!(
        action_set_word_list_from_path(&mut settings, ResponseState::CANCEL, None),
        ResponseState::COMPLETED
    );
    assert_eq!(settings.path_to_words, "list.txt");
    assert_eq!(action_set_word_list_from_defaults(&mut settings), ResponseState::COMPLETED);
    assert_eq!(settings.path_to_words, "list.txt");
}

#[test]
fn keys_edit_the_line() {
    let mut line = ConsoleTextState::new();
    for symbol in "helo".chars() {
        let outcome = line.press(KeyPress::Char(symbol));
        assert!(!outcome.finished);
        match outcome.echo {
            Echo::Typed { symbol: typed, tail } => {
                assert_eq!(typed, symbol);
                assert_eq!(tail, "");
            }
            _ => panic!("a typed letter is shown"),
        }
    }
    assert!(matches!(line.press(KeyPress::Left).echo, Echo::MoveLeft));
    match line.press(KeyPress::Char('l')).echo {
        Echo::Typed { symbol, tail } => {
            assert_eq!(symbol, 'l');
            assert_eq!(tail, "o");
        }
        _ => panic!("a typed letter is shown"),
    }
    assert_eq!(line.to_string(), "hello");
    assert!(matches!(line.press(KeyPress::Right).echo, Echo::MoveRight));
    assert!(matches!(line.press(KeyPress::Right).echo, Echo::Nothing));
    assert!(matches!(line.press(KeyPress::Other).echo, Echo::Nothing));
    line.press(KeyPress::Left);
    line.press(KeyPress::Left);
    match line.press(KeyPress::Backspace).echo {
        Echo::Deleted { tail } => assert_eq!(tail, "lo"),
        _ => panic!("a deleted letter is shown"),
    }
    assert_eq!(line.to_string(), "helo");
    for _ in 0..5 {
        line.press(KeyPress::Left);
    }
    assert!(matches!(line.press(KeyPress::Left).echo, Echo::Nothing));
    assert!(matches!(line.press(KeyPress::Backspace).echo, Echo::Nothing));
    let outcome = line.press(KeyPress::Enter);
    assert!(outcome.finished);
    let answer = line.response();
    assert_eq!(answer.state, "helo");
    assert!(!answer.cancel);
    assert!(!answer.quit);
}

#[test]
fn keys_to_leave_empty_the_line() {
    let mut line = ConsoleTextState::new();
    line.press(KeyPress::Char('a'));
    assert!(line.press(KeyPress::Interrupt).finished);
    let answer = line.response();
    assert_eq!(answer.state, "");
    assert!(answer.quit);
    assert!(!answer.cancel);
    let mut line = ConsoleTextState::new();
    line.press(KeyPress::Char('a'));
    assert!(line.press(KeyPress::EndOfInput).finished);
    let answer = line.response();
    assert_eq!(answer.state, "");
    assert!(!answer.quit);
    assert!(answer.cancel);
}

#[test]
fn guess_is_correct_if_every_letter_is_exact() {
    assert!(WordlState::from("crane", "crane").is_correct());
    assert!(WordlState::new("ab", "11").is_correct());
    assert!(!WordlState::from("crane", "crate").is_correct());
    assert!(!WordlState::new("ab", "1-").is_correct());
    assert!(!WordlState::empty().is_correct());
}

#[test]
fn chars_to_lowercase_gives_upper_case() {
    assert_eq!(chars_to_lowercase(words(&["a", "B", "cd"])), words(&["A", "B", "CD"]));
}

#[test]
fn bytes_are_read_as_text_if_they_are_utf8() {
    assert_eq!(read_from_embedded_file(&"grüße\n".as_bytes().to_vec()), Some("grüße\n".to_string()));
    assert_eq!(read_from_embedded_file(&Vec::new()), Some(String::new()));
    assert_eq!(read_from_embedded_file(&vec![0xff, 0xfe]), None);
    assert_eq!(read_from_embedded_file(&vec![0xc3]), None);
}
