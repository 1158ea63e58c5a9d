use wordle::formatting::dedent_ignore_first_last;
use wordle::menu::{after_round, is_selected, MenuOption, MenuOptions, INDENT, ON_ERROR};
use wordle::response::ResponseState;

fn keys(list: &[&str]) -> Vec<String> {
    list.iter().map(|key| key.to_string()).collect()
}

fn main_menu() -> MenuOptions<u8> {
    MenuOptions::new(
        "Main menu".to_string(),
        ON_ERROR.to_string(),
        INDENT.to_string(),
        vec![
            MenuOption::new(Some(1), "Play the game".to_string(), keys(&["play"]), None, 1).unwrap(),
            MenuOption::new(Some(2), "Adjust game settings".to_string(), keys(&["settings"]), None, 2)
                .unwrap(),
            MenuOption::new(
                None,
                "Quit".to_string(),
                keys(&["q"]),
                Some(r"^(q|quit)$".to_string()),
                3,
            )
            .unwrap(),
        ],
    )
}

#[test]
fn option_is_selected_by_its_number_or_its_keys() {
    let option = MenuOption::new(Some(1), "Play the game".to_string(), keys(&["play", "p"]), None, 0)
        .unwrap();
    assert!(option.is_match(&"1".to_string()));
    assert!(option.is_match(&"play".to_string()));
    assert!(option.is_match(&"p".to_string()));
    assert!(!option.is_match(&"2".to_string()));
    assert!(!option.is_match(&"pla".to_string()));
    assert!(!option.is_match(&"01".to_string()));
    assert!(!option.is_match(&"".to_string()));
}

#[test]
fn option_with_a_pattern_is_not_selected_by_its_keys() {
    let option = MenuOption::new(
        Some(12),
        "Return".to_string(),
        keys(&["r", "back"]),
        Some(r"^(r|q|quit)$".to_string()),
        0,
    )
    .unwrap();
    assert!(option.is_match(&"r".to_string()));
    assert!(option.is_match(&"quit".to_string()));
    assert!(option.is_match(&"12".to_string()));
    assert!(!option.is_match(&"back".to_string()));
    assert!(!option.is_match(&"quit!".to_string()));
}

#[test]
fn option_without_anything_is_never_selected() {
    let option = MenuOption::new(None, "Nothing".to_string(), Vec::new(), None, 0).unwrap();
    assert!(!option.is_match(&"".to_string()));
    assert!(!option.is_match(&"0".to_string()));
    assert_eq!(option.to_string(), "Nothing");
}

#[test]
fn option_with_an_invalid_pattern_is_refused() {
    assert!(MenuOption::new(None, "Bad".to_string(), Vec::new(), Some("(".to_string()), 0).is_none());
}

#[test]
fn selection_is_decided_by_number_then_pattern_then_keys() {
    assert!(is_selected(true, None, false));
    assert!(is_selected(true, Some(false), false));
    assert!(is_selected(false, Some(true), false));
    assert!(!is_selected(false, Some(false), true));
    assert!(is_selected(false, None, true));
    assert!(!is_selected(false, None, false));
}

#[test]
fn option_is_shown_with_number_and_keys() {
    let option = MenuOption::new(Some(1), "Play the game".to_string(), keys(&["play"]), None, 0)
        .unwrap();
    assert_eq!(option.to_string(), "\x1b[1m1\x1b[0m) Play the game [\x1b[1mplay\x1b[0m]");
    let option = MenuOption::new(None, "Return".to_string(), keys(&["r", "q"]), None, 0).unwrap();
    assert_eq!(option.to_string(), "Return [\x1b[1mr/q\x1b[0m]");
    let option = MenuOption::new(Some(10), "Ten".to_string(), Vec::new(), None, 0).unwrap();
    assert_eq!(option.to_string(), "\x1b[1m10\x1b[0m) Ten");
}

#[test]
fn option_carries_its_action() {
    let option = MenuOption::new(None, "Quit".to_string(), Vec::new(), None, "leave").unwrap();
    assert_eq!(*option.action(), "leave");
}

#[test]
fn menu_finds_the_first_option_that_is_selected() {
    let menu = main_menu();
    assert_eq!(menu.len(), 3);
    assert_eq!(*menu.get_match(&"1".to_string()).unwrap().action(), 1);
    assert_eq!(*menu.get_match(&"settings".to_string()).unwrap().action(), 2);
    assert_eq!(*menu.get_match(&"quit".to_string()).unwrap().action(), 3);
    assert_eq!(*menu.get_match(&"q".to_string()).unwrap().action(), 3);
    assert!(menu.get_match(&"3".to_string()).is_none());
    assert!(menu.get_match(&"".to_string()).is_none());
    assert_eq!(*menu.item(1).action(), 2);
}

#[test]
fn menu_prefers_the_earlier_of_two_selected_options() {
    let menu = MenuOptions::new(
        "Twice".to_string(),
        ON_ERROR.to_string(),
        INDENT.to_string(),
        vec![
            MenuOption::new(Some(1), "a".to_string(), keys(&["x"]), None, 'a').unwrap(),
            MenuOption::new(Some(1), "b".to_string(), keys(&["x", "y"]), None, 'b').unwrap(),
        ],
    );
    assert_eq!(*menu.get_match(&"x".to_string()).unwrap().action(), 'a');
    assert_eq!(*menu.get_match(&"1".to_string()).unwrap().action(), 'a');
    assert_eq!(*menu.get_match(&"y".to_string()).unwrap().action(), 'b');
}

#[test]
fn menu_is_shown_line_by_line() {
    let menu = main_menu();
    assert_eq!(
        menu.to_string(),
        "Main menu\n\
         \n  \x1b[1m1\x1b[0m) Play the game [\x1b[1mplay\x1b[0m]\
         \n  \x1b[1m2\x1b[0m) Adjust game settings [\x1b[1msettings\x1b[0m]\
         \n  Quit [\x1b[1mq\x1b[0m]\
         \n\nEnter your selection >> "
    );
    assert_eq!(menu.error_text(), "[\x1b[91;1mERROR\x1b[0m] Invalid selection!");
    let empty: MenuOptions<u8> =
        MenuOptions::new("T".to_string(), String::new(), String::new(), Vec::new());
    assert_eq!(empty.to_string(), "T\n\n\nEnter your selection >> ");
}

#[test]
fn round_of_a_menu_ends_the_menu_or_not() {
    assert_eq!(after_round(ResponseState::CANCEL), Some(ResponseState::COMPLETED));
    assert_eq!(after_round(ResponseState::QUIT), Some(ResponseState::QUIT));
    assert_eq!(after_round(ResponseState::COMPLETED), None);
    assert_eq!(after_round(ResponseState::PENDING), None);
}

#[test]
fn template_of_a_screen_is_made_plain() {
    let plain = dedent_ignore_first_last(
        "
        * ----
        | {}
        |
        |   version: {}
        * ----
        {}
        ",
    )
    .unwrap();
    assert_eq!(plain, "* ----\n| {}\n|\n|   version: {}\n* ----\n{}");
}
