use wordle::console::{ConsoleResponse, ConsoleTextState};
use wordle::response::ResponseState;

#[test]
fn line_is_edited_at_the_cursor() {
    let mut response = ConsoleTextState::new();
    assert_eq!(response.cancel, false);
    assert_eq!(response.quit, false);
    response.insert("this iz");
    response.insert(" ");
    response.insert("a");
    response.insert(" ");
    response.insert("text");
    assert_eq!(response.to_string(), "this iz a text");
    response.move_left(7);
    response.delete();
    assert_eq!(response.to_string(), "this i a text");
    response.insert("s");
    assert_eq!(response.to_string(), "this is a text");
    response.move_right(2);
    response.delete();
    response.insert("some");
    assert_eq!(response.to_string(), "this is some text");
}

#[test]
fn new_line_is_empty() {
    let line = ConsoleTextState::new();
    assert_eq!(line.len(), 0);
    assert_eq!(line.to_string(), "");
    assert_eq!(line.split(), (String::new(), String::new()));
    assert_eq!(line.split_three(), (String::new(), String::new(), String::new()));
}

#[test]
fn split_parts_the_line_at_the_cursor() {
    let mut line = ConsoleTextState::new();
    line.insert("hello");
    assert_eq!(line.split(), (String::from("hello"), String::new()));
    line.move_left(2);
    assert_eq!(line.split(), (String::from("hel"), String::from("lo")));
    assert_eq!(
        line.split_three(),
        (String::from("hel"), String::from("l"), String::from("o"))
    );
    line.move_left(10);
    assert_eq!(line.split(), (String::new(), String::from("hello")));
    assert_eq!(
        line.split_three(),
        (String::new(), String::from("h"), String::from("ello"))
    );
}

#[test]
fn cursor_stops_at_the_ends_of_the_line() {
    let mut line = ConsoleTextState::new();
    assert!(!line.move_left(1));
    assert!(!line.move_right(1));
    line.insert("ab");
    assert!(!line.move_right(1));
    assert!(!line.move_left(0));
    assert!(line.move_left(5));
    assert!(!line.move_left(1));
    assert!(!line.move_right(0));
    assert!(line.move_right(1));
    assert_eq!(line.split(), (String::from("a"), String::from("b")));
    assert!(line.move_right(7));
    assert_eq!(line.split(), (String::from("ab"), String::new()));
}

#[test]
fn delete_takes_the_letter_before_the_cursor() {
    let mut line = ConsoleTextState::new();
    assert!(!line.delete());
    line.insert("abc");
    assert!(line.delete());
    assert_eq!(line.to_string(), "ab");
    line.move_left(2);
    assert!(!line.delete());
    assert_eq!(line.to_string(), "ab");
    assert_eq!(line.len(), 2);
}

#[test]
fn delete_ahead_takes_the_letter_under_the_cursor() {
    let mut line = ConsoleTextState::new();
    assert!(!line.delete_ahead());
    line.insert("abc");
    assert!(!line.delete_ahead());
    line.move_left(2);
    assert!(line.delete_ahead());
    assert_eq!(line.to_string(), "ac");
    assert_eq!(line.split(), (String::from("a"), String::from("c")));
}

#[test]
fn insert_keeps_letters_outside_ascii() {
    let mut line = ConsoleTextState::new();
    line.insert("grüße");
    assert_eq!(line.len(), 5);
    line.move_left(3);
    line.insert("-");
    assert_eq!(line.to_string(), "gr-üße");
}

#[test]
fn console_response_carries_its_parts() {
    let response = ConsoleResponse { state: String::from("x"), cancel: true, quit: false };
    assert_eq!(response.state, "x");
    assert!(response.cancel);
    assert!(!response.quit);
}

#[test]
fn response_state_knows_its_kind() {
    assert!(ResponseState::CANCEL.is_cancel());
    assert!(!ResponseState::QUIT.is_cancel());
    assert!(ResponseState::QUIT.is_quit());
    assert!(!ResponseState::COMPLETED.is_quit());
    assert!(ResponseState::COMPLETED.is_completed());
    assert!(!ResponseState::PENDING.is_completed());
    assert!(ResponseState::CANCEL.is_cancel_or_quit());
    assert!(ResponseState::QUIT.is_cancel_or_quit());
    assert!(!ResponseState::PENDING.is_cancel_or_quit());
    assert!(!ResponseState::COMPLETED.is_cancel_or_quit());
}
