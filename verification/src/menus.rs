//! The menus of the program, and what follows from the player's answers in
//! the menu of settings. An option stands for an action by name; the caller
//! carries the action out.

use vstd::prelude::*;
use crate::config::ConfigParams;
use crate::letters::letters_of;
use crate::menu::{MenuOption, MenuOptions, INDENT, ON_ERROR};
use crate::patterns::{compiled, regex_valid};
use crate::response::ResponseState;
use crate::utils::texts;

verus! {

/// What the options of the main menu stand for.
#[derive(Clone, Copy, Debug, PartialEq, Eq, Structural)]
pub enum MainAction {
    /// A game is played.
    Play,
    /// The menu of settings is shown.
    Settings,
    /// The program ends.
    Quit,
}

/// What the options of the menu of settings stand for.
#[derive(Clone, Copy, Debug, PartialEq, Eq, Structural)]
pub enum SettingsAction {
    /// The number of letters of the solution is set.
    WordSize,
    /// The list of words is read from a file that the player names.
    WordListFromPath,
    /// The list of words is chosen from the lists that the settings name.
    WordListFromDefaults,
    /// The menu is left.
    Return,
}

/// The title of the main menu.
pub const MAIN_TITLE: &'static str = "Main menu";

/// The title of the menu of settings.
pub const SETTINGS_TITLE: &'static str = "Game settings";

/// The pattern of the answers that end the program.
pub const QUIT_PATTERN: &'static str = r"^(q|quit)$";

/// The pattern of the answers that leave the menu of settings.
pub const RETURN_PATTERN: &'static str = r"^(r|q|quit)$";

/// Whether an option of a menu is as described.
pub open spec fn option_is<A>(
    option: MenuOption<A>,
    index: Option<usize>,
    display: Seq<char>,
    keys: Seq<Seq<char>>,
    pattern: Option<Seq<char>>,
    action: A,
) -> bool {
    &&& option.index() == index
    &&& option.display() == display
    &&& option.keys() == keys
    &&& option.matcher() == match pattern {
        Some(p) => compiled(p),
        None => None,
    }
    &&& option.action_spec() == action
}

fn plain_option<A>(index: usize, display: &str, keys: Vec<String>, action: A) -> (option:
    MenuOption<A>)
    ensures
        option_is(option, Some(index), display@, texts(keys@), None, action),
{
    MenuOption::new(Some(index), String::from_str(display), keys, None, action).unwrap()
}

fn one_key(key: &str) -> (keys: Vec<String>)
    ensures
        texts(keys@) == seq![key@],
{
    let mut keys: Vec<String> = Vec::new();
    keys.push(String::from_str(key));
    assert(texts(keys@) =~= seq![key@]);
    keys
}

/// The main menu: play the game, adjust the settings, or quit. There is no
/// menu if the pattern of the last option does not compile.
pub fn create_main_menu() -> (menu: Option<MenuOptions<MainAction>>)
    ensures
        menu is Some <==> regex_valid(QUIT_PATTERN@),
        menu is Some ==> {
            let menu = menu->0;
            &&& menu.title() == MAIN_TITLE@
            &&& menu.on_error() == ON_ERROR@
            &&& menu.indent() == INDENT@
            &&& menu.options().len() == 3
            &&& option_is(
                menu.options()[0],
                Some(1),
                "Play the game"@,
                seq!["play"@],
                None,
                MainAction::Play,
            )
            &&& option_is(
                menu.options()[1],
                Some(2),
                "Adjust game settings"@,
                seq!["settings"@],
                None,
                MainAction::Settings,
            )
            &&& option_is(
                menu.options()[2],
                None,
                "Quit"@,
                seq!["q"@],
                Some(QUIT_PATTERN@),
                MainAction::Quit,
            )
        },
{
    let quit = match MenuOption::new(
        None,
        String::from_str("Quit"),
        one_key("q"),
        Some(String::from_str(QUIT_PATTERN)),
        MainAction::Quit,
    ) {
        Some(option) => option,
        None => {
            return None;
        },
    };
    let mut options: Vec<MenuOption<MainAction>> = Vec::new();
    options.push(plain_option(1, "Play the game", one_key("play"), MainAction::Play));
    options.push(plain_option(2, "Adjust game settings", one_key("settings"), MainAction::Settings));
    options.push(quit);
    Some(
        MenuOptions::new(
            String::from_str(MAIN_TITLE),
            String::from_str(ON_ERROR),
            String::from_str(INDENT),
            options,
        ),
    )
}

/// The menu of settings: set the number of letters, choose the list of
/// words from a file or from the lists that the settings name, or return.
/// There is no menu if the pattern of the last option does not compile.
pub fn create_settings_menu() -> (menu: Option<MenuOptions<SettingsAction>>)
    ensures
        menu is Some <==> regex_valid(RETURN_PATTERN@),
        menu is Some ==> {
            let menu = menu->0;
            &&& menu.title() == SETTINGS_TITLE@
            &&& menu.on_error() == ON_ERROR@
            &&& menu.indent() == INDENT@
            &&& menu.options().len() == 4
            &&& option_is(
                menu.options()[0],
                Some(1),
                "Set word-size"@,
                Seq::<Seq<char>>::empty(),
                None,
                SettingsAction::WordSize,
            )
            &&& option_is(
                menu.options()[1],
                Some(2),
                "Choose word list from path"@,
                Seq::<Seq<char>>::empty(),
                None,
                SettingsAction::WordListFromPath,
            )
            &&& option_is(
                menu.options()[2],
                Some(3),
                "Choose word list from preset options"@,
                Seq::<Seq<char>>::empty(),
                None,
                SettingsAction::WordListFromDefaults,
            )
            &&& option_is(
                menu.options()[3],
                None,
                "Return"@,
                seq!["r"@, "q"@],
                Some(RETURN_PATTERN@),
                SettingsAction::Return,
            )
        },
{
    let mut keys: Vec<String> = Vec::new();
    keys.push(String::from_str("r"));
    keys.push(String::from_str("q"));
    assert(texts(keys@) =~= seq!["r"@, "q"@]);
    let back = match MenuOption::new(
        None,
        String::from_str("Return"),
        keys,
        Some(String::from_str(RETURN_PATTERN)),
        SettingsAction::Return,
    ) {
        Some(option) => option,
        None => {
            return None;
        },
    };
    let mut options: Vec<MenuOption<SettingsAction>> = Vec::new();
    options.push(plain_option(1, "Set word-size", no_keys(), SettingsAction::WordSize));
    options.push(
        plain_option(2, "Choose word list from path", no_keys(), SettingsAction::WordListFromPath),
    );
    options.push(
        plain_option(
            3,
            "Choose word list from preset options",
            no_keys(),
            SettingsAction::WordListFromDefaults,
        ),
    );
    options.push(back);
    Some(
        MenuOptions::new(
            String::from_str(SETTINGS_TITLE),
            String::from_str(ON_ERROR),
            String::from_str(INDENT),
            options,
        ),
    )
}

fn no_keys() -> (keys: Vec<String>)
    ensures
        texts(keys@) == Seq::<Seq<char>>::empty(),
{
    let keys: Vec<String> = Vec::new();
    assert(texts(keys@) =~= Seq::<Seq<char>>::empty());
    keys
}

/// Whether a character is a decimal digit.
pub open spec fn is_digit(c: char) -> bool {
    '0' <= c && c <= '9'
}

/// The number that decimal digits stand for.
pub open spec fn digits_value(digits: Seq<char>) -> nat
    decreases digits.len(),
{
    if digits.len() == 0 {
        0
    } else {
        digits_value(digits.drop_last()) * 10 + (digits.last() as nat - 48) as nat
    }
}

/// The digits of an entry: the entry without a plus sign at its start.
pub open spec fn entry_digits(entry: Seq<char>) -> Seq<char> {
    if entry.len() > 0 && entry[0] == '+' {
        entry.drop_first()
    } else {
        entry
    }
}

/// The word size that an entry stands for: a number above zero that fits in
/// a `usize`, written in decimal digits, with or without a plus sign.
pub open spec fn entered_size(entry: Seq<char>) -> Option<usize> {
    let digits = entry_digits(entry);
    if digits.len() > 0 && (forall|i: int| 0 <= i < digits.len() ==> is_digit(#[trigger] digits[i]))
        && 0 < digits_value(digits) <= usize::MAX {
        Some(digits_value(digits) as usize)
    } else {
        None
    }
}

/// The value of digits is at least the value of the digits that they start
/// with.
proof fn lemma_digits_value_grows(digits: Seq<char>, n: int)
    requires
        0 <= n <= digits.len(),
        forall|i: int| 0 <= i < digits.len() ==> is_digit(#[trigger] digits[i]),
    ensures
        digits_value(digits.take(n)) <= digits_value(digits),
    decreases digits.len() - n,
{
    if n < digits.len() {
        lemma_digits_value_grows(digits, n + 1);
        assert(digits.take(n + 1).drop_last() =~= digits.take(n));
        assert(digits.take(n + 1).last() == digits[n]);
    } else {
        assert(digits.take(n) =~= digits);
    }
}

/// Reads the word size that the player entered: a number above zero.
pub fn parse_word_size(entry: &String) -> (size: Option<usize>)
    ensures
        size == entered_size(entry@),
{
    let letters = letters_of(entry.as_str());
    let n: usize = letters.len();
    let start: usize = if n > 0 && letters[0] == '+' {
        1
    } else {
        0
    };
    let ghost digits = entry_digits(entry@);
    assert(digits =~= letters@.subrange(start as int, n as int));
    if start == n {
        return None;
    }
    let mut value: usize = 0;
    let mut i: usize = start;
    assert(digits.take(0) =~= Seq::<char>::empty());
    while i < n
        invariant
            n == letters@.len(),
            start <= i <= n,
            digits == letters@.subrange(start as int, n as int),
            digits == entry_digits(entry@),
            start < n,
            forall|k: int| 0 <= k < i - start ==> is_digit(#[trigger] digits[k]),
            value == digits_value(digits.take(i - start)),
        decreases n - i,
    {
        let c: char = letters[i];
        if c < '0' || c > '9' {
            assert(!is_digit(digits[i - start]));
            return None;
        }
        let d: usize = (c as u8 - 48) as usize;
        proof {
            let next = digits.take(i - start + 1);
            assert(next.drop_last() =~= digits.take(i - start));
            assert(next.last() == c);
        }
        if value > (usize::MAX - d) / 10 {
            proof {
                assert(digits_value(digits.take(i - start + 1)) == value * 10 + d);
                assert(value * 10 + d > usize::MAX);
                if forall|k: int| 0 <= k < digits.len() ==> is_digit(#[trigger] digits[k]) {
                    lemma_digits_value_grows(digits, i - start + 1);
                }
            }
            return None;
        }
        value = value * 10 + d;
        i = i + 1;
    }
    assert(digits.take(n - start) =~= digits);
    if value > 0 {
        Some(value)
    } else {
        None
    }
}

/// What follows from the player's answer to the request for a word size: a
/// wish to leave the program is handed on; a wish to leave the request
/// changes nothing; else the size that was read is set.
pub fn action_set_word_size(config: &mut ConfigParams, state: ResponseState, value: Option<usize>) -> (end:
    ResponseState)
    requires
        !(state == ResponseState::QUIT || state == ResponseState::CANCEL) ==> value is Some,
    ensures
        end == if state == ResponseState::QUIT {
            ResponseState::QUIT
        } else {
            ResponseState::COMPLETED
        },
        *final(config) == if state == ResponseState::QUIT || state == ResponseState::CANCEL {
            *old(config)
        } else {
            ConfigParams { size_of_wordle: value->0, ..*old(config) }
        },
{
    if state.is_quit() {
        state
    } else if state.is_cancel() {
        ResponseState::COMPLETED
    } else {
        config.size_of_wordle = value.unwrap();
        ResponseState::COMPLETED
    }
}

/// What follows from the player's answer to the request for a list of
/// words: a wish to leave the program is handed on; a wish to leave the
/// request changes nothing; else the file that was named is set.
pub fn action_set_word_list_from_path(
    config: &mut ConfigParams,
    state: ResponseState,
    value: Option<String>,
) -> (end: ResponseState)
    requires
        !(state == ResponseState::QUIT || state == ResponseState::CANCEL) ==> value is Some,
    ensures
        end == if state == ResponseState::QUIT {
            ResponseState::QUIT
        } else {
            ResponseState::COMPLETED
        },
        *final(config) == if state == ResponseState::QUIT || state == ResponseState::CANCEL {
            *old(config)
        } else {
            ConfigParams { path_to_words: value->0, ..*old(config) }
        },
{
    if state.is_quit() {
        state
    } else if state.is_cancel() {
        ResponseState::COMPLETED
    } else {
        config.path_to_words = value.unwrap();
        ResponseState::COMPLETED
    }
}

/// The choice among the lists that the settings name: it changes nothing.
pub fn action_set_word_list_from_defaults(config: &mut ConfigParams) -> (end: ResponseState)
    ensures
        end == ResponseState::COMPLETED,
        *final(config) == *old(config),
{
    ResponseState::COMPLETED
}

} // verus!
