//! The texts that the program shows: its title screens, its messages, the
//! request for feedback, and the list of proposed words. Showing them is
//! left to the caller.

use vstd::prelude::*;
use crate::config::ConfigParams;
use crate::display::{display_word, word_blocks};
use crate::formatting::{
    dedent_ignore_first_last, fill, filled, plain_template, to_uppercase, uppercased,
    FIRST_AND_LAST,
};
use crate::patterns::regex_valid;
use crate::states::joined;
use crate::texts::{append_decimal, decimal, decimal_string};
use crate::utils::texts;

verus! {

/// The template of the screen that opens the program.
pub const START_SCREEN: &'static str = "
        * --------------------------------
        | \x1b[92;1m{}\x1b[0m
        |
        |   version: \x1b[1m{}\x1b[0m
        |   url:     \x1b[2;4m{}\x1b[0m
        * ----------------
        {}
        ";

/// The template of the screen that closes the program.
pub const END_SCREEN: &'static str = "
        Thank you for using

        * --------------------------------
        | \x1b[92;1m{}\x1b[0m
        |
        |   version: \x1b[1m{}\x1b[0m
        |   url:     \x1b[2;4m{}\x1b[0m
        * ----------------

        Terminating programme.
        {}
        ";

/// The template of the message for a guess that cannot be used.
pub const INVALID_GUESS: &'static str = "
            [\x1b[91mERROR\x1b[0m] Invalid Guess!

            - Must consist of letters.
            - Length of guess must be {}.
            ";

/// The template of the message for feedback that cannot be used.
pub const INVALID_FEEDBACK: &'static str = "
            [\x1b[91mERROR\x1b[0m] Invalid Feedback option!

            - Format must only contain the symbols: 0, 1, -
            - Length of feedback must match length of guess.
            - Letters marked (correct|partially correct|incorrect) must be disjoint!
            ";

/// The template of the request for the feedback to a guess.
pub const FEEDBACK_REQUEST: &'static str = "

        Enter the feedback to your input \x1b[1m{}\x1b[0m
          \x1b[2mE.g. if it was                  \x1b[2;1mx  x  ~  x  \u{221a}\x1b[0m
          \x1b[2mthen enter \x1b[4;1mxx-x1\x1b[0m\x1b[2m.\x1b[0m

        {}";

/// What the request for an answer ends with.
pub const ANSWER_MARK: &'static str = ">> ";

/// What the line that shows the notes begins with.
pub const NOTES_OPEN: &'static str = "\x1b[2mNOTE: ";

/// What switches the style of a line back.
pub const STYLE_CLOSE: &'static str = "\x1b[0m";

/// What the heading of the list of proposed words begins with.
pub const HEADING_OPEN: &'static str = "\n\x1b[4mCurrent best options (";

/// What the heading of the list of proposed words ends with.
pub const HEADING_CLOSE: &'static str = " remaining):\x1b[0m\n";

/// What the line of a proposed word begins with.
pub const WORD_OPEN: &'static str = "  \x1b[2m";

/// The line that stands for the words that are not shown.
pub const MORE_WORDS: &'static str = "  ...";

/// What the templates of the title screens are filled with: the title in
/// upper case, the version, the address, and nothing for the last line.
pub open spec fn title_args(config: ConfigParams) -> Seq<Seq<char>> {
    seq![uppercased(config.title@), config.version@, config.url@, Seq::<char>::empty()]
}

fn title_screen(template: &str, config: &ConfigParams) -> (text: Option<String>)
    ensures
        text is Some <==> regex_valid(FIRST_AND_LAST@),
        text is Some ==> text->0@ == filled(plain_template(template@), title_args(*config)),
{
    let plain = match dedent_ignore_first_last(template) {
        Some(plain) => plain,
        None => {
            return None;
        },
    };
    let mut args: Vec<String> = Vec::new();
    args.push(to_uppercase(config.title.as_str()));
    args.push(config.version.clone());
    args.push(config.url.clone());
    args.push(String::new());
    proof {
        let given = texts(args@);
        let wanted = title_args(*config);
        assert(given.len() == 4 && wanted.len() == 4);
        assert(given[0] == wanted[0]);
        assert(given[1] == wanted[1]);
        assert(given[2] == wanted[2]);
        assert(given[3] == wanted[3]);
        assert(given =~= wanted);
    }
    Some(fill(plain.as_str(), &args))
}

/// The screen that opens the program. There is none if the pattern that
/// makes the template plain does not compile.
pub fn start_screen(config: &ConfigParams) -> (text: Option<String>)
    ensures
        text is Some <==> regex_valid(FIRST_AND_LAST@),
        text is Some ==> text->0@ == filled(plain_template(START_SCREEN@), title_args(*config)),
{
    title_screen(START_SCREEN, config)
}

/// The screen that closes the program. There is none if the pattern that
/// makes the template plain does not compile.
pub fn end_screen(config: &ConfigParams) -> (text: Option<String>)
    ensures
        text is Some <==> regex_valid(FIRST_AND_LAST@),
        text is Some ==> text->0@ == filled(plain_template(END_SCREEN@), title_args(*config)),
{
    title_screen(END_SCREEN, config)
}

/// The line that shows the notes, if there are any.
pub fn notes_line(config: &ConfigParams) -> (text: Option<String>)
    ensures
        text is Some <==> config.notes@.len() > 0,
        text is Some ==> text->0@ == NOTES_OPEN@ + config.notes@ + STYLE_CLOSE@,
{
    if config.notes.as_str().unicode_len() == 0 {
        return None;
    }
    let mut text = String::from_str(NOTES_OPEN);
    text.append(config.notes.as_str());
    text.append(STYLE_CLOSE);
    Some(text)
}

fn size_message(template: &str, size: usize) -> (text: Option<String>)
    ensures
        text is Some <==> regex_valid(FIRST_AND_LAST@),
        text is Some ==> text->0@ == filled(plain_template(template@), seq![decimal(size as nat)]),
{
    let plain = match dedent_ignore_first_last(template) {
        Some(plain) => plain,
        None => {
            return None;
        },
    };
    let mut args: Vec<String> = Vec::new();
    args.push(decimal_string(size));
    assert(texts(args@) =~= seq![decimal(size as nat)]);
    Some(fill(plain.as_str(), &args))
}

/// The message for a guess that cannot be used. It names the number of
/// letters that a guess must have.
pub fn invalid_guess_message(config: &ConfigParams) -> (text: Option<String>)
    ensures
        text is Some <==> regex_valid(FIRST_AND_LAST@),
        text is Some ==> text->0@ == filled(
            plain_template(INVALID_GUESS@),
            seq![decimal(config.size_of_wordle as nat)],
        ),
{
    size_message(INVALID_GUESS, config.size_of_wordle)
}

/// The message for feedback that cannot be used.
pub fn invalid_feedback_message(config: &ConfigParams) -> (text: Option<String>)
    ensures
        text is Some <==> regex_valid(FIRST_AND_LAST@),
        text is Some ==> text->0@ == filled(
            plain_template(INVALID_FEEDBACK@),
            seq![decimal(config.size_of_wordle as nat)],
        ),
{
    size_message(INVALID_FEEDBACK, config.size_of_wordle)
}

/// The request for the feedback to a guess. It shows the guess letter by
/// letter.
pub fn feedback_request(guess: &String) -> (text: Option<String>)
    ensures
        text is Some <==> regex_valid(FIRST_AND_LAST@),
        text is Some ==> text->0@ == filled(
            plain_template(FEEDBACK_REQUEST@),
            seq![joined(word_blocks(guess@)), ANSWER_MARK@],
        ),
{
    let plain = match dedent_ignore_first_last(FEEDBACK_REQUEST) {
        Some(plain) => plain,
        None => {
            return None;
        },
    };
    let mut args: Vec<String> = Vec::new();
    args.push(display_word(guess));
    args.push(String::from_str(ANSWER_MARK));
    proof {
        let given = texts(args@);
        let wanted = seq![joined(word_blocks(guess@)), ANSWER_MARK@];
        assert(given.len() == 2 && wanted.len() == 2);
        assert(given[0] == wanted[0]);
        assert(given[1] == wanted[1]);
        assert(given =~= wanted);
    }
    Some(fill(plain.as_str(), &args))
}

/// The line of a proposed word.
pub open spec fn word_line(word: Seq<char>) -> Seq<char> {
    WORD_OPEN@ + word + STYLE_CLOSE@
}

/// The lines for the first `n` words of a list.
pub open spec fn word_lines(words: Seq<String>, n: int) -> Seq<Seq<char>>
    decreases n,
{
    if n <= 0 {
        Seq::empty()
    } else {
        word_lines(words, n - 1).push(word_line(words[n - 1]@))
    }
}

/// The heading of the list of proposed words: it names the number of words
/// that are still possible.
pub open spec fn words_heading(n_remaining: nat) -> Seq<char> {
    HEADING_OPEN@ + decimal(n_remaining) + HEADING_CLOSE@
}

/// The lines that show the proposed words: a heading with the number of
/// words that are still possible, a line for each proposed word up to
/// `max_length` of them, and a last line of dots if more words are still
/// possible than `max_length`.
pub fn display_words(words: &Vec<String>, n_remaining: usize, max_length: usize) -> (lines: Vec<
    String,
>)
    ensures
        texts(lines@) == seq![words_heading(n_remaining as nat)] + word_lines(
            words@,
            if words@.len() <= max_length {
                words@.len() as int
            } else {
                max_length as int
            },
        ) + if n_remaining > max_length {
            seq![MORE_WORDS@]
        } else {
            Seq::<Seq<char>>::empty()
        },
{
    let mut lines: Vec<String> = Vec::new();
    let mut heading_line = String::from_str(HEADING_OPEN);
    append_decimal(&mut heading_line, n_remaining);
    heading_line.append(HEADING_CLOSE);
    lines.push(heading_line);
    let ghost heading = seq![words_heading(n_remaining as nat)];
    assert(texts(lines@) =~= heading + word_lines(words@, 0));
    let m: usize = if words.len() <= max_length {
        words.len()
    } else {
        max_length
    };
    let mut index: usize = 0;
    while index < m
        invariant
            m <= words@.len(),
            index <= m,
            texts(lines@) == heading + word_lines(words@, index as int),
        decreases m - index,
    {
        let mut line = String::from_str(WORD_OPEN);
        line.append(words[index].as_str());
        line.append(STYLE_CLOSE);
        let ghost before = texts(lines@);
        lines.push(line);
        assert(texts(lines@) =~= before.push(word_line(words@[index as int]@)));
        index = index + 1;
    }
    if n_remaining > max_length {
        let ghost before = texts(lines@);
        lines.push(String::from_str(MORE_WORDS));
        assert(texts(lines@) =~= before + seq![MORE_WORDS@]);
    } else {
        assert(texts(lines@) =~= texts(lines@) + Seq::<Seq<char>>::empty());
    }
    lines
}

} // verus!
