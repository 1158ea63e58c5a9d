use wordle::config::{get_version, set_config, ConfigParams, ConfigSource};
use wordle::counts::{count_letters, LetterCounts};
use wordle::display::display_word;
use wordle::formatting::{array_to_string, dedent_ignore_first_last, HasToString};
use wordle::letters::{letters_of, to_upper, upper_letters_of};
use wordle::lines::{read_contents_to_lines, read_words};
use wordle::patterns::construct_regex;
use wordle::prompt::{answer_accepted, answer_is_yes, confirm, validate_answer};
use wordle::console::ConsoleResponse;
use wordle::strings::string_of;
use wordle::texts::{
    append_decimal, decimal_string, join_texts, leading_space_length, lines_of, part_of,
    trimmed_end_length,
};
use wordle::utils::{
    attribute_or_default, chars_to_uppercase, get_letter_frequencies_in_string,
    get_letter_frequencies_in_strings, get_letters_in_string, get_letters_in_strings,
    i64_to_i8, i64_to_usize, length_of_word, nr_unique_letters, string_to_chars,
};
use wordle::validators::{guess_verdict, validate_feedback, validate_guess};

fn words(list: &[&str]) -> Vec<String> {
    list.iter().map(|word| word.to_string()).collect()
}

fn chars(text: &str) -> Vec<char> {
    text.chars().collect()
}

fn config_for(size: usize) -> ConfigParams {
    let source = ConfigSource {
        title: None,
        url: None,
        notes: None,
        paths: None,
        path_to_words: None,
        size_of_wordle: Some(size as i64),
        max_display_length: None,
        max_length_for_best_optimisation: None,
        hard_mode: None,
    };
    set_config(&source, &String::from("1.2.3"))
}

#[test]
fn i64_to_i8_clamps() {
    assert_eq!(i64_to_i8(5), 5);
    assert_eq!(i64_to_i8(-5), -5);
    assert_eq!(i64_to_i8(127), 127);
    assert_eq!(i64_to_i8(128), 127);
    assert_eq!(i64_to_i8(-128), -128);
    assert_eq!(i64_to_i8(-129), -128);
    assert_eq!(i64_to_i8(i64::MAX), 127);
    assert_eq!(i64_to_i8(i64::MIN), -128);
}

#[test]
fn i64_to_usize_keeps_what_fits() {
    assert_eq!(i64_to_usize(0), 0);
    assert_eq!(i64_to_usize(7), 7);
    assert_eq!(i64_to_usize(500), 500);
    assert_eq!(i64_to_usize(-1), usize::MAX);
}

#[test]
fn attribute_or_default_prefers_the_attribute() {
    assert_eq!(attribute_or_default(Some(3), 4), 3);
    assert_eq!(attribute_or_default(None, 4), 4);
    assert_eq!(attribute_or_default(Some("a"), "b"), "a");
}

#[test]
fn upper_case_changes_ascii_letters_alone() {
    assert_eq!(to_upper('a'), 'A');
    assert_eq!(to_upper('z'), 'Z');
    assert_eq!(to_upper('m'), 'M');
    assert_eq!(to_upper('A'), 'A');
    assert_eq!(to_upper('1'), '1');
    assert_eq!(to_upper('`'), '`');
    assert_eq!(to_upper('{'), '{');
    assert_eq!(to_upper('ü'), 'ü');
    for c in ['a', 'q', 'z', 'B', '-', 'ß', 'é'] {
        assert_eq!(to_upper(c), c.to_ascii_uppercase());
    }
}

#[test]
fn letters_are_read_in_order() {
    assert_eq!(letters_of("héllo"), vec!['h', 'é', 'l', 'l', 'o']);
    assert_eq!(letters_of(""), Vec::<char>::new());
    assert_eq!(upper_letters_of("héllo Wörld"), chars("HéLLO WöRLD"));
}

#[test]
fn strings_are_built_from_letters() {
    assert_eq!(string_of(&chars("grüße")), "grüße");
    assert_eq!(string_of(&Vec::new()), "");
}

#[test]
fn string_to_chars_gives_one_string_for_each_letter() {
    assert_eq!(string_to_chars("héy"), words(&["h", "é", "y"]));
    assert_eq!(string_to_chars(""), Vec::<String>::new());
}

#[test]
fn chars_to_uppercase_changes_every_text() {
    assert_eq!(chars_to_uppercase(words(&["a", "bc", "D", "é", ""])), words(&["A", "BC", "D", "é", ""]));
}

#[test]
fn length_of_word_counts_letters() {
    assert_eq!(length_of_word(&String::from("hello")), 5);
    assert_eq!(length_of_word(&String::from("grüße")), 5);
    assert_eq!(length_of_word(&String::new()), 0);
}

#[test]
fn letters_of_a_word_are_listed_once() {
    assert_eq!(get_letters_in_string(&String::from("hello")), words(&["h", "e", "l", "o"]));
    assert_eq!(get_letters_in_string(&String::new()), Vec::<String>::new());
    assert_eq!(
        get_letters_in_strings(&words(&["abc", "cbd", "", "aeA"])),
        words(&["a", "b", "c", "d", "e", "A"])
    );
}

#[test]
fn letters_are_counted_over_all_words() {
    let counts = get_letter_frequencies_in_strings(&words(&["hello", "world"]));
    assert_eq!(counts.len(), 7);
    assert_eq!(counts.get('l'), 3);
    assert_eq!(counts.get('o'), 2);
    assert_eq!(counts.get('h'), 1);
    assert_eq!(counts.get('z'), 0);
    assert_eq!(counts.entry(0), ('h', 1));
    assert_eq!(counts.entry(2), ('l', 3));
    assert_eq!(counts.entry(6), ('d', 1));
    let counts = get_letter_frequencies_in_string(&String::from("banana"));
    assert_eq!(counts.len(), 3);
    assert_eq!(counts.get('a'), 3);
    assert_eq!(counts.get('n'), 2);
    assert_eq!(counts.get('b'), 1);
}

#[test]
fn every_letter_occurs_once_at_least_and_no_more_often_than_all_letters() {
    let pool = words(&["crane", "slate", "trace", "eerie"]);
    let counts = get_letter_frequencies_in_strings(&pool);
    let mut total = 0;
    for i in 0..counts.len() {
        total += counts.entry(i).1;
    }
    assert_eq!(total, 20);
    for i in 0..counts.len() {
        let n = counts.entry(i).1;
        assert!(1 <= n && n <= total);
        let p = n as f64 / total as f64;
        assert!(-p * p.log2() >= 0.0);
    }
}

#[test]
fn counter_table_adds_and_takes() {
    let mut table = LetterCounts::new();
    assert_eq!(table.len(), 0);
    assert_eq!(table.get('a'), 0);
    assert!(!table.take('a'));
    table.add('a');
    table.add('b');
    table.add('a');
    assert_eq!(table.len(), 2);
    assert_eq!(table.get('a'), 2);
    assert_eq!(table.get('b'), 1);
    assert!(table.take('a'));
    assert!(table.take('a'));
    assert!(!table.take('a'));
    assert_eq!(table.get('a'), 0);
    assert_eq!(table.get('b'), 1);
    assert_eq!(table.entry(1), ('b', 1));
    let table = count_letters(&chars("abca"));
    assert_eq!(table.len(), 3);
    assert_eq!(table.entry(0), ('a', 2));
}

#[test]
fn unique_letters_are_counted() {
    assert_eq!(nr_unique_letters(&String::from("hello")), 4);
    assert_eq!(nr_unique_letters(&String::from("aaa")), 1);
    assert_eq!(nr_unique_letters(&String::from("aA")), 2);
    assert_eq!(nr_unique_letters(&String::new()), 0);
}

#[test]
fn numbers_are_written_in_decimal() {
    assert_eq!(decimal_string(0), "0");
    assert_eq!(decimal_string(7), "7");
    assert_eq!(decimal_string(10), "10");
    assert_eq!(decimal_string(1203), "1203");
    assert_eq!(decimal_string(usize::MAX), usize::MAX.to_string());
    let mut text = String::from("n=");
    append_decimal(&mut text, 42);
    assert_eq!(text, "n=42");
    assert_eq!(17usize._to_string(), "17");
}

#[test]
fn lists_are_written_in_brackets() {
    assert_eq!(array_to_string(&vec![1usize, 2, 3]), "[1, 2, 3]");
    assert_eq!(array_to_string(&vec![10usize]), "[10]");
    assert_eq!(array_to_string(&Vec::<usize>::new()), "[]");
}

#[test]
fn texts_are_joined_with_a_separator() {
    assert_eq!(join_texts(&words(&["a", "b", "c"]), ", "), "a, b, c");
    assert_eq!(join_texts(&words(&["a"]), ", "), "a");
    assert_eq!(join_texts(&Vec::new(), ", "), "");
    assert_eq!(join_texts(&words(&["", ""]), "-"), "-");
}

#[test]
fn text_is_split_at_line_feeds() {
    let lines: Vec<String> = lines_of(&chars("a\nbc\n\nd")).iter().map(string_of).collect();
    assert_eq!(lines, words(&["a", "bc", "", "d"]));
    let lines: Vec<String> = lines_of(&chars("a\n")).iter().map(string_of).collect();
    assert_eq!(lines, words(&["a", ""]));
    let lines: Vec<String> = lines_of(&chars("")).iter().map(string_of).collect();
    assert_eq!(lines, words(&[""]));
}

#[test]
fn white_space_is_found_at_the_ends() {
    let text = chars(" \t ab c \u{a0}\n");
    let end = trimmed_end_length(&text);
    assert_eq!(end, 7);
    let start = leading_space_length(&text, end);
    assert_eq!(start, 3);
    assert_eq!(string_of(&part_of(&text, start, end)), "ab c");
    let blank = chars("  ");
    assert_eq!(trimmed_end_length(&blank), 0);
    assert_eq!(leading_space_length(&blank, 0), 0);
    assert_eq!(leading_space_length(&blank, 2), 2);
    assert_eq!(trimmed_end_length(&chars("ab")), 2);
}

#[test]
fn word_is_displayed_in_blocks() {
    assert_eq!(display_word(&String::from("abc")), "[A][B][C]");
    assert_eq!(display_word(&String::from("Té")), "[T][é]");
    assert_eq!(display_word(&String::new()), "");
}

#[test]
fn pattern_is_compiled_if_it_is_valid() {
    let re = construct_regex(r"^\w+$").unwrap();
    assert_eq!(re.as_str(), r"^\w+$");
    assert!(re.is_match("word"));
    assert!(construct_regex(r"foo(bar").is_none());
}

#[test]
fn template_is_made_plain() {
    let plain = dedent_ignore_first_last(
        "
        first
          second
        third
        ",
    )
    .unwrap();
    assert_eq!(plain, "first\n  second\nthird");
    assert_eq!(dedent_ignore_first_last("  a\n  b").unwrap(), "a\nb");
    assert_eq!(dedent_ignore_first_last("").unwrap(), "");
}

#[test]
fn lines_are_read_without_trailing_space() {
    let contents = String::from("a \n\n  \nb\t\n c");
    assert_eq!(
        read_contents_to_lines(&contents, true).unwrap(),
        words(&["a", "", "b", " c"])
    );
    assert_eq!(
        read_contents_to_lines(&contents, false).unwrap(),
        words(&["a", "", "", "b", " c"])
    );
    assert_eq!(read_contents_to_lines(&String::new(), true).unwrap(), words(&[""]));
}

#[test]
fn words_are_read_from_lines() {
    let contents = String::from("hello\n  world  \n\nfoo bar\n_x1\n   \nétude\nlast");
    assert_eq!(
        read_words(&contents).unwrap(),
        words(&["hello", "world", "_x1", "étude", "last"])
    );
    assert_eq!(read_words(&String::new()).unwrap(), Vec::<String>::new());
}

#[test]
fn guess_must_have_the_right_length_and_letters() {
    let config = config_for(5);
    assert_eq!(validate_guess(&String::from("alert"), &config), Some(true));
    assert_eq!(validate_guess(&String::from("ALERT"), &config), Some(true));
    assert_eq!(validate_guess(&String::from("al3rt"), &config), Some(false));
    assert_eq!(validate_guess(&String::from("alerts"), &config), Some(false));
    assert_eq!(validate_guess(&String::from("aler"), &config), Some(false));
    assert_eq!(validate_guess(&String::from("al rt"), &config), Some(false));
    assert_eq!(validate_guess(&String::from("grüße"), &config), Some(true));
    assert!(guess_verdict(5, 5, true, true));
    assert!(!guess_verdict(4, 5, true, true));
    assert!(!guess_verdict(5, 5, false, true));
    assert!(!guess_verdict(5, 5, true, false));
}

#[test]
fn feedback_must_have_the_right_length_and_symbols() {
    let config = config_for(5);
    let guess = String::from("alert");
    assert_eq!(validate_feedback(&guess, &String::from("xx-x1"), &config), Some(()));
    assert_eq!(validate_feedback(&guess, &String::from("00-01"), &config), Some(()));
    assert_eq!(validate_feedback(&guess, &String::from("xx-x2"), &config), None);
    assert_eq!(validate_feedback(&guess, &String::from("xx-x"), &config), None);
    assert_eq!(validate_feedback(&guess, &String::from("xx-x11"), &config), None);
    assert_eq!(validate_feedback(&guess, &String::from("XX-X1"), &config), None);
}

#[test]
fn yes_and_no_are_accepted_as_answers() {
    for text in ["y", "yes", "1", "n", "no", "0", ""] {
        assert_eq!(validate_answer(&String::from(text)), Some(true), "{}", text);
    }
    for text in ["maybe", "Y", "yes!", " y", "2"] {
        assert_eq!(validate_answer(&String::from(text)), Some(false), "{}", text);
    }
    assert!(answer_accepted(true, false, false));
    assert!(answer_accepted(false, true, false));
    assert!(answer_accepted(false, false, true));
    assert!(!answer_accepted(false, false, false));
    assert!(answer_is_yes(true, false));
    assert!(answer_is_yes(false, true));
    assert!(!answer_is_yes(false, false));
}

#[test]
fn empty_answer_means_yes() {
    for (text, expected) in [("y", true), ("yes", true), ("1", true), ("", true), ("n", false), ("no", false), ("0", false)] {
        let answer = confirm(ConsoleResponse { state: String::from(text), cancel: false, quit: false }).unwrap();
        assert_eq!(answer.state, expected, "{}", text);
        assert!(!answer.cancel);
        assert!(!answer.quit);
    }
    let answer = confirm(ConsoleResponse { state: String::new(), cancel: true, quit: false }).unwrap();
    assert!(answer.cancel);
    let answer = confirm(ConsoleResponse { state: String::new(), cancel: false, quit: true }).unwrap();
    assert!(answer.quit);
}

#[test]
fn settings_have_defaults() {
    let source = ConfigSource {
        title: None,
        url: None,
        notes: None,
        paths: None,
        path_to_words: None,
        size_of_wordle: None,
        max_display_length: None,
        max_length_for_best_optimisation: None,
        hard_mode: None,
    };
    let config = set_config(&source, &String::from("1.2.3"));
    assert_eq!(config.version, "1.2.3");
    assert_eq!(config.title, "<app name missing>");
    assert_eq!(config.url, "<url missing>");
    assert_eq!(config.notes, "");
    assert_eq!(config.paths, Vec::<String>::new());
    assert_eq!(config.path_to_words, "words.txt");
    assert_eq!(config.size_of_wordle, 4);
    assert_eq!(config.max_display_length, 100);
    assert_eq!(config.max_length_for_best_optimisation, 500);
    assert_eq!(config.hard_mode, false);
    assert_eq!(config.anonymous_feedback, true);
}

#[test]
fn settings_are_taken_from_the_source() {
    let source = ConfigSource {
        title: Some(String::from("Wordle")),
        url: Some(String::from("https://example.org")),
        notes: Some(String::from("a note")),
        paths: Some(words(&["a.txt", "b.txt"])),
        path_to_words: Some(String::from("data.txt")),
        size_of_wordle: Some(5),
        max_display_length: Some(10),
        max_length_for_best_optimisation: Some(50),
        hard_mode: Some(false),
    };
    let config = set_config(&source, &String::from("0.1.0"));
    assert_eq!(config.title, "Wordle");
    assert_eq!(config.url, "https://example.org");
    assert_eq!(config.notes, "a note");
    assert_eq!(config.paths, words(&["a.txt", "b.txt"]));
    assert_eq!(config.path_to_words, "data.txt");
    assert_eq!(config.size_of_wordle, 5);
    assert_eq!(config.max_display_length, 10);
    assert_eq!(config.max_length_for_best_optimisation, 50);
    assert_eq!(config.hard_mode, false);
    assert_eq!(config.anonymous_feedback, false);
}

#[test]
fn version_is_read_without_white_space() {
    assert_eq!(get_version(Some(String::from(" 1.4.2\n"))), "1.4.2");
    assert_eq!(get_version(Some(String::new())), "");
    assert_eq!(get_version(None), "x.y.z");
}
