//! The settings of a session.

use vstd::prelude::*;
use crate::letters::letters_of;
use crate::strings::string_of;
use crate::texts::{leading_space_length, part_of, trimmed, trimmed_end_length};
use crate::utils::{attribute_or_default, i64_to_usize};

verus! {

/// The settings of a session. They are read once, when the session starts.
#[derive(Debug)]
pub struct ConfigParams {
    /// The version of the program.
    pub version: String,
    /// The title of the program.
    pub title: String,
    /// Where the program is published.
    pub url: String,
    /// Notes that are shown when the program starts.
    pub notes: String,
    /// Where the list of words is read from.
    pub path_to_words: String,
    /// The lists of words that the player can choose from.
    pub paths: Vec<String>,
    /// The number of letters of the solution.
    pub size_of_wordle: usize,
    /// The greatest number of words that are shown.
    pub max_display_length: usize,
    /// The greatest size of a pool that is ranked by the expensive tactic.
    pub max_length_for_best_optimisation: usize,
    /// Whether a guess must use what earlier guesses have shown.
    pub hard_mode: bool,
    /// Whether the summary of a game hides the letters.
    pub anonymous_feedback: bool,
}

/// What the file of settings holds, as far as it holds it.
#[derive(Debug)]
pub struct ConfigSource {
    /// The title of the program.
    pub title: Option<String>,
    /// Where the program is published.
    pub url: Option<String>,
    /// Notes that are shown when the program starts.
    pub notes: Option<String>,
    /// The lists of words that the player can choose from.
    pub paths: Option<Vec<String>>,
    /// Where the list of words is read from.
    pub path_to_words: Option<String>,
    /// The number of letters of the solution.
    pub size_of_wordle: Option<i64>,
    /// The greatest number of words that are shown.
    pub max_display_length: Option<i64>,
    /// The greatest size of a pool that is ranked by the expensive tactic.
    pub max_length_for_best_optimisation: Option<i64>,
    /// Whether a guess must use what earlier guesses have shown.
    pub hard_mode: Option<bool>,
}

/// The title of a program whose settings name none.
pub const TITLE_MISSING: &'static str = "<app name missing>";

/// The address of a program whose settings name none.
pub const URL_MISSING: &'static str = "<url missing>";

/// The list of words of a program whose settings name none.
pub const DEFAULT_WORDS: &'static str = "words.txt";

/// The version of a program that cannot read its own.
pub const VERSION_MISSING: &'static str = "x.y.z";

/// The text of a setting, or the default where the setting is missing.
pub open spec fn text_or(setting: Option<String>, default: Seq<char>) -> Seq<char> {
    match setting {
        Some(text) => text@,
        None => default,
    }
}

/// The number of a setting as a `usize`, or the default where the setting
/// is missing.
pub open spec fn size_or(setting: Option<i64>, default: i64) -> usize {
    match setting {
        Some(n) => n as usize,
        None => default as usize,
    }
}

fn text_setting(setting: &Option<String>, default: &str) -> (text: String)
    ensures
        text@ == text_or(*setting, default@),
{
    match setting {
        Some(text) => text.clone(),
        None => String::from_str(default),
    }
}

/// The settings of a session, from what the file of settings holds and the
/// version of the program. A setting that the file does not hold has its
/// default: four letters, a hundred words shown, the expensive tactic up to
/// five hundred words, no hard mode. The summary hides the letters unless
/// the file switches hard mode off.
pub fn set_config(spec: &ConfigSource, version: &String) -> (config: ConfigParams)
    ensures
        config.version@ == version@,
        config.title@ == text_or(spec.title, TITLE_MISSING@),
        config.url@ == text_or(spec.url, URL_MISSING@),
        config.notes@ == text_or(spec.notes, Seq::<char>::empty()),
        config.paths@ == match spec.paths {
            Some(paths) => paths@,
            None => Seq::<String>::empty(),
        },
        config.path_to_words@ == text_or(spec.path_to_words, DEFAULT_WORDS@),
        config.size_of_wordle == size_or(spec.size_of_wordle, 4),
        config.max_display_length == size_or(spec.max_display_length, 100),
        config.max_length_for_best_optimisation == size_or(
            spec.max_length_for_best_optimisation,
            500,
        ),
        config.hard_mode == match spec.hard_mode {
            Some(flag) => flag,
            None => false,
        },
        config.anonymous_feedback == match spec.hard_mode {
            Some(flag) => flag,
            None => true,
        },
{
    let paths: Vec<String> = match &spec.paths {
        Some(paths) => paths.clone(),
        None => Vec::new(),
    };
    let empty = String::new();
    ConfigParams {
        version: version.clone(),
        title: text_setting(&spec.title, TITLE_MISSING),
        url: text_setting(&spec.url, URL_MISSING),
        notes: text_setting(&spec.notes, empty.as_str()),
        paths,
        path_to_words: text_setting(&spec.path_to_words, DEFAULT_WORDS),
        size_of_wordle: i64_to_usize(attribute_or_default(spec.size_of_wordle, 4)),
        max_display_length: i64_to_usize(attribute_or_default(spec.max_display_length, 100)),
        max_length_for_best_optimisation: i64_to_usize(
            attribute_or_default(spec.max_length_for_best_optimisation, 500),
        ),
        hard_mode: attribute_or_default(spec.hard_mode, false),
        anonymous_feedback: attribute_or_default(spec.hard_mode, true),
    }
}

/// The version of the program, from the text of the file that holds it:
/// that text without the white space at its ends, or `x.y.z` where the file
/// could not be read.
pub fn get_version(contents: Option<String>) -> (version: String)
    ensures
        version@ == match contents {
            Some(text) => trimmed(text@),
            None => VERSION_MISSING@,
        },
{
    match contents {
        Some(text) => {
            let letters = letters_of(text.as_str());
            let end = trimmed_end_length(&letters);
            let start = leading_space_length(&letters, end);
            string_of(&part_of(&letters, start, end))
        },
        None => String::from_str(VERSION_MISSING),
    }
}

} // verus!
