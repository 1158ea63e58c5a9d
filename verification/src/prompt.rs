//! What the player's answer to a yes-or-no question means.

use vstd::prelude::*;
use crate::console::ConsoleResponse;
use crate::patterns::{construct_regex, is_match, regex_accepts, regex_valid};

verus! {

/// The pattern of an answer that means yes.
pub const YES: &'static str = r"^(1|y|yes)$";

/// The pattern of an answer that means no.
pub const NO: &'static str = r"^(0|n|no)$";

/// Whether an answer to a yes-or-no question is accepted, given what the
/// two patterns found and whether it is empty.
pub fn answer_accepted(yes: bool, no: bool, empty: bool) -> (ok: bool)
    ensures
        ok == (yes || no || empty),
{
    yes || no || empty
}

/// Whether an answer means yes, given what the pattern found and whether it
/// is empty: an empty answer means yes.
pub fn answer_is_yes(yes: bool, empty: bool) -> (ok: bool)
    ensures
        ok == (yes || empty),
{
    yes || empty
}

/// Whether an answer to a yes-or-no question is accepted: yes, no, or
/// nothing at all. There is no verdict if a pattern does not compile.
pub fn validate_answer(text: &String) -> (verdict: Option<bool>)
    ensures
        verdict is Some <==> regex_valid(YES@) && regex_valid(NO@),
        verdict is Some ==> verdict->0 == (regex_accepts(YES@, text@) || regex_accepts(NO@, text@)
            || text@.len() == 0),
{
    let re_yes = match construct_regex(YES) {
        Some(re) => re,
        None => {
            return None;
        },
    };
    let re_no = match construct_regex(NO) {
        Some(re) => re,
        None => {
            return None;
        },
    };
    let yes = is_match(&re_yes, text.as_str());
    let no = is_match(&re_no, text.as_str());
    Some(answer_accepted(yes, no, text.as_str().unicode_len() == 0))
}

/// Reads the player's answer to a yes-or-no question: yes and the empty
/// answer mean yes. Whether the player asked to leave is handed on. There is
/// no result if a pattern does not compile.
pub fn confirm(response: ConsoleResponse<String>) -> (answer: Option<ConsoleResponse<bool>>)
    ensures
        answer is Some <==> regex_valid(YES@) && regex_valid(NO@),
        answer is Some ==> {
            &&& answer->0.state == (regex_accepts(YES@, response.state@) || response.state@.len()
                == 0)
            &&& answer->0.cancel == response.cancel
            &&& answer->0.quit == response.quit
        },
{
    let re_yes = match construct_regex(YES) {
        Some(re) => re,
        None => {
            return None;
        },
    };
    if construct_regex(NO).is_none() {
        return None;
    }
    let yes = is_match(&re_yes, response.state.as_str());
    let empty = response.state.as_str().unicode_len() == 0;
    Some(
        ConsoleResponse {
            state: answer_is_yes(yes, empty),
            cancel: response.cancel,
            quit: response.quit,
        },
    )
}

} // verus!
