//! How a reading of the player's answer ended.

use vstd::prelude::*;

verus! {

/// How a reading of the player's answer ended.
#[allow(non_camel_case_types)]
#[derive(Clone, Copy, Debug, PartialEq, Eq, Structural)]
pub enum ResponseState {
    /// The answer is not read yet.
    PENDING,
    /// The player asked to leave the current menu.
    CANCEL,
    /// The player asked to leave the program.
    QUIT,
    /// The answer was read, and the player asked for neither.
    COMPLETED,
}

impl ResponseState {
    /// Whether the player asked to leave the current menu.
    pub fn is_cancel(&self) -> (yes: bool)
        ensures
            yes == (*self == ResponseState::CANCEL),
    {
        matches!(*self, ResponseState::CANCEL)
    }

    /// Whether the player asked to leave the program.
    pub fn is_quit(&self) -> (yes: bool)
        ensures
            yes == (*self == ResponseState::QUIT),
    {
        matches!(*self, ResponseState::QUIT)
    }

    /// Whether the answer was read to its end.
    pub fn is_completed(&self) -> (yes: bool)
        ensures
            yes == (*self == ResponseState::COMPLETED),
    {
        matches!(*self, ResponseState::COMPLETED)
    }

    /// Whether the player asked to leave the menu or the program.
    pub fn is_cancel_or_quit(&self) -> (yes: bool)
        ensures
            yes == (*self == ResponseState::CANCEL || *self == ResponseState::QUIT),
    {
        matches!(*self, ResponseState::CANCEL | ResponseState::QUIT)
    }
}

} // verus!
