//! A helper for Wordle-style word games: it keeps the pool of words that are
//! still possible after each guess, and ranks the pool to propose the next
//! guess.
//!
//! The engine:
//! - `feedback`: the feedback that a guess earns against a solution, and its
//!   code of one character per letter;
//! - `constraints`: what the feedback to a guess says of one letter;
//! - `states`: the outcome of a guess, and the filter that it puts on a pool;
//! - `retention`: the solution is never eliminated by its own feedback;
//! - `comparison`, `ranking`, `sorting`: the order of two words and the
//!   stable sort of a pool by it;
//! - `tactics`, `advanced`: the tactics that rank a pool;
//! - `game`: one game, turn by turn.
//!
//! Around the engine:
//! - `letters`, `counts`, `strings`, `texts`, `utils`: letters, counters and
//!   texts;
//! - `patterns`, `formatting`: regular expressions and templates, which
//!   other crates provide;
//! - `lines`, `validators`, `prompt`: what is read from files and from the
//!   player;
//! - `config`, `response`, `console`, `menu`, `menus`, `display`, `screens`:
//!   the settings, the line that the player types, the menus, and the texts
//!   that are shown.
//!
//! The library neither reads nor writes: the caller shows the texts and
//! hands in what the player typed.

pub mod advanced;
pub mod comparison;
pub mod config;
pub mod console;
pub mod constraints;
pub mod counts;
pub mod display;
pub mod feedback;
pub mod formatting;
pub mod game;
pub mod letters;
pub mod lines;
pub mod menu;
pub mod menus;
pub mod patterns;
pub mod prompt;
pub mod ranking;
pub mod response;
pub mod retention;
pub mod screens;
pub mod sorting;
pub mod states;
pub mod strings;
pub mod tactics;
pub mod texts;
pub mod utils;
pub mod validators;
