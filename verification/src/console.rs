//! The line that the player is typing: its text and the place of the
//! cursor in it.

use vstd::prelude::*;
use crate::letters::letters_of;
use crate::strings::{push_char, string_of};

verus! {

/// What the player answered, and whether the player asked to leave.
pub struct ConsoleResponse<T> {
    /// The answer.
    pub state: T,
    /// Whether the player asked to leave the current menu.
    pub cancel: bool,
    /// Whether the player asked to leave the program.
    pub quit: bool,
}

/// The line that the player is typing.
pub struct ConsoleTextState {
    /// Whether the player asked to leave the current menu.
    pub cancel: bool,
    /// Whether the player asked to leave the program.
    pub quit: bool,
    symbols: Vec<char>,
    cursor: usize,
}

/// A key that the player pressed while typing a line.
#[derive(Clone, Copy, Debug, PartialEq, Eq, Structural)]
pub enum KeyPress {
    /// The key that asks to leave the program.
    Interrupt,
    /// The key that asks to leave the current menu.
    EndOfInput,
    /// The key that ends the line.
    Enter,
    /// The key that takes away the letter before the cursor.
    Backspace,
    /// The key that moves the cursor to the left.
    Left,
    /// The key that moves the cursor to the right.
    Right,
    /// The key of a letter.
    Char(char),
    /// Any other key.
    Other,
}

/// What the terminal has to show after a key was pressed.
#[derive(Debug)]
pub enum Echo {
    /// Nothing changes.
    Nothing,
    /// The cursor moves one letter to the left.
    MoveLeft,
    /// The cursor moves one letter to the right.
    MoveRight,
    /// The letter before the cursor went away: the text behind the cursor
    /// is written anew, one place further left.
    Deleted { tail: String },
    /// A letter was typed: it is written, and behind it the text that stood
    /// behind the cursor.
    Typed { symbol: char, tail: String },
}

/// What follows from a key that was pressed.
#[derive(Debug)]
pub struct KeyOutcome {
    /// Whether the line is finished.
    pub finished: bool,
    /// What the terminal has to show.
    pub echo: Echo,
}

/// The smaller of two numbers.
pub open spec fn lower(a: int, b: int) -> int {
    if a <= b {
        a
    } else {
        b
    }
}

impl ConsoleTextState {
    /// The text of the line.
    pub closed spec fn text(&self) -> Seq<char> {
        self.symbols@
    }

    /// The number of letters that stand before the cursor.
    pub closed spec fn cursor(&self) -> int {
        self.cursor as int
    }

    /// Whether the player asked to leave the current menu.
    pub closed spec fn cancelled(&self) -> bool {
        self.cancel
    }

    /// Whether the player asked to leave the program.
    pub closed spec fn quitted(&self) -> bool {
        self.quit
    }

    /// The place of the cursor, counted in letters of the text: the cursor
    /// never acts beyond the end of the text.
    pub open spec fn place(&self) -> int {
        lower(self.cursor(), self.text().len() as int)
    }

    /// An empty line with the cursor at its start.
    pub fn new() -> (line: Self)
        ensures
            line.text() == Seq::<char>::empty(),
            line.cursor() == 0,
            !line.cancelled(),
            !line.quitted(),
    {
        let symbols: Vec<char> = Vec::new();
        let cursor: usize = 0;
        ConsoleTextState { symbols, cursor, cancel: false, quit: false }
    }

    /// The number of letters of the line.
    pub fn len(&self) -> (n: usize)
        ensures
            n == self.text().len(),
    {
        self.symbols.len()
    }

    /// The text of the line.
    pub fn to_string(&self) -> (text: String)
        ensures
            text@ == self.text(),
    {
        string_of(&self.symbols)
    }

    /// The letters of the line from place `from` up to place `to`, `to` left
    /// out.
    fn segment(&self, from: usize, to: usize) -> (text: String)
        requires
            from <= to <= self.text().len(),
        ensures
            text@ == self.text().subrange(from as int, to as int),
    {
        let mut part: Vec<char> = Vec::new();
        let mut i: usize = from;
        while i < to
            invariant
                from <= i <= to,
                to <= self.symbols@.len(),
                part@ == self.symbols@.subrange(from as int, i as int),
            decreases to - i,
        {
            part.push(self.symbols[i]);
            assert(self.symbols@.subrange(from as int, i + 1) =~= self.symbols@.subrange(
                from as int,
                i as int,
            ).push(self.symbols@[i as int]));
            i = i + 1;
        }
        string_of(&part)
    }

    /// The text before the cursor and the text from the cursor on.
    pub fn split(&self) -> (parts: (String, String))
        ensures
            parts.0@ == self.text().take(self.place()),
            parts.1@ == self.text().skip(self.place()),
    {
        let n: usize = self.symbols.len();
        let at: usize = if self.cursor < n {
            self.cursor
        } else {
            n
        };
        (self.segment(0, at), self.segment(at, n))
    }

    /// The text before the cursor, the letter under the cursor, and the text
    /// behind that letter. Where the cursor stands at the end of the text
    /// the last two are empty.
    pub fn split_three(&self) -> (parts: (String, String, String))
        ensures
            parts.0@ == self.text().take(self.place()),
            parts.1@ == self.text().subrange(
                self.place(),
                lower(self.place() + 1, self.text().len() as int),
            ),
            parts.2@ == self.text().skip(lower(self.place() + 1, self.text().len() as int)),
    {
        let n: usize = self.symbols.len();
        let at: usize = if self.cursor < n {
            self.cursor
        } else {
            n
        };
        let behind: usize = if at < n {
            at + 1
        } else {
            n
        };
        (self.segment(0, at), self.segment(at, behind), self.segment(behind, n))
    }

    /// Moves the cursor to the left by `i` letters, or to the start of the
    /// line if that is nearer, and says whether it moved.
    pub fn move_left(&mut self, i: u32) -> (moved: bool)
        ensures
            moved == (i > 0 && old(self).cursor() > 0),
            final(self).cursor() == old(self).cursor() - lower(i as int, old(self).cursor()),
            final(self).text() == old(self).text(),
            final(self).cancelled() == old(self).cancelled(),
            final(self).quitted() == old(self).quitted(),
    {
        let mut ii: u32 = i;
        let mut moved = false;
        while ii > 0 && self.cursor > 0
            invariant
                ii <= i,
                self.cursor as int == old(self).cursor as int - (i - ii),
                moved == (ii < i),
                self.symbols == old(self).symbols,
                self.cancel == old(self).cancel,
                self.quit == old(self).quit,
            decreases ii,
        {
            self.cursor -= 1;
            moved = true;
            ii -= 1;
        }
        moved
    }

    /// Moves the cursor to the right by `i` letters, or to the end of the
    /// line if that is nearer, and says whether it moved.
    pub fn move_right(&mut self, i: u32) -> (moved: bool)
        ensures
            moved == (i > 0 && old(self).cursor() < old(self).text().len()),
            final(self).cursor() == if old(self).cursor() < old(self).text().len() {
                lower(old(self).cursor() + i, old(self).text().len() as int)
            } else {
                old(self).cursor()
            },
            final(self).text() == old(self).text(),
            final(self).cancelled() == old(self).cancelled(),
            final(self).quitted() == old(self).quitted(),
    {
        let mut ii: u32 = i;
        let mut moved = false;
        while ii > 0 && self.cursor < self.len()
            invariant
                ii <= i,
                self.cursor as int == old(self).cursor as int + (i - ii),
                moved == (ii < i),
                moved ==> self.cursor <= self.symbols@.len(),
                self.symbols == old(self).symbols,
                self.cancel == old(self).cancel,
                self.quit == old(self).quit,
            decreases ii,
        {
            self.cursor += 1;
            moved = true;
            ii -= 1;
        }
        moved
    }

    /// Puts the letters of `value` into the line at the cursor, and the
    /// cursor behind them.
    pub fn insert(&mut self, value: &str)
        ensures
            final(self).text() == old(self).text().take(old(self).place()) + value@ + old(
                self,
            ).text().skip(old(self).place()),
            value@.len() <= u32::MAX ==> final(self).cursor() == old(self).place() + value@.len(),
            final(self).cursor() == lower(
                old(self).place() + (value@.len() as usize as u32),
                final(self).text().len() as int,
            ),
            final(self).cancelled() == old(self).cancelled(),
            final(self).quitted() == old(self).quitted(),
    {
        let letters = letters_of(value);
        let n: usize = letters.len();
        let ghost before = self.symbols@;
        if self.cursor >= self.len() {
            self.cursor = self.len();
            let mut k: usize = 0;
            while k < n
                invariant
                    n == letters@.len(),
                    k <= n,
                    self.symbols@ == before + letters@.take(k as int),
                    self.cursor == before.len(),
                    self.cancel == old(self).cancel,
                    self.quit == old(self).quit,
                decreases n - k,
            {
                self.symbols.push(letters[k]);
                assert(before + letters@.take(k + 1) =~= (before + letters@.take(k as int)).push(
                    letters@[k as int],
                ));
                k = k + 1;
            }
            assert(letters@.take(n as int) =~= letters@);
            assert(self.symbols@ =~= before.take(before.len() as int) + letters@ + before.skip(
                before.len() as int,
            ));
        } else {
            let mut symbols: Vec<char> = Vec::new();
            let m: usize = self.symbols.len();
            let at: usize = self.cursor;
            let mut i: usize = 0;
            while i < m
                invariant
                    m == before.len(),
                    self.symbols@ == before,
                    n == letters@.len(),
                    at < m,
                    i <= m,
                    symbols@ == if i <= at {
                        before.take(i as int)
                    } else {
                        before.take(at as int) + letters@ + before.subrange(at as int, i as int)
                    },
                decreases m - i,
            {
                if i == at {
                    let mut k: usize = 0;
                    while k < n
                        invariant
                            n == letters@.len(),
                            k <= n,
                            symbols@ == before.take(at as int) + letters@.take(k as int),
                        decreases n - k,
                    {
                        symbols.push(letters[k]);
                        assert(before.take(at as int) + letters@.take(k + 1) =~= (before.take(
                            at as int,
                        ) + letters@.take(k as int)).push(letters@[k as int]));
                        k = k + 1;
                    }
                    assert(letters@.take(n as int) =~= letters@);
                }
                symbols.push(self.symbols[i]);
                proof {
                    if i < at {
                        assert(before.take(i + 1) =~= before.take(i as int).push(before[i as int]));
                    } else {
                        assert(before.take(at as int) + letters@ + before.subrange(
                            at as int,
                            i + 1,
                        ) =~= (before.take(at as int) + letters@ + before.subrange(
                            at as int,
                            i as int,
                        )).push(before[i as int]));
                    }
                }
                i = i + 1;
            }
            assert(before.subrange(at as int, m as int) =~= before.skip(at as int));
            self.symbols = symbols;
        }
        let steps: u32 = #[verifier::truncate]
        (n as u32);
        self.move_right(steps);
    }

    /// Takes away the letter before the cursor, and says whether there was
    /// one.
    pub fn delete(&mut self) -> (deleted: bool)
        ensures
            deleted == (0 < old(self).cursor() <= old(self).text().len()),
            final(self).text() == if deleted {
                old(self).text().remove(old(self).cursor() - 1)
            } else {
                old(self).text()
            },
            final(self).cursor() == if old(self).cursor() > 0 && old(self).text().len() > 0 {
                old(self).cursor() - 1
            } else {
                old(self).cursor()
            },
            final(self).cancelled() == old(self).cancelled(),
            final(self).quitted() == old(self).quitted(),
    {
        if self.len() == 0 || self.cursor == 0 {
            return false;
        }
        self.move_left(1);
        self.delete_ahead()
    }

    /// What the line hands back when it is finished: its text, and whether
    /// the player asked to leave.
    pub fn response(&self) -> (answer: ConsoleResponse<String>)
        ensures
            answer.state@ == self.text(),
            answer.cancel == self.cancelled(),
            answer.quit == self.quitted(),
    {
        ConsoleResponse { cancel: self.cancel, quit: self.quit, state: self.to_string() }
    }

    /// Takes a key that the player pressed. The keys that ask to leave
    /// empty the line, say which wish it was, and finish the line; the key
    /// that ends the line finishes it as it is. The other keys edit the
    /// line or move the cursor, and the outcome says what is to be shown.
    pub fn press(&mut self, key: KeyPress) -> (outcome: KeyOutcome)
        ensures
            outcome.finished == (key == KeyPress::Interrupt || key == KeyPress::EndOfInput || key
                == KeyPress::Enter),
            match key {
                KeyPress::Interrupt => {
                    &&& final(self).text() == Seq::<char>::empty()
                    &&& final(self).cursor() == 0
                    &&& !final(self).cancelled()
                    &&& final(self).quitted()
                    &&& outcome.echo is Nothing
                },
                KeyPress::EndOfInput => {
                    &&& final(self).text() == Seq::<char>::empty()
                    &&& final(self).cursor() == 0
                    &&& final(self).cancelled()
                    &&& !final(self).quitted()
                    &&& outcome.echo is Nothing
                },
                KeyPress::Enter => {
                    &&& final(self).text() == old(self).text()
                    &&& final(self).cursor() == old(self).cursor()
                    &&& !final(self).cancelled()
                    &&& !final(self).quitted()
                    &&& outcome.echo is Nothing
                },
                KeyPress::Backspace => {
                    let deleted = 0 < old(self).cursor() <= old(self).text().len();
                    &&& final(self).text() == if deleted {
                        old(self).text().remove(old(self).cursor() - 1)
                    } else {
                        old(self).text()
                    }
                    &&& final(self).cursor() == if old(self).cursor() > 0 && old(self).text().len()
                        > 0 {
                        old(self).cursor() - 1
                    } else {
                        old(self).cursor()
                    }
                    &&& final(self).cancelled() == old(self).cancelled()
                    &&& final(self).quitted() == old(self).quitted()
                    &&& match outcome.echo {
                        Echo::Deleted { tail } => deleted && tail@ == final(self).text().skip(
                            final(self).place(),
                        ),
                        Echo::Nothing => !deleted,
                        _ => false,
                    }
                },
                KeyPress::Left => {
                    &&& final(self).text() == old(self).text()
                    &&& final(self).cursor() == old(self).cursor() - lower(1, old(self).cursor())
                    &&& final(self).cancelled() == old(self).cancelled()
                    &&& final(self).quitted() == old(self).quitted()
                    &&& match outcome.echo {
                        Echo::MoveLeft => old(self).cursor() > 0,
                        Echo::Nothing => old(self).cursor() == 0,
                        _ => false,
                    }
                },
                KeyPress::Right => {
                    &&& final(self).text() == old(self).text()
                    &&& final(self).cursor() == if old(self).cursor() < old(self).text().len() {
                        old(self).cursor() + 1
                    } else {
                        old(self).cursor()
                    }
                    &&& final(self).cancelled() == old(self).cancelled()
                    &&& final(self).quitted() == old(self).quitted()
                    &&& match outcome.echo {
                        Echo::MoveRight => old(self).cursor() < old(self).text().len(),
                        Echo::Nothing => old(self).cursor() >= old(self).text().len(),
                        _ => false,
                    }
                },
                KeyPress::Char(symbol) => {
                    &&& final(self).text() == old(self).text().insert(old(self).place(), symbol)
                    &&& final(self).cursor() == old(self).place() + 1
                    &&& final(self).cancelled() == old(self).cancelled()
                    &&& final(self).quitted() == old(self).quitted()
                    &&& match outcome.echo {
                        Echo::Typed { symbol: typed, tail } => typed == symbol && tail@ == old(
                            self,
                        ).text().skip(old(self).place()),
                        _ => false,
                    }
                },
                KeyPress::Other => {
                    &&& final(self).text() == old(self).text()
                    &&& final(self).cursor() == old(self).cursor()
                    &&& final(self).cancelled() == old(self).cancelled()
                    &&& final(self).quitted() == old(self).quitted()
                    &&& outcome.echo is Nothing
                },
            },
    {
        match key {
            KeyPress::Interrupt => {
                *self = ConsoleTextState::new();
                self.cancel = false;
                self.quit = true;
                KeyOutcome { finished: true, echo: Echo::Nothing }
            },
            KeyPress::EndOfInput => {
                *self = ConsoleTextState::new();
                self.cancel = true;
                self.quit = false;
                KeyOutcome { finished: true, echo: Echo::Nothing }
            },
            KeyPress::Enter => {
                self.cancel = false;
                self.quit = false;
                KeyOutcome { finished: true, echo: Echo::Nothing }
            },
            KeyPress::Backspace => {
                if self.delete() {
                    let (_, tail) = self.split();
                    KeyOutcome { finished: false, echo: Echo::Deleted { tail } }
                } else {
                    KeyOutcome { finished: false, echo: Echo::Nothing }
                }
            },
            KeyPress::Left => {
                if self.move_left(1) {
                    KeyOutcome { finished: false, echo: Echo::MoveLeft }
                } else {
                    KeyOutcome { finished: false, echo: Echo::Nothing }
                }
            },
            KeyPress::Right => {
                if self.move_right(1) {
                    KeyOutcome { finished: false, echo: Echo::MoveRight }
                } else {
                    KeyOutcome { finished: false, echo: Echo::Nothing }
                }
            },
            KeyPress::Char(symbol) => {
                let (_, tail) = self.split();
                let mut typed = String::new();
                push_char(&mut typed, symbol);
                assert(typed@ =~= seq![symbol]);
                self.insert(typed.as_str());
                proof {
                    let at = old(self).place();
                    let before = old(self).text();
                    assert(before.take(at) + seq![symbol] + before.skip(at) =~= before.insert(
                        at,
                        symbol,
                    ));
                }
                KeyOutcome { finished: false, echo: Echo::Typed { symbol, tail } }
            },
            KeyPress::Other => KeyOutcome { finished: false, echo: Echo::Nothing },
        }
    }

    /// Takes away the letter under the cursor, and says whether there was
    /// one.
    pub fn delete_ahead(&mut self) -> (deleted: bool)
        ensures
            deleted == (old(self).cursor() < old(self).text().len()),
            final(self).text() == if deleted {
                old(self).text().remove(old(self).cursor())
            } else {
                old(self).text()
            },
            final(self).cursor() == old(self).cursor(),
            final(self).cancelled() == old(self).cancelled(),
            final(self).quitted() == old(self).quitted(),
    {
        if self.cursor >= self.len() {
            return false;
        }
        let mut text_new: Vec<char> = Vec::new();
        let n: usize = self.symbols.len();
        let at: usize = self.cursor;
        let mut i: usize = 0;
        while i < n
            invariant
                n == self.symbols@.len(),
                at < n,
                i <= n,
                text_new@ == if i <= at {
                    self.symbols@.take(i as int)
                } else {
                    self.symbols@.take(at as int) + self.symbols@.subrange(at + 1, i as int)
                },
            decreases n - i,
        {
            if i != at {
                text_new.push(self.symbols[i]);
            }
            proof {
                let s = self.symbols@;
                if i < at {
                    assert(s.take(i + 1) =~= s.take(i as int).push(s[i as int]));
                } else if i == at {
                    assert(s.take(at as int) + s.subrange(at + 1, i + 1) =~= s.take(i as int));
                } else {
                    assert(s.take(at as int) + s.subrange(at + 1, i + 1) =~= (s.take(at as int)
                        + s.subrange(at + 1, i as int)).push(s[i as int]));
                }
            }
            i = i + 1;
        }
        assert(text_new@ =~= self.symbols@.remove(at as int));
        self.symbols = text_new;
        true
    }
}

} // verus!
