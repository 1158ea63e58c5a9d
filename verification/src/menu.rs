//! Menus: a title and a list of options, each with the answers that select
//! it and with what it stands for. What an option does when it is selected
//! is the caller's affair: an option only carries it.

use vstd::prelude::*;
use regex::Regex;
use crate::formatting::join;
use crate::patterns::{compiled, construct_regex, is_match, matched, regex_valid};
use crate::response::ResponseState;
use crate::strings::push_char;
use crate::texts::{append_decimal, decimal, decimal_string, joined_with};
use crate::utils::texts;

verus! {

/// What the lines of a menu begin with.
pub const INDENT: &'static str = "  ";

/// What is shown after an answer that selects no option.
pub const ON_ERROR: &'static str = "[\x1b[91;1mERROR\x1b[0m] Invalid selection!";

/// One option of a menu.
pub struct MenuOption<A> {
    index: Option<usize>,
    display: String,
    keys: Vec<String>,
    re: Option<Regex>,
    action: A,
}

/// A menu.
pub struct MenuOptions<A> {
    title: String,
    on_error: String,
    indent: String,
    options: Vec<MenuOption<A>>,
}

/// The escape character that starts a style code.
pub open spec fn escape() -> char {
    '\u{1b}'
}

/// The code that switches to bold letters.
pub open spec fn bold() -> Seq<char> {
    seq![escape(), '[', '1', 'm']
}

/// The code that switches back to plain letters.
pub open spec fn plain() -> Seq<char> {
    seq![escape(), '[', '0', 'm']
}

/// The text of an option: what it is called; behind it, if it has keys, the
/// keys in bold letters and square brackets, with a slash between each two
/// of them; and before it, if it has a number, the number in bold letters
/// and a closing bracket.
pub open spec fn option_text(index: Option<usize>, display: Seq<char>, keys: Seq<Seq<char>>) -> Seq<
    char,
> {
    let named = if keys.len() > 0 {
        display + seq![' ', '['] + bold() + joined_with(keys, seq!['/']) + plain() + seq![']']
    } else {
        display
    };
    match index {
        Some(number) => bold() + decimal(number as nat) + plain() + seq![')', ' '] + named,
        None => named,
    }
}

/// Whether an answer selects an option, given whether it is the option's
/// number, what the option's pattern found if it has one, and whether it is
/// one of the option's keys: the number always selects; besides, the
/// pattern decides where there is one, and the keys where there is none.
pub fn is_selected(by_index: bool, by_pattern: Option<bool>, by_key: bool) -> (selected: bool)
    ensures
        selected == (by_index || match by_pattern {
            Some(found) => found,
            None => by_key,
        }),
{
    if by_index {
        return true;
    }
    match by_pattern {
        Some(found) => found,
        None => by_key,
    }
}

impl<A> MenuOption<A> {
    /// The number of the option, if it has one.
    pub closed spec fn index(&self) -> Option<usize> {
        self.index
    }

    /// What the option is called.
    pub closed spec fn display(&self) -> Seq<char> {
        self.display@
    }

    /// The keys of the option.
    pub closed spec fn keys(&self) -> Seq<Seq<char>> {
        texts(self.keys@)
    }

    /// The compiled pattern of the option, if it has one.
    pub closed spec fn matcher(&self) -> Option<Regex> {
        self.re
    }

    /// What the option stands for.
    pub closed spec fn action_spec(&self) -> A {
        self.action
    }

    /// Whether an answer selects the option: it is the option's number, or
    /// the option's pattern has a match in it, or, for an option without a
    /// pattern, it is one of the option's keys.
    pub open spec fn selected_by(&self, entry: Seq<char>) -> bool {
        ||| self.index() is Some && entry == decimal(self.index()->0 as nat)
        ||| match self.matcher() {
            Some(re) => matched(re, entry),
            None => self.keys().contains(entry),
        }
    }

    /// An option. There is none if it is given a pattern that does not
    /// compile.
    pub fn new(
        index: Option<usize>,
        display: String,
        keys: Vec<String>,
        pattern: Option<String>,
        action: A,
    ) -> (option: Option<Self>)
        ensures
            option is Some <==> (pattern is Some ==> regex_valid(pattern->0@)),
            option is Some ==> {
                &&& option->0.index() == index
                &&& option->0.display() == display@
                &&& option->0.keys() == texts(keys@)
                &&& option->0.matcher() == match pattern {
                    Some(p) => compiled(p@),
                    None => None,
                }
                &&& option->0.action_spec() == action
            },
    {
        let re: Option<Regex> = match pattern {
            Some(p) => {
                match construct_regex(p.as_str()) {
                    Some(re) => Some(re),
                    None => {
                        return None;
                    },
                }
            },
            None => None,
        };
        Some(MenuOption { index, display, keys, re, action })
    }

    /// Whether an answer selects the option.
    pub fn is_match(&self, entry: &String) -> (selected: bool)
        ensures
            selected == self.selected_by(entry@),
    {
        let by_index = match self.index {
            Some(index) => *entry == decimal_string(index),
            None => false,
        };
        let by_pattern = match &self.re {
            Some(re) => Some(is_match(re, entry.as_str())),
            None => None,
        };
        let mut by_key = false;
        let n: usize = self.keys.len();
        let mut i: usize = 0;
        while i < n
            invariant
                n == self.keys@.len(),
                i <= n,
                by_key == exists|k: int| 0 <= k < i && (#[trigger] self.keys@[k])@ == entry@,
            decreases n - i,
        {
            if *entry == self.keys[i] {
                by_key = true;
            }
            i = i + 1;
        }
        proof {
            let keys = texts(self.keys@);
            if by_key {
                let k = choose|k: int| 0 <= k < n && (#[trigger] self.keys@[k])@ == entry@;
                assert(keys[k] == entry@);
            }
            if keys.contains(entry@) {
                let k = choose|k: int| 0 <= k < keys.len() && keys[k] == entry@;
                assert(self.keys@[k]@ == entry@);
            }
        }
        is_selected(by_index, by_pattern, by_key)
    }

    /// The text of the option.
    pub fn to_string(&self) -> (text: String)
        ensures
            text@ == option_text(self.index(), self.display(), self.keys()),
    {
        let mut named = self.display.clone();
        if self.keys.len() > 0 {
            let mut slash = String::new();
            push_char(&mut slash, '/');
            assert(slash@ =~= seq!['/']);
            let keys = join(&self.keys, slash.as_str());
            push_char(&mut named, ' ');
            push_char(&mut named, '[');
            push_char(&mut named, '\u{1b}');
            push_char(&mut named, '[');
            push_char(&mut named, '1');
            push_char(&mut named, 'm');
            named.append(keys.as_str());
            push_char(&mut named, '\u{1b}');
            push_char(&mut named, '[');
            push_char(&mut named, '0');
            push_char(&mut named, 'm');
            push_char(&mut named, ']');
            assert(named@ =~= self.display@ + seq![' ', '['] + bold() + joined_with(
                texts(self.keys@),
                seq!['/'],
            ) + plain() + seq![']']);
        }
        match self.index {
            Some(index) => {
                let mut text = String::new();
                push_char(&mut text, '\u{1b}');
                push_char(&mut text, '[');
                push_char(&mut text, '1');
                push_char(&mut text, 'm');
                append_decimal(&mut text, index);
                push_char(&mut text, '\u{1b}');
                push_char(&mut text, '[');
                push_char(&mut text, '0');
                push_char(&mut text, 'm');
                push_char(&mut text, ')');
                push_char(&mut text, ' ');
                text.append(named.as_str());
                assert(text@ =~= bold() + decimal(index as nat) + plain() + seq![')', ' ']
                    + named@);
                text
            },
            None => named,
        }
    }

    /// What the option stands for.
    pub fn action(&self) -> (action: &A)
        ensures
            *action == self.action_spec(),
    {
        &self.action
    }
}

/// The text of a menu up to the option at place `n`: the title, a line
/// feed, and a line for each option, with a line feed before it.
pub open spec fn menu_lines<A>(
    title: Seq<char>,
    indent: Seq<char>,
    options: Seq<MenuOption<A>>,
    n: int,
) -> Seq<char>
    decreases n,
{
    if n <= 0 {
        title + seq!['\n']
    } else {
        menu_lines(title, indent, options, n - 1) + seq!['\n'] + indent + option_text(
            options[n - 1].index(),
            options[n - 1].display(),
            options[n - 1].keys(),
        )
    }
}

/// What a menu ends with: the request for a selection.
pub const SELECTION_PROMPT: &'static str = "\n\nEnter your selection >> ";

/// What follows from one round of a menu, given how the round ended: a
/// wish to leave the menu ends the menu as completed, a wish to leave the
/// program is handed on, and after anything else the menu is shown again.
pub fn after_round(state: ResponseState) -> (end: Option<ResponseState>)
    ensures
        end == match state {
            ResponseState::CANCEL => Some(ResponseState::COMPLETED),
            ResponseState::QUIT => Some(ResponseState::QUIT),
            _ => None::<ResponseState>,
        },
{
    if state.is_cancel() {
        Some(ResponseState::COMPLETED)
    } else if state.is_quit() {
        Some(ResponseState::QUIT)
    } else {
        None
    }
}

impl<A> MenuOptions<A> {
    /// The title of the menu.
    pub closed spec fn title(&self) -> Seq<char> {
        self.title@
    }

    /// What is shown after an answer that selects no option.
    pub closed spec fn on_error(&self) -> Seq<char> {
        self.on_error@
    }

    /// What the line of an option begins with.
    pub closed spec fn indent(&self) -> Seq<char> {
        self.indent@
    }

    /// The options of the menu.
    pub closed spec fn options(&self) -> Seq<MenuOption<A>> {
        self.options@
    }

    /// A menu.
    pub fn new(title: String, on_error: String, indent: String, options: Vec<MenuOption<A>>) -> (menu:
        Self)
        ensures
            menu.title() == title@,
            menu.on_error() == on_error@,
            menu.indent() == indent@,
            menu.options() == options@,
    {
        MenuOptions { title, indent, on_error, options }
    }

    /// The number of options of the menu.
    pub fn len(&self) -> (n: usize)
        ensures
            n == self.options().len(),
    {
        self.options.len()
    }

    /// The option at a place of the menu.
    pub fn item(&self, index: usize) -> (option: &MenuOption<A>)
        requires
            index < self.options().len(),
        ensures
            *option == self.options()[index as int],
    {
        &self.options[index]
    }

    /// The first option that the answer selects, if it selects any.
    pub fn get_match(&self, entry: &String) -> (found: Option<&MenuOption<A>>)
        ensures
            match found {
                Some(option) => exists|k: int|
                    {
                        &&& 0 <= k < self.options().len()
                        &&& *option == #[trigger] self.options()[k]
                        &&& self.options()[k].selected_by(entry@)
                        &&& forall|j: int|
                            0 <= j < k ==> !(#[trigger] self.options()[j]).selected_by(entry@)
                    },
                None => forall|k: int|
                    0 <= k < self.options().len() ==> !(#[trigger] self.options()[k]).selected_by(
                        entry@,
                    ),
            },
    {
        let n: usize = self.options.len();
        let mut index: usize = 0;
        while index < n
            invariant
                n == self.options@.len(),
                index <= n,
                forall|j: int| 0 <= j < index ==> !(#[trigger] self.options@[j]).selected_by(entry@),
            decreases n - index,
        {
            if self.options[index].is_match(entry) {
                return Some(self.item(index));
            }
            index = index + 1;
        }
        None
    }

    /// The text of the menu: the title, the options line by line, and the
    /// request for a selection.
    pub fn to_string(&self) -> (text: String)
        ensures
            text@ == menu_lines(
                self.title(),
                self.indent(),
                self.options(),
                self.options().len() as int,
            ) + SELECTION_PROMPT@,
    {
        let mut expr = self.title.clone();
        push_char(&mut expr, '\n');
        let n: usize = self.options.len();
        let mut i: usize = 0;
        while i < n
            invariant
                n == self.options@.len(),
                i <= n,
                expr@ == menu_lines(self.title@, self.indent@, self.options@, i as int),
            decreases n - i,
        {
            let ghost before = expr@;
            push_char(&mut expr, '\n');
            expr.append(self.indent.as_str());
            let line = self.options[i].to_string();
            expr.append(line.as_str());
            assert(expr@ =~= before + seq!['\n'] + self.indent@ + line@);
            i = i + 1;
        }
        expr.append(SELECTION_PROMPT);
        expr
    }

    /// What is shown after an answer that selects no option.
    pub fn error_text(&self) -> (text: &String)
        ensures
            text@ == self.on_error(),
    {
        &self.on_error
    }
}

} // verus!
