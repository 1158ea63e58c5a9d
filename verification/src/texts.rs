//! Texts as sequences of letters: lines, white space at the ends, joining,
//! and numbers in decimal notation.

use vstd::prelude::*;
use crate::strings::push_char;

verus! {

/// Whether a character is white space, as `char::is_whitespace` says.
pub uninterp spec fn white_space(c: char) -> bool;

/// `char::is_whitespace` of the standard library: whether a character has
/// the Unicode property `White_Space`, which depends on the character alone.
#[verifier::external_body]
pub(crate) fn is_white_space(c: char) -> (yes: bool)
    ensures
        yes == white_space(c),
{
    c.is_whitespace()
}

/// A text without the white space at its end.
pub open spec fn trimmed_end(text: Seq<char>) -> Seq<char>
    decreases text.len(),
{
    if text.len() > 0 && white_space(text.last()) {
        trimmed_end(text.drop_last())
    } else {
        text
    }
}

/// A text without the white space at its start.
pub open spec fn trimmed_start(text: Seq<char>) -> Seq<char>
    decreases text.len(),
{
    if text.len() > 0 && white_space(text.first()) {
        trimmed_start(text.drop_first())
    } else {
        text
    }
}

/// A text without the white space at its start and at its end.
pub open spec fn trimmed(text: Seq<char>) -> Seq<char> {
    trimmed_start(trimmed_end(text))
}

/// The parts of a text between its line feeds. A text without a line feed
/// is one part, and a text that ends in a line feed has an empty last part.
pub open spec fn split_lines(text: Seq<char>) -> Seq<Seq<char>>
    decreases text.len(),
{
    if text.len() == 0 {
        seq![Seq::<char>::empty()]
    } else {
        let before = split_lines(text.drop_last());
        if text.last() == '\n' {
            before.push(Seq::<char>::empty())
        } else {
            before.drop_last().push(before.last().push(text.last()))
        }
    }
}

/// The parts with `separator` between each two of them.
pub open spec fn joined_with(parts: Seq<Seq<char>>, separator: Seq<char>) -> Seq<char>
    decreases parts.len(),
{
    if parts.len() == 0 {
        Seq::empty()
    } else if parts.len() == 1 {
        parts[0]
    } else {
        joined_with(parts.drop_last(), separator) + separator + parts.last()
    }
}

/// The character of a decimal digit.
pub open spec fn digit_char(digit: nat) -> char {
    (digit + 48) as u8 as char
}

/// A number in decimal notation, without leading zeros.
pub open spec fn decimal(n: nat) -> Seq<char>
    decreases n,
{
    if n < 10 {
        seq![digit_char(n)]
    } else {
        decimal(n / 10).push(digit_char(n % 10))
    }
}

/// The parts of a text between its line feeds.
pub fn lines_of(text: &Vec<char>) -> (lines: Vec<Vec<char>>)
    ensures
        lines@.map_values(|line: Vec<char>| line@) == split_lines(text@),
{
    let mut lines: Vec<Vec<char>> = Vec::new();
    let mut line: Vec<char> = Vec::new();
    let n: usize = text.len();
    let mut i: usize = 0;
    assert(lines@.map_values(|line: Vec<char>| line@).push(line@) =~= split_lines(text@.take(0)));
    while i < n
        invariant
            n == text@.len(),
            i <= n,
            lines@.map_values(|line: Vec<char>| line@).push(line@) == split_lines(
                text@.take(i as int),
            ),
        decreases n - i,
    {
        let ghost before = lines@.map_values(|line: Vec<char>| line@).push(line@);
        let ghost done = lines@.map_values(|line: Vec<char>| line@);
        let ghost current = line@;
        proof {
            let next = text@.take(i + 1);
            assert(next.drop_last() =~= text@.take(i as int));
            assert(next.last() == text@[i as int]);
            assert(before.last() == current);
            assert(before.drop_last() =~= done);
        }
        if text[i] == '\n' {
            lines.push(line);
            line = Vec::new();
            assert(lines@.map_values(|line: Vec<char>| line@).push(line@) =~= before.push(
                Seq::<char>::empty(),
            ));
        } else {
            line.push(text[i]);
            assert(lines@.map_values(|line: Vec<char>| line@).push(line@) =~= before.drop_last().push(
                before.last().push(text@[i as int]),
            ));
        }
        i = i + 1;
    }
    assert(text@.take(n as int) =~= text@);
    lines.push(line);
    assert(lines@.map_values(|line: Vec<char>| line@) =~= split_lines(text@));
    lines
}

/// The number of letters that are left of a text without the white space at
/// its end.
pub fn trimmed_end_length(text: &Vec<char>) -> (end: usize)
    ensures
        end <= text@.len(),
        text@.take(end as int) == trimmed_end(text@),
{
    let mut end: usize = text.len();
    assert(text@.take(end as int) =~= text@);
    while end > 0 && is_white_space(text[end - 1])
        invariant
            end <= text@.len(),
            trimmed_end(text@) == trimmed_end(text@.take(end as int)),
        decreases end,
    {
        proof {
            let part = text@.take(end as int);
            assert(part.last() == text@[end - 1]);
            assert(part.drop_last() =~= text@.take(end - 1));
        }
        end = end - 1;
    }
    proof {
        let part = text@.take(end as int);
        if end > 0 {
            assert(part.last() == text@[end - 1]);
        }
    }
    end
}

/// The number of letters of white space at the start of the first `end`
/// letters of a text.
pub fn leading_space_length(text: &Vec<char>, end: usize) -> (start: usize)
    requires
        end <= text@.len(),
    ensures
        start <= end,
        text@.subrange(start as int, end as int) == trimmed_start(text@.take(end as int)),
{
    let mut start: usize = 0;
    assert(text@.subrange(0, end as int) =~= text@.take(end as int));
    while start < end && is_white_space(text[start])
        invariant
            start <= end <= text@.len(),
            trimmed_start(text@.take(end as int)) == trimmed_start(
                text@.subrange(start as int, end as int),
            ),
        decreases end - start,
    {
        proof {
            let part = text@.subrange(start as int, end as int);
            assert(part.first() == text@[start as int]);
            assert(part.drop_first() =~= text@.subrange(start + 1, end as int));
        }
        start = start + 1;
    }
    proof {
        let part = text@.subrange(start as int, end as int);
        if start < end {
            assert(part.first() == text@[start as int]);
        }
    }
    start
}

/// The letters of a text from place `from` up to place `to`, `to` left out.
pub fn part_of(text: &Vec<char>, from: usize, to: usize) -> (part: Vec<char>)
    requires
        from <= to <= text@.len(),
    ensures
        part@ == text@.subrange(from as int, to as int),
{
    let mut part: Vec<char> = Vec::new();
    let mut i: usize = from;
    while i < to
        invariant
            from <= i <= to,
            to <= text@.len(),
            part@ == text@.subrange(from as int, i as int),
        decreases to - i,
    {
        part.push(text[i]);
        assert(text@.subrange(from as int, i + 1) =~= text@.subrange(from as int, i as int).push(
            text@[i as int],
        ));
        i = i + 1;
    }
    part
}

/// Appends a number in decimal notation to a text.
pub fn append_decimal(text: &mut String, n: usize)
    ensures
        final(text)@ == old(text)@ + decimal(n as nat),
    decreases n,
{
    if n >= 10 {
        append_decimal(text, n / 10);
    }
    let digit: u8 = (n % 10) as u8;
    let ghost before = text@;
    push_char(text, (digit + 48) as char);
    proof {
        if n >= 10 {
            assert(before.push(digit_char((n % 10) as nat)) =~= old(text)@ + decimal(n as nat));
        } else {
            assert(before.push(digit_char(n as nat)) =~= old(text)@ + decimal(n as nat));
        }
    }
}

/// A number in decimal notation.
pub fn decimal_string(n: usize) -> (text: String)
    ensures
        text@ == decimal(n as nat),
{
    let mut text = String::new();
    append_decimal(&mut text, n);
    assert(Seq::<char>::empty() + decimal(n as nat) =~= decimal(n as nat));
    text
}

/// The texts with `separator` between each two of them.
pub fn join_texts(parts: &Vec<String>, separator: &str) -> (text: String)
    ensures
        text@ == joined_with(parts@.map_values(|part: String| part@), separator@),
{
    let ghost texts = parts@.map_values(|part: String| part@);
    let mut text = String::new();
    let n: usize = parts.len();
    let mut i: usize = 0;
    assert(texts.take(0) =~= Seq::<Seq<char>>::empty());
    while i < n
        invariant
            n == parts@.len(),
            texts == parts@.map_values(|part: String| part@),
            i <= n,
            text@ == joined_with(texts.take(i as int), separator@),
        decreases n - i,
    {
        let ghost before = text@;
        if i > 0 {
            text.append(separator);
        }
        text.append(parts[i].as_str());
        proof {
            let next = texts.take(i + 1);
            assert(next.drop_last() =~= texts.take(i as int));
            assert(next.last() == parts@[i as int]@);
            if i == 0 {
                assert(next[0] == parts@[0]@);
                assert(before + parts@[0]@ =~= parts@[0]@);
            }
        }
        i = i + 1;
    }
    assert(texts.take(n as int) =~= texts);
    text
}

} // verus!
