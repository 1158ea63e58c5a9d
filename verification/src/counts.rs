//! A table that holds one counter for each letter.

use vstd::prelude::*;
use crate::letters::{distinct_letters, occurrences, lemma_occurrences_bounded};

verus! {

/// One counter per letter. A letter without an entry counts as zero, and no
/// letter has two entries. The entries keep the order in which their letters
/// were first added.
pub struct LetterCounts {
    entries: Vec<(char, usize)>,
}

/// Whether some entry of `entries` belongs to the letter `c`.
pub open spec fn has_entry(entries: Seq<(char, usize)>, c: char) -> bool {
    exists|k: int| 0 <= k < entries.len() && (#[trigger] entries[k]).0 == c
}

/// The counter that `entries` holds for the letter `c`, zero if it holds none.
pub open spec fn entry_count(entries: Seq<(char, usize)>, c: char) -> nat {
    if has_entry(entries, c) {
        let k = choose|k: int| 0 <= k < entries.len() && (#[trigger] entries[k]).0 == c;
        entries[k].1 as nat
    } else {
        0
    }
}

/// Whether no letter has two entries.
pub open spec fn distinct_entries(entries: Seq<(char, usize)>) -> bool {
    forall|i: int, j: int|
        0 <= i < j < entries.len() ==> (#[trigger] entries[i]).0 != (#[trigger] entries[j]).0
}

impl LetterCounts {
    /// The entries of the table: a letter and its counter each.
    pub closed spec fn entries(&self) -> Seq<(char, usize)> {
        self.entries@
    }

    /// The table's invariant: no letter has two entries.
    pub open spec fn wf(&self) -> bool {
        distinct_entries(self.entries())
    }

    /// The counter of the letter `c`.
    pub open spec fn count(&self, c: char) -> nat {
        entry_count(self.entries(), c)
    }

    /// The letters that have an entry, in the order in which they were added.
    pub open spec fn letters(&self) -> Seq<char> {
        self.entries().map_values(|e: (char, usize)| e.0)
    }

    /// A table without entries.
    pub fn new() -> (table: Self)
        ensures
            table.wf(),
            table.entries() == Seq::<(char, usize)>::empty(),
            forall|c: char| table.count(c) == 0,
    {
        LetterCounts { entries: Vec::new() }
    }

    /// The number of letters that have an entry.
    pub fn len(&self) -> (n: usize)
        ensures
            n == self.entries().len(),
    {
        self.entries.len()
    }

    /// The letter and the counter of the entry at place `i`.
    pub fn entry(&self, i: usize) -> (e: (char, usize))
        requires
            i < self.entries().len(),
        ensures
            e == self.entries()[i as int],
    {
        self.entries[i]
    }

    /// The place of the entry of `c`, if it has one.
    fn find(&self, c: char) -> (place: Option<usize>)
        ensures
            match place {
                Some(k) => k < self.entries().len() && self.entries()[k as int].0 == c,
                None => !has_entry(self.entries(), c),
            },
    {
        let n: usize = self.entries.len();
        let mut i: usize = 0;
        while i < n
            invariant
                n == self.entries@.len(),
                i <= n,
                forall|k: int| 0 <= k < i ==> (#[trigger] self.entries@[k]).0 != c,
            decreases n - i,
        {
            if self.entries[i].0 == c {
                return Some(i);
            }
            i = i + 1;
        }
        None
    }

    /// The counter of the letter `c`.
    pub fn get(&self, c: char) -> (n: usize)
        requires
            self.wf(),
        ensures
            n == self.count(c),
    {
        match self.find(c) {
            Some(k) => self.entries[k].1,
            None => 0,
        }
    }

    /// Raises the counter of the letter `c` by one. A letter that had no entry
    /// gets one at the end of the table.
    pub fn add(&mut self, c: char)
        requires
            old(self).wf(),
            old(self).count(c) < usize::MAX,
        ensures
            final(self).wf(),
            final(self).count(c) == old(self).count(c) + 1,
            forall|d: char| d != c ==> final(self).count(d) == old(self).count(d),
            final(self).letters() == if has_entry(old(self).entries(), c) {
                old(self).letters()
            } else {
                old(self).letters().push(c)
            },
    {
        let ghost before = self.entries@;
        match self.find(c) {
            Some(k) => {
                let n: usize = self.entries[k].1;
                self.entries.set(k, (c, n + 1));
                proof {
                    let after = self.entries@;
                    assert(after[k as int].0 == c);
                    assert forall|d: char| d != c implies entry_count(after, d) == entry_count(
                        before,
                        d,
                    ) by {
                        lemma_entry_count_same(before, after, d);
                    }
                    assert(self.letters() =~= old(self).letters());
                }
            },
            None => {
                self.entries.push((c, 1));
                proof {
                    let after = self.entries@;
                    assert(after[after.len() - 1].0 == c);
                    assert forall|d: char| d != c implies entry_count(after, d) == entry_count(
                        before,
                        d,
                    ) by {
                        lemma_entry_count_same(before, after, d);
                    }
                    assert(self.letters() =~= old(self).letters().push(c));
                }
            },
        }
    }

    /// Lowers the counter of the letter `c` by one if it is not zero, and
    /// says whether it did.
    pub fn take(&mut self, c: char) -> (taken: bool)
        requires
            old(self).wf(),
        ensures
            final(self).wf(),
            taken == (old(self).count(c) > 0),
            final(self).count(c) == if taken {
                old(self).count(c) - 1
            } else {
                0
            },
            forall|d: char| d != c ==> final(self).count(d) == old(self).count(d),
            final(self).letters() == old(self).letters(),
    {
        let ghost before = self.entries@;
        match self.find(c) {
            Some(k) => {
                let n: usize = self.entries[k].1;
                if n > 0 {
                    self.entries.set(k, (c, n - 1));
                    proof {
                        let after = self.entries@;
                        assert(after[k as int].0 == c);
                        assert forall|d: char| d != c implies entry_count(after, d)
                            == entry_count(before, d) by {
                            lemma_entry_count_same(before, after, d);
                        }
                        assert(self.letters() =~= old(self).letters());
                    }
                    true
                } else {
                    false
                }
            },
            None => false,
        }
    }
}

/// Counts the letters of a text: every letter of the text gets the number of
/// its occurrences, and the entries stand in the order in which the letters
/// first occur.
pub fn count_letters(text: &Vec<char>) -> (table: LetterCounts)
    ensures
        table.wf(),
        forall|c: char| table.count(c) == occurrences(text@, c),
        table.letters() == distinct_letters(text@),
{
    let mut table = LetterCounts::new();
    let n: usize = text.len();
    let mut i: usize = 0;
    assert(table.letters() =~= distinct_letters(text@.take(0)));
    while i < n
        invariant
            n == text@.len(),
            i <= n,
            table.wf(),
            forall|c: char| table.count(c) == occurrences(text@.take(i as int), c),
            table.letters() == distinct_letters(text@.take(i as int)),
        decreases n - i,
    {
        let c: char = text[i];
        proof {
            let seen = text@.take(i as int);
            let next = text@.take(i + 1);
            assert(next.drop_last() =~= seen);
            assert(next.last() == c);
            lemma_occurrences_bounded(seen, c);
            lemma_letters_hold(table.entries(), c);
        }
        table.add(c);
        i = i + 1;
    }
    assert(text@.take(n as int) =~= text@);
    table
}

/// A letter has an entry exactly if it stands among the letters of the entries.
pub proof fn lemma_letters_hold(entries: Seq<(char, usize)>, c: char)
    ensures
        has_entry(entries, c) <==> entries.map_values(|e: (char, usize)| e.0).contains(c),
{
    let letters = entries.map_values(|e: (char, usize)| e.0);
    if has_entry(entries, c) {
        let k = choose|k: int| 0 <= k < entries.len() && (#[trigger] entries[k]).0 == c;
        assert(letters[k] == c);
    }
    if letters.contains(c) {
        let k = choose|k: int| 0 <= k < letters.len() && letters[k] == c;
        assert(entries[k].0 == c);
    }
}

/// Two tables agree on the letter `d` if they hold the same entries for it.
proof fn lemma_entry_count_same(before: Seq<(char, usize)>, after: Seq<(char, usize)>, d: char)
    requires
        distinct_entries(before),
        distinct_entries(after),
        before.len() <= after.len(),
        forall|k: int|
            0 <= k < before.len() && ((#[trigger] before[k]).0 == d || after[k].0 == d)
                ==> before[k] == after[k],
        forall|k: int| before.len() <= k < after.len() ==> (#[trigger] after[k]).0 != d,
    ensures
        entry_count(after, d) == entry_count(before, d),
{
    if has_entry(before, d) {
        let k = choose|k: int| 0 <= k < before.len() && (#[trigger] before[k]).0 == d;
        assert(after[k].0 == d);
        let j = choose|j: int| 0 <= j < after.len() && (#[trigger] after[j]).0 == d;
        assert(j == k);
    } else if has_entry(after, d) {
        let j = choose|j: int| 0 <= j < after.len() && (#[trigger] after[j]).0 == d;
        assert(before[j].0 == d);
    }
}

} // verus!
