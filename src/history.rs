//! The append-only log of committed command lines.
//!
//! Entries are numbered from 1 when listed. Reading and writing the history
//! file is the caller's part: `load` takes the file's text and `save_text`
//! gives the text to write.
use vstd::prelude::*;
use crate::text::{chars_of, string_of, views};

verus! {

pub struct History {
    entries: Vec<String>,
}

impl View for History {
    type V = Seq<Seq<char>>;

    closed spec fn view(&self) -> Seq<Seq<char>> {
        views(self.entries@)
    }
}

/// The number of entries that a listing shows, counted from the end.
pub open spec fn listed_count(len: nat, limit: Option<usize>) -> nat {
    match limit {
        Some(n) => if (n as nat) < len { n as nat } else { len },
        None => len,
    }
}

/// A line read from a file, with the carriage return of a `\r\n` ending
/// removed.
pub open spec fn strip_cr(l: Seq<char>) -> Seq<char> {
    if l.len() > 0 && l.last() == '\r' {
        l.drop_last()
    } else {
        l
    }
}

/// Splitting text into lines, reading it left to right: the lines completed
/// so far and the line under way.
pub open spec fn lines_run(s: Seq<char>) -> (Seq<Seq<char>>, Seq<char>)
    decreases s.len(),
{
    if s.len() == 0 {
        (seq![], seq![])
    } else {
        let (done, cur) = lines_run(s.drop_last());
        if s.last() == '\n' {
            (done.push(strip_cr(cur)), seq![])
        } else {
            (done, cur.push(s.last()))
        }
    }
}

/// The lines of a text: each ends at `\n` (or `\r\n`); a last line without
/// an ending counts when it is not empty.
pub open spec fn lines_of(s: Seq<char>) -> Seq<Seq<char>> {
    let (done, cur) = lines_run(s);
    if cur.len() > 0 {
        done.push(cur)
    } else {
        done
    }
}

/// The entries, each followed by a newline.
pub open spec fn history_text(es: Seq<Seq<char>>) -> Seq<char>
    decreases es.len(),
{
    if es.len() == 0 {
        seq![]
    } else {
        history_text(es.drop_last()) + es.last() + seq!['\n']
    }
}

/// The lines of `text`, as `lines_of` describes them.
pub fn split_lines(text: &str) -> (r: Vec<String>)
    ensures
        views(r@) == lines_of(text@),
{
    let cs = chars_of(text);
    let mut done: Vec<String> = Vec::new();
    let mut cur: Vec<char> = Vec::new();
    let mut i: usize = 0;
    while i < cs.len()
        invariant
            cs@ == text@,
            i <= cs.len(),
            views(done@) == lines_run(cs@.take(i as int)).0,
            cur@ == lines_run(cs@.take(i as int)).1,
        decreases cs.len() - i,
    {
        assert(cs@.take(i + 1).drop_last() == cs@.take(i as int));
        let c = cs[i];
        if c == '\n' {
            if cur.len() > 0 && cur[cur.len() - 1] == '\r' {
                cur.pop();
            }
            done.push(string_of(&cur));
            cur = Vec::new();
        } else {
            cur.push(c);
        }
        i = i + 1;
    }
    assert(cs@.take(cs.len() as int) == cs@);
    if cur.len() > 0 {
        done.push(string_of(&cur));
    }
    done
}

impl History {
    pub fn new() -> (h: History)
        ensures
            h@ == Seq::<Seq<char>>::empty(),
    {
        History { entries: Vec::new() }
    }

    pub fn len(&self) -> (n: usize)
        ensures
            n == self@.len(),
    {
        self.entries.len()
    }

    /// The entry at a 0-based position.
    pub fn get(&self, i: usize) -> (r: &String)
        requires
            i < self@.len(),
        ensures
            r@ == self@[i as int],
    {
        &self.entries[i]
    }

    /// Appends a committed line.
    pub fn record(&mut self, line: String)
        ensures
            final(self)@ == old(self)@.push(line@),
    {
        self.entries.push(line);
    }

    /// Appends every line of a history file's text, in order.
    pub fn load(&mut self, text: &str)
        ensures
            final(self)@ == old(self)@ + lines_of(text@),
    {
        let lines = split_lines(text);
        let mut i: usize = 0;
        while i < lines.len()
            invariant
                i <= lines.len(),
                self@ == old(self)@ + views(lines@).take(i as int),
            decreases lines.len() - i,
        {
            assert(views(lines@).take(i + 1) == views(lines@).take(i as int).push(lines@[i as int]@));
            let ghost before = self.entries@;
            let line = lines[i].clone();
            self.entries.push(line);
            assert(views(before.push(line)) == views(before).push(line@));
            i = i + 1;
        }
        assert(views(lines@).take(lines.len() as int) == views(lines@));
    }

    /// The text of a history file holding every entry, one per line.
    pub fn save_text(&self) -> (r: String)
        ensures
            r@ == history_text(self@),
    {
        let mut r = String::new();
        let mut i: usize = 0;
        while i < self.entries.len()
            invariant
                i <= self.entries.len(),
                r@ == history_text(self@.take(i as int)),
            decreases self.entries.len() - i,
        {
            assert(self@.take(i + 1).drop_last() == self@.take(i as int));
            proof {
                reveal_strlit("\n");
            }
            r.append(self.entries[i].as_str());
            r.append("\n");
            i = i + 1;
        }
        assert(self@.take(self.entries.len() as int) == self@);
        r
    }

    /// The entries to show, each with its 1-based number: all of them for
    /// `None`, the last `n` (or all, if fewer) for `Some(n)`.
    pub fn list(&self, limit: Option<usize>) -> (r: Vec<(usize, String)>)
        ensures
            r@.len() == listed_count(self@.len(), limit),
            forall|i: int|
                0 <= i < r@.len() ==> {
                    let start = self@.len() - r@.len();
                    &&& (#[trigger] r@[i]).0 == start + i + 1
                    &&& r@[i].1@ == self@[start + i]
                },
    {
        let n = self.entries.len();
        let start: usize = match limit {
            Some(k) => if k < n { n - k } else { 0 },
            None => 0,
        };
        let mut r: Vec<(usize, String)> = Vec::new();
        let mut i: usize = start;
        while i < n
            invariant
                start <= i <= n,
                n == self@.len(),
                n - start == listed_count(self@.len(), limit),
                r@.len() == i - start,
                forall|j: int|
                    0 <= j < r@.len() ==> {
                        &&& (#[trigger] r@[j]).0 == start + j + 1
                        &&& r@[j].1@ == self@[start + j]
                    },
            decreases n - i,
        {
            r.push((i + 1, self.entries[i].clone()));
            i = i + 1;
        }
        r
    }
}

} // verus!
