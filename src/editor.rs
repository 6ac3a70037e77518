//! The line editor: a state machine from keystrokes to edits of the input
//! buffer and to actions that the terminal side carries out.
//!
//! Drawing is the caller's part: after an action that asks for it, the
//! caller moves to column 0, clears the line and prints the prompt, the
//! buffer and the cursor in one repaint.
use vstd::prelude::*;
use crate::text::{chars_of, is_space, space_char, string_of, views};
use crate::history::History;
use crate::completion::{lcp, is_common_prefix};

verus! {

/// A key as the terminal reports it, before modifiers are applied.
#[derive(Clone, Copy, Debug, PartialEq, Eq, Structural)]
pub enum RawKey {
    Char(char),
    Tab,
    Enter,
    Backspace,
    Up,
    Down,
    Other,
}

/// An event of the line editor.
#[derive(Clone, Copy, Debug, PartialEq, Eq, Structural)]
pub enum Key {
    Insert(char),
    Tab,
    Enter,
    Backspace,
    Up,
    Down,
    Interrupt,
    EndOfInput,
    Ignored,
}

pub open spec fn key_of(code: RawKey, ctrl: bool, alt: bool) -> Key {
    match code {
        RawKey::Char(c) => if ctrl && c == 'c' {
            Key::Interrupt
        } else if ctrl && c == 'd' {
            Key::EndOfInput
        } else if c == '\n' || (ctrl && c == 'j') {
            Key::Enter
        } else if !ctrl && !alt {
            Key::Insert(c)
        } else {
            Key::Ignored
        },
        RawKey::Tab => Key::Tab,
        RawKey::Enter => Key::Enter,
        RawKey::Backspace => Key::Backspace,
        RawKey::Up => Key::Up,
        RawKey::Down => Key::Down,
        RawKey::Other => Key::Ignored,
    }
}

/// The event that a key with its Control and Alt flags stands for: Ctrl-C
/// interrupts, Ctrl-D ends the input, a newline or Ctrl-J commits, and a
/// character typed with Control or Alt is ignored.
pub fn classify_key(code: RawKey, ctrl: bool, alt: bool) -> (r: Key)
    ensures
        r == key_of(code, ctrl, alt),
{
    match code {
        RawKey::Char(c) => if ctrl && c == 'c' {
            Key::Interrupt
        } else if ctrl && c == 'd' {
            Key::EndOfInput
        } else if c == '\n' || (ctrl && c == 'j') {
            Key::Enter
        } else if !ctrl && !alt {
            Key::Insert(c)
        } else {
            Key::Ignored
        },
        RawKey::Tab => Key::Tab,
        RawKey::Enter => Key::Enter,
        RawKey::Backspace => Key::Backspace,
        RawKey::Up => Key::Up,
        RawKey::Down => Key::Down,
        RawKey::Other => Key::Ignored,
    }
}

/// What the terminal side does after an event.
#[derive(Debug, PartialEq, Eq)]
pub enum Action {
    /// Nothing to show.
    Nothing,
    /// Repaint the prompt line.
    Redraw,
    /// Ring the bell.
    Bell,
    /// Repaint the prompt line, then ring the bell.
    RedrawAndBell,
    /// Print these candidates on a new line, two spaces apart, then repaint.
    ShowCandidates(Vec<String>),
    /// Tab was pressed: gather the candidates and call `complete`.
    Complete,
    /// The line is committed; run it.
    Commit(String),
    /// The line is abandoned; start a new prompt.
    Interrupted,
    /// End of input: leave the shell with status 0.
    Exit,
}

/// `r` is `s` without its leading and trailing whitespace.
pub open spec fn is_trim_of(r: Seq<char>, s: Seq<char>) -> bool {
    exists|i: int, j: int|
        0 <= i <= j <= s.len() && r == s.subrange(i, j) && (forall|k: int|
            0 <= k < i ==> is_space(#[trigger] s[k])) && (forall|k: int|
            j <= k < s.len() ==> is_space(#[trigger] s[k])) && (i < j ==> !is_space(s[i])
            && !is_space(s[j - 1]))
}

/// The characters of `s` without leading and trailing whitespace.
pub fn trim_chars(s: &Vec<char>) -> (r: Vec<char>)
    ensures
        is_trim_of(r@, s@),
{
    let mut i: usize = 0;
    while i < s.len() && space_char(s[i])
        invariant
            i <= s@.len(),
            forall|k: int| 0 <= k < i ==> is_space(#[trigger] s@[k]),
        decreases s.len() - i,
    {
        i = i + 1;
    }
    let mut j: usize = s.len();
    while j > i && space_char(s[j - 1])
        invariant
            i <= j <= s@.len(),
            forall|k: int| j <= k < s@.len() ==> is_space(#[trigger] s@[k]),
        decreases j,
    {
        j = j - 1;
    }
    let mut r: Vec<char> = Vec::new();
    let mut k: usize = i;
    while k < j
        invariant
            i <= k <= j <= s@.len(),
            r@ == s@.subrange(i as int, k as int),
        decreases j - k,
    {
        r.push(s[k]);
        k = k + 1;
    }
    assert(i < j ==> !is_space(s@[i as int]) && !is_space(s@[j - 1]));
    assert(is_trim_of(r@, s@)) by {
        assert(r@ == s@.subrange(i as int, j as int));
    }
    r
}

/// The editor's state as the contracts see it.
pub struct EditorView {
    pub buffer: Seq<char>,
    pub cursor: nat,
    /// Consecutive Tab presses on an ambiguous prefix, counted up to 2.
    pub tabs: nat,
    /// The history entry being recalled; the history's length when none is.
    pub recall: nat,
}

pub struct Editor {
    buffer: Vec<char>,
    cursor: usize,
    tabs: usize,
    recall: usize,
}

impl View for Editor {
    type V = EditorView;

    closed spec fn view(&self) -> EditorView {
        EditorView {
            buffer: self.buffer@,
            cursor: self.cursor as nat,
            tabs: self.tabs as nat,
            recall: self.recall as nat,
        }
    }
}

/// The buffer and cursor after recalling history entry `i` of `h`, or after
/// moving past the newest entry.
pub open spec fn recalled(v: EditorView, h: Seq<Seq<char>>, i: nat) -> EditorView {
    if i < h.len() {
        EditorView { buffer: h[i as int], cursor: h[i as int].len(), recall: i, ..v }
    } else {
        EditorView { buffer: seq![], cursor: 0, recall: i, ..v }
    }
}

impl Editor {
    /// The invariant: the cursor lies within the buffer and the recall index
    /// within the history, whose length is `n`.
    pub open spec fn wf(&self, n: nat) -> bool {
        &&& self@.cursor <= self@.buffer.len()
        &&& self@.recall <= n
        &&& self@.tabs <= 2
    }

    /// A fresh prompt: empty buffer, no recall in progress.
    pub fn new(history_len: usize) -> (e: Editor)
        ensures
            e@ == (EditorView { buffer: seq![], cursor: 0, tabs: 0, recall: history_len as nat }),
    {
        Editor { buffer: Vec::new(), cursor: 0, tabs: 0, recall: history_len }
    }

    pub fn buffer_text(&self) -> (r: String)
        ensures
            r@ == self@.buffer,
    {
        string_of(&self.buffer)
    }

    pub fn cursor(&self) -> (r: usize)
        ensures
            r == self@.cursor,
    {
        self.cursor
    }

    /// Inserts `c` at the cursor and moves the cursor past it.
    pub fn insert_char(&mut self, c: char)
        requires
            old(self)@.cursor <= old(self)@.buffer.len(),
        ensures
            final(self)@ == (EditorView {
                buffer: old(self)@.buffer.insert(old(self)@.cursor as int, c),
                cursor: old(self)@.cursor + 1,
                ..old(self)@
            }),
    {
        self.buffer.insert(self.cursor, c);
        let n = self.buffer.len();
        assert(self.cursor < n);
        self.cursor = self.cursor + 1;
    }

    /// Removes the character left of the cursor; `false`, with nothing
    /// changed, when the cursor is at the start.
    pub fn backspace(&mut self) -> (changed: bool)
        requires
            old(self)@.cursor <= old(self)@.buffer.len(),
        ensures
            changed == (old(self)@.cursor > 0),
            changed ==> final(self)@ == (EditorView {
                buffer: old(self)@.buffer.remove(old(self)@.cursor - 1),
                cursor: (old(self)@.cursor - 1) as nat,
                ..old(self)@
            }),
            !changed ==> final(self)@ == old(self)@,
    {
        if self.cursor > 0 {
            self.buffer.remove(self.cursor - 1);
            self.cursor = self.cursor - 1;
            true
        } else {
            false
        }
    }

    /// Recalls the next older entry; `false`, with nothing changed, at the
    /// oldest.
    pub fn recall_up(&mut self, h: &History) -> (changed: bool)
        requires
            old(self)@.recall <= h@.len(),
        ensures
            changed == (old(self)@.recall > 0),
            changed ==> final(self)@ == recalled(old(self)@, h@, (old(self)@.recall - 1) as nat),
            !changed ==> final(self)@ == old(self)@,
    {
        if self.recall > 0 {
            self.recall = self.recall - 1;
            self.buffer = chars_of(h.get(self.recall).as_str());
            self.cursor = self.buffer.len();
            true
        } else {
            false
        }
    }

    /// Recalls the next newer entry, or empties the buffer on moving past
    /// the newest; `false`, with nothing changed, when no recall is in
    /// progress.
    pub fn recall_down(&mut self, h: &History) -> (changed: bool)
        requires
            old(self)@.recall <= h@.len(),
        ensures
            changed == (old(self)@.recall < h@.len()),
            changed ==> final(self)@ == recalled(old(self)@, h@, old(self)@.recall + 1),
            !changed ==> final(self)@ == old(self)@,
    {
        if self.recall < h.len() {
            self.recall = self.recall + 1;
            if self.recall < h.len() {
                self.buffer = chars_of(h.get(self.recall).as_str());
                self.cursor = self.buffer.len();
            } else {
                self.buffer = Vec::new();
                self.cursor = 0;
            }
            true
        } else {
            false
        }
    }

    /// Applies a Tab press given the completion candidates, sorted and
    /// without duplicates. One candidate replaces the buffer, followed by a
    /// space. None rings the bell. Several, on the first press, extend the
    /// buffer to their longest common prefix when that is longer, and ring
    /// the bell; on a later consecutive press they are listed.
    pub fn complete(&mut self, candidates: &Vec<String>) -> (a: Action)
        requires
            old(self)@.cursor <= old(self)@.buffer.len(),
            old(self)@.tabs <= 2,
        ensures
            final(self)@.recall == old(self)@.recall,
            final(self)@.cursor == final(self)@.buffer.len() || final(self)@.buffer == old(self)@.buffer
                && final(self)@.cursor == old(self)@.cursor,
            final(self)@.tabs <= 2,
            candidates@.len() == 1 ==> {
                &&& final(self)@.buffer == candidates@[0]@.push(' ')
                &&& final(self)@.tabs == 0
                &&& a == Action::Redraw
            },
            candidates@.len() == 0 ==> {
                &&& final(self)@.buffer == old(self)@.buffer
                &&& final(self)@.tabs == 0
                &&& a == Action::Bell
            },
            candidates@.len() > 1 && old(self)@.tabs == 0 ==> {
                &&& final(self)@.tabs == 1
                &&& is_common_prefix(final(self)@.buffer, views(candidates@))
                    || final(self)@.buffer == old(self)@.buffer
                &&& if exists|p: Seq<char>|
                    is_common_prefix(p, views(candidates@)) && p.len() > old(self)@.buffer.len() {
                    &&& is_common_prefix(final(self)@.buffer, views(candidates@))
                    &&& forall|p: Seq<char>|
                        is_common_prefix(p, views(candidates@)) ==> p.len()
                            <= final(self)@.buffer.len()
                    &&& a == Action::RedrawAndBell
                } else {
                    &&& final(self)@.buffer == old(self)@.buffer
                    &&& a == Action::Bell
                }
            },
            candidates@.len() > 1 && old(self)@.tabs > 0 ==> {
                &&& final(self)@.tabs == 2
                &&& final(self)@.buffer == old(self)@.buffer
                &&& (a matches Action::ShowCandidates(l) && views(l@) == views(candidates@))
            },
    {
        let n = candidates.len();
        if n == 1 {
            let mut b = chars_of(candidates[0].as_str());
            b.push(' ');
            self.cursor = b.len();
            self.buffer = b;
            self.tabs = 0;
            Action::Redraw
        } else if n == 0 {
            self.tabs = 0;
            Action::Bell
        } else if self.tabs == 0 {
            self.tabs = 1;
            let p = lcp(candidates);
            let pc = chars_of(p.as_str());
            if pc.len() > self.buffer.len() {
                self.cursor = pc.len();
                self.buffer = pc;
                Action::RedrawAndBell
            } else {
                Action::Bell
            }
        } else {
            self.tabs = 2;
            let mut l: Vec<String> = Vec::new();
            let mut i: usize = 0;
            while i < n
                invariant
                    n == candidates@.len(),
                    i <= n,
                    views(l@) == views(candidates@).take(i as int),
                decreases n - i,
            {
                let c = candidates[i].clone();
                let ghost before = l@;
                l.push(c);
                assert(views(before.push(c)) == views(before).push(c@));
                assert(views(candidates@).take(i + 1) == views(candidates@).take(i as int).push(
                    candidates@[i as int]@,
                ));
                i = i + 1;
            }
            assert(views(candidates@).take(n as int) == views(candidates@));
            Action::ShowCandidates(l)
        }
    }

    /// Ends the prompt: the buffer, trimmed, is the committed line.
    pub fn commit(&self) -> (r: String)
        ensures
            is_trim_of(r@, self@.buffer),
    {
        let t = trim_chars(&self.buffer);
        string_of(&t)
    }

    /// Applies one event other than the completion itself. Any key but Tab
    /// resets the count of consecutive Tab presses.
    pub fn handle(&mut self, key: Key, h: &History) -> (a: Action)
        requires
            old(self).wf(h@.len()),
        ensures
            final(self).wf(h@.len()),
            key != Key::Tab ==> final(self)@.tabs == 0,
            key == Key::Tab ==> final(self)@ == old(self)@ && a == Action::Complete,
            key matches Key::Insert(c) ==> a == Action::Redraw && final(self)@.buffer
                == old(self)@.buffer.insert(old(self)@.cursor as int, c) && final(self)@.cursor
                == old(self)@.cursor + 1,
            key == Key::Backspace ==> if old(self)@.cursor > 0 {
                a == Action::Redraw && final(self)@.buffer == old(self)@.buffer.remove(
                    old(self)@.cursor - 1,
                ) && final(self)@.cursor == old(self)@.cursor - 1
            } else {
                a == Action::Nothing && final(self)@.buffer == old(self)@.buffer
            },
            key == Key::Up ==> if old(self)@.recall > 0 {
                a == Action::Redraw && final(self)@ == (EditorView {
                    tabs: 0,
                    ..recalled(old(self)@, h@, (old(self)@.recall - 1) as nat)
                })
            } else {
                a == Action::Nothing && final(self)@ == (EditorView { tabs: 0, ..old(self)@ })
            },
            key == Key::Down ==> if old(self)@.recall < h@.len() {
                a == Action::Redraw && final(self)@ == (EditorView {
                    tabs: 0,
                    ..recalled(old(self)@, h@, old(self)@.recall + 1)
                })
            } else {
                a == Action::Nothing && final(self)@ == (EditorView { tabs: 0, ..old(self)@ })
            },
            key == Key::Enter ==> (a matches Action::Commit(l) && is_trim_of(l@, old(self)@.buffer)),
            key == Key::Interrupt ==> a == Action::Interrupted && final(self)@.buffer
                == Seq::<char>::empty() && final(self)@.cursor == 0,
            key == Key::EndOfInput ==> a == Action::Exit,
            key == Key::Ignored ==> a == Action::Nothing && final(self)@ == (EditorView {
                tabs: 0,
                ..old(self)@
            }),
    {
        if key == Key::Tab {
            return Action::Complete;
        }
        self.tabs = 0;
        match key {
            Key::Insert(c) => {
                self.insert_char(c);
                Action::Redraw
            },
            Key::Backspace => {
                if self.backspace() {
                    Action::Redraw
                } else {
                    Action::Nothing
                }
            },
            Key::Up => {
                if self.recall_up(h) {
                    Action::Redraw
                } else {
                    Action::Nothing
                }
            },
            Key::Down => {
                if self.recall_down(h) {
                    Action::Redraw
                } else {
                    Action::Nothing
                }
            },
            Key::Enter => Action::Commit(self.commit()),
            Key::Interrupt => {
                self.buffer = Vec::new();
                self.cursor = 0;
                Action::Interrupted
            },
            Key::EndOfInput => Action::Exit,
            _ => Action::Nothing,
        }
    }
}

} // verus!
