//! Splits a command line into argument tokens under shell quoting rules.
//!
//! The lexer is a single left-to-right pass over the characters with three
//! flags: inside single quotes, inside double quotes, and a pending escape.
//! `lex_step` states the effect of one character; `tokens_of` is the whole
//! line.
use vstd::prelude::*;
use crate::text::{chars_of, is_space, space_char, string_of, views};

verus! {

/// The lexer's state after some prefix of the line.
pub struct LexState {
    pub tokens: Seq<Seq<char>>,
    pub cur: Seq<char>,
    pub single: bool,
    pub double: bool,
    pub escape: bool,
}

pub open spec fn lex_start() -> LexState {
    LexState { tokens: seq![], cur: seq![], single: false, double: false, escape: false }
}

/// The characters that a backslash escapes inside double quotes.
pub open spec fn dq_escapable(c: char) -> bool {
    c == '$' || c == '`' || c == '"' || c == '\\' || c == '\n'
}

/// The effect of one character on the lexer's state.
pub open spec fn lex_step(st: LexState, c: char) -> LexState {
    if st.single {
        if c == '\'' {
            LexState { single: false, ..st }
        } else {
            LexState { cur: st.cur.push(c), ..st }
        }
    } else if st.escape {
        if st.double && !dq_escapable(c) {
            LexState { cur: st.cur.push('\\').push(c), escape: false, ..st }
        } else {
            LexState { cur: st.cur.push(c), escape: false, ..st }
        }
    } else if c == '\\' {
        LexState { escape: true, ..st }
    } else if c == '\'' && !st.double {
        LexState { single: true, ..st }
    } else if c == '"' {
        LexState { double: !st.double, ..st }
    } else if is_space(c) && !st.double {
        if st.cur.len() > 0 {
            LexState { tokens: st.tokens.push(st.cur), cur: seq![], ..st }
        } else {
            st
        }
    } else {
        LexState { cur: st.cur.push(c), ..st }
    }
}

/// The state reached from `st` after reading the characters of `s` in order.
pub open spec fn lex_run(st: LexState, s: Seq<char>) -> LexState
    decreases s.len(),
{
    if s.len() == 0 {
        st
    } else {
        lex_step(lex_run(st, s.drop_last()), s.last())
    }
}

/// The tokens of a finished pass: a non-empty pending token is flushed.
pub open spec fn lex_finish(st: LexState) -> Seq<Seq<char>> {
    if st.cur.len() > 0 {
        st.tokens.push(st.cur)
    } else {
        st.tokens
    }
}

/// The tokens of a command line.
pub open spec fn tokens_of(s: Seq<char>) -> Seq<Seq<char>> {
    lex_finish(lex_run(lex_start(), s))
}

/// Splits `line` into tokens: quotes and escapes are resolved, and
/// unquoted whitespace separates tokens. Never fails: an unterminated quote
/// or a trailing backslash simply ends the pass.
pub fn tokenize(line: &str) -> (r: Vec<String>)
    ensures
        views(r@) == tokens_of(line@),
{
    let cs = chars_of(line);
    let mut tokens: Vec<String> = Vec::new();
    let mut cur: Vec<char> = Vec::new();
    let mut single = false;
    let mut double = false;
    let mut escape = false;
    let mut i: usize = 0;
    while i < cs.len()
        invariant
            cs@ == line@,
            i <= cs.len(),
            ({
                let st = lex_run(lex_start(), cs@.take(i as int));
                &&& views(tokens@) == st.tokens
                &&& cur@ == st.cur
                &&& single == st.single
                &&& double == st.double
                &&& escape == st.escape
            }),
        decreases cs.len() - i,
    {
        let c = cs[i];
        assert(cs@.take(i + 1).drop_last() == cs@.take(i as int));
        if single {
            if c == '\'' {
                single = false;
            } else {
                cur.push(c);
            }
        } else if escape {
            if double && !(c == '$' || c == '`' || c == '"' || c == '\\' || c == '\n') {
                cur.push('\\');
            }
            cur.push(c);
            escape = false;
        } else if c == '\\' {
            escape = true;
        } else if c == '\'' && !double {
            single = true;
        } else if c == '"' {
            double = !double;
        } else if space_char(c) && !double {
            if cur.len() > 0 {
                let t = string_of(&cur);
                tokens.push(t);
                cur = Vec::new();
            }
        } else {
            cur.push(c);
        }
        i = i + 1;
    }
    assert(cs@.take(cs.len() as int) == cs@);
    if cur.len() > 0 {
        let t = string_of(&cur);
        tokens.push(t);
    }
    tokens
}

/// Words joined with single spaces.
pub open spec fn join_spaced(ts: Seq<Seq<char>>) -> Seq<char>
    decreases ts.len(),
{
    if ts.len() == 0 {
        seq![]
    } else if ts.len() == 1 {
        ts[0]
    } else {
        join_spaced(ts.drop_last()) + seq![' '] + ts.last()
    }
}

/// Joins the words with single spaces, as `echo` prints its arguments.
pub fn join_words(words: &Vec<String>) -> (r: String)
    ensures
        r@ == join_spaced(views(words@)),
{
    let mut r = String::new();
    let mut i: usize = 0;
    while i < words.len()
        invariant
            i <= words.len(),
            r@ == join_spaced(views(words@).take(i as int)),
        decreases words.len() - i,
    {
        assert(views(words@).take(i + 1).drop_last() == views(words@).take(i as int));
        proof {
            reveal_strlit(" ");
        }
        let ghost prev = r@;
        if i > 0 {
            r.append(" ");
        }
        r.append(words[i].as_str());
        assert(views(words@).take(i + 1).last() == words@[i as int]@);
        if i == 0 {
            assert(prev == Seq::<char>::empty());
            assert(r@ == words@[0]@);
        }
        i = i + 1;
    }
    assert(views(words@).take(words.len() as int) == views(words@));
    r
}

/// A word that reads back as itself: non-empty, with no whitespace, quote or
/// backslash in it.
pub open spec fn plain_word(w: Seq<char>) -> bool {
    &&& w.len() > 0
    &&& forall|k: int|
        0 <= k < w.len() ==> !is_space(#[trigger] w[k]) && w[k] != '\'' && w[k] != '"' && w[k]
            != '\\'
}

proof fn lemma_run_concat(st: LexState, a: Seq<char>, b: Seq<char>)
    ensures
        lex_run(st, a + b) == lex_run(lex_run(st, a), b),
    decreases b.len(),
{
    if b.len() == 0 {
        assert(a + b == a);
    } else {
        assert((a + b).drop_last() == a + b.drop_last());
        lemma_run_concat(st, a, b.drop_last());
    }
}

proof fn lemma_run_plain(st: LexState, w: Seq<char>)
    requires
        !st.single && !st.double && !st.escape,
        forall|k: int|
            0 <= k < w.len() ==> !is_space(#[trigger] w[k]) && w[k] != '\'' && w[k] != '"' && w[k]
                != '\\',
    ensures
        lex_run(st, w) == (LexState { cur: st.cur + w, ..st }),
    decreases w.len(),
{
    if w.len() == 0 {
        assert(st.cur + w == st.cur);
    } else {
        lemma_run_plain(st, w.drop_last());
        assert(st.cur + w.drop_last() + seq![w.last()] == st.cur + w);
        assert((st.cur + w.drop_last()).push(w.last()) == st.cur + w);
    }
}

proof fn lemma_run_joined(ts: Seq<Seq<char>>)
    requires
        ts.len() > 0,
        forall|k: int| 0 <= k < ts.len() ==> plain_word(#[trigger] ts[k]),
    ensures
        lex_run(lex_start(), join_spaced(ts)) == (LexState {
            tokens: ts.drop_last(),
            cur: ts.last(),
            ..lex_start()
        }),
    decreases ts.len(),
{
    if ts.len() == 1 {
        assert(plain_word(ts[0]));
        lemma_run_plain(lex_start(), ts[0]);
        assert(seq![] + ts[0] == ts[0]);
        assert(ts.drop_last() == Seq::<Seq<char>>::empty());
    } else {
        let init = ts.drop_last();
        assert forall|k: int| 0 <= k < init.len() implies plain_word(#[trigger] init[k]) by {
            assert(init[k] == ts[k]);
        }
        lemma_run_joined(init);
        let a = join_spaced(init);
        lemma_run_concat(lex_start(), a + seq![' '], ts.last());
        lemma_run_concat(lex_start(), a, seq![' ']);
        assert(seq![' '].drop_last() == Seq::<char>::empty());
        assert(init.last() == ts[ts.len() - 2]);
        assert(plain_word(ts[ts.len() - 2]));
        let mid = lex_run(lex_start(), a + seq![' ']);
        let before = lex_run(lex_start(), a);
        assert(seq![' '].last() == ' ');
        assert(lex_run(before, seq![' ']) == lex_step(lex_run(before, seq![]), ' '));
        assert(init.drop_last().push(init.last()) == init);
        assert(mid == (LexState { tokens: init, cur: seq![], ..lex_start() }));
        assert(plain_word(ts[ts.len() - 1]));
        lemma_run_plain(mid, ts.last());
        assert(seq![] + ts.last() == ts.last());
    }
}

/// Re-tokenizing plain words joined by single spaces gives the same words
/// back.
pub proof fn lemma_tokenize_joined(ts: Seq<Seq<char>>)
    requires
        forall|k: int| 0 <= k < ts.len() ==> plain_word(#[trigger] ts[k]),
    ensures
        tokens_of(join_spaced(ts)) == ts,
{
    if ts.len() > 0 {
        lemma_run_joined(ts);
        assert(plain_word(ts[ts.len() - 1]));
        assert(ts.drop_last().push(ts.last()) == ts);
    }
}

} // verus!
