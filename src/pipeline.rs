//! Splits a command line into pipeline stages and decides how each stage's
//! standard streams are wired.
//!
//! A `|` separates stages when it stands outside quotes and is not escaped.
//! Each stage's text is then tokenized and its redirections are taken out.
use vstd::prelude::*;
use crate::text::{chars_of, string_of, views};
use crate::lexer::{tokenize, tokens_of};
use crate::redirection::{parse_redirection, redirection_view, scan_redirections, Redirection, Stream, WriteMode};

verus! {

/// The splitter's state after some prefix of the line.
pub struct SplitState {
    pub stages: Seq<Seq<char>>,
    pub cur: Seq<char>,
    pub single: bool,
    pub double: bool,
    pub escape: bool,
}

pub open spec fn split_start() -> SplitState {
    SplitState { stages: seq![], cur: seq![], single: false, double: false, escape: false }
}

/// The effect of one character. Every character but a separating `|` is
/// kept in the stage's text; quotes and escapes are tracked as the lexer
/// tracks them.
pub open spec fn split_step(st: SplitState, c: char) -> SplitState {
    if st.single {
        SplitState { cur: st.cur.push(c), single: c != '\'', ..st }
    } else if st.escape {
        SplitState { cur: st.cur.push(c), escape: false, ..st }
    } else if c == '\\' {
        SplitState { cur: st.cur.push(c), escape: true, ..st }
    } else if c == '\'' && !st.double {
        SplitState { cur: st.cur.push(c), single: true, ..st }
    } else if c == '"' {
        SplitState { cur: st.cur.push(c), double: !st.double, ..st }
    } else if c == '|' && !st.double {
        SplitState { stages: st.stages.push(st.cur), cur: seq![], ..st }
    } else {
        SplitState { cur: st.cur.push(c), ..st }
    }
}

pub open spec fn split_run(s: Seq<char>) -> SplitState
    decreases s.len(),
{
    if s.len() == 0 {
        split_start()
    } else {
        split_step(split_run(s.drop_last()), s.last())
    }
}

/// The texts of the stages of a line: one more than its separators.
pub open spec fn stages_of(s: Seq<char>) -> Seq<Seq<char>> {
    split_run(s).stages.push(split_run(s).cur)
}

/// Splits `line` at every `|` outside quotes and not escaped.
pub fn split_stages(line: &str) -> (r: Vec<String>)
    ensures
        views(r@) == stages_of(line@),
        r@.len() >= 1,
{
    let cs = chars_of(line);
    let mut stages: Vec<String> = Vec::new();
    let mut cur: Vec<char> = Vec::new();
    let mut single = false;
    let mut double = false;
    let mut escape = false;
    let mut i: usize = 0;
    while i < cs.len()
        invariant
            cs@ == line@,
            i <= cs.len(),
            ({
                let st = split_run(cs@.take(i as int));
                &&& views(stages@) == st.stages
                &&& cur@ == st.cur
                &&& single == st.single
                &&& double == st.double
                &&& escape == st.escape
            }),
        decreases cs.len() - i,
    {
        let c = cs[i];
        assert(cs@.take(i + 1).drop_last() == cs@.take(i as int));
        if single {
            cur.push(c);
            single = c != '\'';
        } else if escape {
            cur.push(c);
            escape = false;
        } else if c == '\\' {
            cur.push(c);
            escape = true;
        } else if c == '\'' && !double {
            cur.push(c);
            single = true;
        } else if c == '"' {
            cur.push(c);
            double = !double;
        } else if c == '|' && !double {
            stages.push(string_of(&cur));
            cur = Vec::new();
        } else {
            cur.push(c);
        }
        i = i + 1;
    }
    assert(cs@.take(cs.len() as int) == cs@);
    stages.push(string_of(&cur));
    stages
}

/// One command of a pipeline: its argv and its redirections.
#[derive(Debug)]
pub struct Stage {
    pub argv: Vec<String>,
    pub redirects: Vec<Redirection>,
}

/// The argv and redirections that a stage's text gives.
pub open spec fn stage_matches(st: Stage, text: Seq<char>) -> bool {
    &&& views(st.argv@) == scan_redirections(tokens_of(text)).0
    &&& st.redirects@.map_values(|x: Redirection| redirection_view(x)) == scan_redirections(
        tokens_of(text),
    ).1
}

/// Tokenizes one stage's text and takes its redirections out.
pub fn plan_stage(text: &str) -> (r: Stage)
    ensures
        stage_matches(r, text@),
{
    let mut argv = tokenize(text);
    let redirects = parse_redirection(&mut argv);
    Stage { argv, redirects }
}

/// The stages of a command line, in order.
pub fn plan_pipeline(line: &str) -> (r: Vec<Stage>)
    ensures
        r@.len() == stages_of(line@).len(),
        forall|i: int| 0 <= i < r@.len() ==> stage_matches(#[trigger] r@[i], stages_of(line@)[i]),
{
    let texts = split_stages(line);
    let mut r: Vec<Stage> = Vec::new();
    let mut i: usize = 0;
    while i < texts.len()
        invariant
            i <= texts.len(),
            views(texts@) == stages_of(line@),
            r@.len() == i,
            forall|j: int| 0 <= j < i ==> stage_matches(#[trigger] r@[j], stages_of(line@)[j]),
        decreases texts.len() - i,
    {
        assert(views(texts@)[i as int] == texts@[i as int]@);
        r.push(plan_stage(texts[i].as_str()));
        i = i + 1;
    }
    r
}

/// Where a stage reads its standard input from.
#[derive(Clone, Copy, Debug, PartialEq, Eq, Structural)]
pub enum Input {
    Inherit,
    PreviousPipe,
}

/// Where a stage writes one of its output streams.
#[derive(Clone, Copy, Debug, PartialEq, Eq, Structural)]
pub enum Output {
    Inherit,
    NextPipe,
    /// The redirection at this index of the stage's list.
    File(usize),
}

/// The index of the last redirection of `stream`, which is the one that
/// takes effect.
pub open spec fn last_for(rs: Seq<(Stream, WriteMode, Seq<char>)>, stream: Stream) -> Option<int>
    decreases rs.len(),
{
    if rs.len() == 0 {
        None
    } else if rs.last().0 == stream {
        Some(rs.len() - 1)
    } else {
        last_for(rs.drop_last(), stream)
    }
}

/// The index of the last redirection of `stream` in `rs`.
pub fn last_redirect(rs: &Vec<Redirection>, stream: Stream) -> (r: Option<usize>)
    ensures
        r matches Some(k) ==> last_for(rs@.map_values(|x: Redirection| redirection_view(x)), stream) == Some(k as int),
        r is None ==> last_for(rs@.map_values(|x: Redirection| redirection_view(x)), stream) is None,
{
    let ghost v = rs@.map_values(|x: Redirection| redirection_view(x));
    let mut i: usize = rs.len();
    assert(v.take(i as int) == v);
    while i > 0
        invariant
            i <= rs@.len(),
            v == rs@.map_values(|x: Redirection| redirection_view(x)),
            last_for(v, stream) == last_for(v.take(i as int), stream),
        decreases i,
    {
        let ghost t = v.take(i as int);
        assert(t.drop_last() == v.take(i - 1));
        assert(t.last() == redirection_view(rs@[i - 1]));
        if rs[i - 1].stream == stream {
            return Some(i - 1);
        }
        i = i - 1;
    }
    assert(v.take(0) == Seq::<(Stream, WriteMode, Seq<char>)>::empty());
    None
}

/// How stage `i` of `n` is wired: stage 0 reads the shell's input and each
/// later stage the pipe before it; standard output goes to the stage's own
/// redirection if it has one, else to the next pipe, and the last stage's to
/// the shell's output; standard error goes to its redirection or is
/// inherited.
pub fn stage_wiring(i: usize, n: usize, redirects: &Vec<Redirection>) -> (r: (Input, Output, Output))
    requires
        i < n,
    ensures
        r.0 == (if i == 0 { Input::Inherit } else { Input::PreviousPipe }),
        ({
            let v = redirects@.map_values(|x: Redirection| redirection_view(x));
            &&& r.1 == match last_for(v, Stream::Stdout) {
                Some(k) => Output::File(k as usize),
                None => if i + 1 == n { Output::Inherit } else { Output::NextPipe },
            }
            &&& r.2 == match last_for(v, Stream::Stderr) {
                Some(k) => Output::File(k as usize),
                None => Output::Inherit,
            }
        }),
{
    let input = if i == 0 { Input::Inherit } else { Input::PreviousPipe };
    let out = match last_redirect(redirects, Stream::Stdout) {
        Some(k) => Output::File(k),
        None => if i + 1 == n { Output::Inherit } else { Output::NextPipe },
    };
    let err = match last_redirect(redirects, Stream::Stderr) {
        Some(k) => Output::File(k),
        None => Output::Inherit,
    };
    (input, out, err)
}

} // verus!
