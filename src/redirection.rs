//! Finds output redirections in a stage's arguments and removes them.
//!
//! The operators are `>` and `1>` (stdout, truncate), `>>` and `1>>`
//! (stdout, append), `2>` (stderr, truncate) and `2>>` (stderr, append).
//! Opening the targets is left to the caller, in the order returned, so that
//! the last redirection of each stream is the one that takes effect.
use vstd::prelude::*;
use crate::text::{chars_of, views};

verus! {

#[derive(Clone, Copy, Debug, PartialEq, Eq, Structural)]
pub enum Stream {
    Stdout,
    Stderr,
}

#[derive(Clone, Copy, Debug, PartialEq, Eq, Structural)]
pub enum WriteMode {
    Truncate,
    Append,
}

/// One redirection: which stream goes where, and how the target is opened.
#[derive(Debug)]
pub struct Redirection {
    pub stream: Stream,
    pub mode: WriteMode,
    pub target: String,
}

pub open spec fn redirection_view(r: Redirection) -> (Stream, WriteMode, Seq<char>) {
    (r.stream, r.mode, r.target@)
}

/// The stream and mode of a redirection operator, or `None` for any other
/// word.
pub open spec fn redirect_op(s: Seq<char>) -> Option<(Stream, WriteMode)> {
    if s == seq!['>'] || s == seq!['1', '>'] {
        Some((Stream::Stdout, WriteMode::Truncate))
    } else if s == seq!['>', '>'] || s == seq!['1', '>', '>'] {
        Some((Stream::Stdout, WriteMode::Append))
    } else if s == seq!['2', '>'] {
        Some((Stream::Stderr, WriteMode::Truncate))
    } else if s == seq!['2', '>', '>'] {
        Some((Stream::Stderr, WriteMode::Append))
    } else {
        None
    }
}

/// Scans the words left to right: an operator followed by another word is
/// taken out together with that word, which becomes its target; every other
/// word, a trailing operator included, is kept. The result is the kept words
/// and the redirections found, in order.
pub open spec fn scan_redirections(a: Seq<Seq<char>>) -> (Seq<Seq<char>>, Seq<(Stream, WriteMode, Seq<char>)>)
    decreases a.len(),
{
    if a.len() == 0 {
        (seq![], seq![])
    } else if redirect_op(a[0]) is Some && a.len() >= 2 {
        let rest = scan_redirections(a.skip(2));
        let op = redirect_op(a[0])->0;
        (rest.0, seq![(op.0, op.1, a[1])] + rest.1)
    } else {
        let rest = scan_redirections(a.skip(1));
        (seq![a[0]] + rest.0, rest.1)
    }
}

/// The operator that `s` spells, if any.
pub fn redirect_op_of(s: &String) -> (r: Option<(Stream, WriteMode)>)
    ensures
        r == redirect_op(s@),
{
    let cs = chars_of(s.as_str());
    let n = cs.len();
    let r = if n == 1 && cs[0] == '>' {
        Some((Stream::Stdout, WriteMode::Truncate))
    } else if n == 2 && cs[0] == '1' && cs[1] == '>' {
        Some((Stream::Stdout, WriteMode::Truncate))
    } else if n == 2 && cs[0] == '>' && cs[1] == '>' {
        Some((Stream::Stdout, WriteMode::Append))
    } else if n == 3 && cs[0] == '1' && cs[1] == '>' && cs[2] == '>' {
        Some((Stream::Stdout, WriteMode::Append))
    } else if n == 2 && cs[0] == '2' && cs[1] == '>' {
        Some((Stream::Stderr, WriteMode::Truncate))
    } else if n == 3 && cs[0] == '2' && cs[1] == '>' && cs[2] == '>' {
        Some((Stream::Stderr, WriteMode::Append))
    } else {
        None
    };
    proof {
        if n == 1 && cs@[0] == '>' {
            assert(s@ == seq!['>']);
        } else if n == 2 && cs@[0] == '1' && cs@[1] == '>' {
            assert(s@ == seq!['1', '>']);
        } else if n == 2 && cs@[0] == '>' && cs@[1] == '>' {
            assert(s@ == seq!['>', '>']);
        } else if n == 3 && cs@[0] == '1' && cs@[1] == '>' && cs@[2] == '>' {
            assert(s@ == seq!['1', '>', '>']);
        } else if n == 2 && cs@[0] == '2' && cs@[1] == '>' {
            assert(s@ == seq!['2', '>']);
        } else if n == 3 && cs@[0] == '2' && cs@[1] == '>' && cs@[2] == '>' {
            assert(s@ == seq!['2', '>', '>']);
        } else {
            assert(s@ != seq!['>']);
            assert(s@ != seq!['1', '>']);
            assert(s@ != seq!['>', '>']);
            assert(s@ != seq!['1', '>', '>']);
            assert(s@ != seq!['2', '>']);
            assert(s@ != seq!['2', '>', '>']);
        }
    }
    r
}

/// Takes the redirections out of `args`, leaving the residual argv, and
/// returns them in the order they appeared.
pub fn parse_redirection(args: &mut Vec<String>) -> (r: Vec<Redirection>)
    ensures
        views(final(args)@) == scan_redirections(views(old(args)@)).0,
        r@.map_values(|x: Redirection| redirection_view(x)) == scan_redirections(
            views(old(args)@),
        ).1,
{
    let ghost orig = views(args@);
    let mut found: Vec<Redirection> = Vec::new();
    let mut i: usize = 0;
    assert(views(args@).skip(0) == views(args@));
    assert(views(args@).take(0) + scan_redirections(views(args@)).0 == scan_redirections(
        views(args@),
    ).0);
    assert(found@.map_values(|x: Redirection| redirection_view(x)) + scan_redirections(
        views(args@),
    ).1 == scan_redirections(views(args@)).1);
    while i < args.len()
        invariant
            i <= args.len(),
            scan_redirections(orig) == (
                views(args@).take(i as int) + scan_redirections(views(args@).skip(i as int)).0,
                found@.map_values(|x: Redirection| redirection_view(x)) + scan_redirections(
                    views(args@).skip(i as int),
                ).1,
            ),
        decreases args.len() - i,
    {
        let ghost a = views(args@);
        let ghost rest = a.skip(i as int);
        let op = redirect_op_of(&args[i]);
        assert(a[i as int] == args@[i as int]@);
        match op {
            Some((stream, mode)) if i + 1 < args.len() => {
                assert(rest.skip(2) == a.skip(i + 2));
                let _ = args.remove(i);
                let target = args.remove(i);
                assert(views(args@) == a.take(i as int) + a.skip(i + 2));
                assert(views(args@).take(i as int) == a.take(i as int));
                assert(views(args@).skip(i as int) == a.skip(i + 2));
                let ghost before = found@.map_values(|x: Redirection| redirection_view(x));
                found.push(Redirection { stream, mode, target });
                assert(found@.map_values(|x: Redirection| redirection_view(x)) == before.push(
                    (stream, mode, a[i + 1]),
                ));
                assert(before.push((stream, mode, a[i + 1])) + scan_redirections(a.skip(i + 2)).1
                    == before + (seq![(stream, mode, a[i + 1])] + scan_redirections(
                    a.skip(i + 2),
                ).1));
            },
            _ => {
                assert(rest.skip(1) == a.skip(i + 1));
                assert(a.take(i + 1) == a.take(i as int) + seq![a[i as int]]);
                assert(a.take(i as int) + (seq![a[i as int]] + scan_redirections(a.skip(i + 1)).0)
                    == a.take(i + 1) + scan_redirections(a.skip(i + 1)).0);
                i = i + 1;
            },
        }
    }
    assert(views(args@).skip(i as int) == Seq::<Seq<char>>::empty());
    assert(views(args@).take(i as int) == views(args@));
    assert(found@.map_values(|x: Redirection| redirection_view(x)) + seq![] == found@.map_values(
        |x: Redirection| redirection_view(x),
    ));
    assert(views(args@) + seq![] == views(args@));
    found
}

} // verus!
