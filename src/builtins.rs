//! The builtin verbs and the decisions they make before any I/O.
use vstd::prelude::*;
use crate::text::{chars_of, string_of, views};

verus! {

/// The verb that a command's first word names; `Run` for any other word.
#[derive(Clone, Copy, Debug, PartialEq, Eq, Structural)]
pub enum Cmd {
    Exit,
    Echo,
    Type,
    Run,
    Pwd,
    Cd,
    History,
}

pub open spec fn cmd_of(s: Seq<char>) -> Cmd {
    if s == "exit"@ {
        Cmd::Exit
    } else if s == "echo"@ {
        Cmd::Echo
    } else if s == "type"@ {
        Cmd::Type
    } else if s == "pwd"@ {
        Cmd::Pwd
    } else if s == "cd"@ {
        Cmd::Cd
    } else if s == "history"@ {
        Cmd::History
    } else {
        Cmd::Run
    }
}

/// Whether two strings hold the same characters.
pub fn same_text(a: &str, b: &str) -> (r: bool)
    ensures
        r == (a@ == b@),
{
    let x = chars_of(a);
    let y = chars_of(b);
    if x.len() != y.len() {
        return false;
    }
    let mut i: usize = 0;
    while i < x.len()
        invariant
            x@ == a@,
            y@ == b@,
            x@.len() == y@.len(),
            i <= x@.len(),
            forall|j: int| 0 <= j < i ==> x@[j] == y@[j],
        decreases x.len() - i,
    {
        if x[i] != y[i] {
            assert(x@[i as int] != y@[i as int]);
            return false;
        }
        i = i + 1;
    }
    assert(x@ == y@);
    true
}

impl Cmd {
    /// The verb named by `s`, matched exactly.
    pub fn parse(s: &str) -> (r: Cmd)
        ensures
            r == cmd_of(s@),
    {
        if same_text(s, "exit") {
            Cmd::Exit
        } else if same_text(s, "echo") {
            Cmd::Echo
        } else if same_text(s, "type") {
            Cmd::Type
        } else if same_text(s, "pwd") {
            Cmd::Pwd
        } else if same_text(s, "cd") {
            Cmd::Cd
        } else if same_text(s, "history") {
            Cmd::History
        } else {
            Cmd::Run
        }
    }
}

/// Whether `name` is one of the shell's builtins.
pub fn is_builtin(name: &str) -> (r: bool)
    ensures
        r == (cmd_of(name@) != Cmd::Run),
{
    !matches!(Cmd::parse(name), Cmd::Run)
}

pub open spec fn is_digit(c: char) -> bool {
    '0' <= c <= '9'
}

/// The value of a string of decimal digits.
pub open spec fn decimal_value(s: Seq<char>) -> nat
    decreases s.len(),
{
    if s.len() == 0 {
        0
    } else {
        decimal_value(s.drop_last()) * 10 + (s.last() as nat - '0' as nat) as nat
    }
}

pub open spec fn all_digits(s: Seq<char>) -> bool {
    forall|k: int| 0 <= k < s.len() ==> is_digit(#[trigger] s[k])
}

proof fn lemma_decimal_grows(s: Seq<char>, k: int)
    requires
        all_digits(s),
        0 <= k <= s.len(),
    ensures
        decimal_value(s.take(k)) <= decimal_value(s),
    decreases s.len() - k,
{
    if k < s.len() {
        let t = s.take(k + 1);
        assert(t.drop_last() == s.take(k));
        assert(is_digit(s[k]));
        lemma_decimal_grows(s, k + 1);
    } else {
        assert(s.take(k) == s);
    }
}

/// A non-empty run of decimal digits whose value fits a `usize`, read as a
/// number; `None` for anything else.
pub fn parse_count(s: &str) -> (r: Option<usize>)
    ensures
        r == (if s@.len() > 0 && all_digits(s@) && decimal_value(s@) <= usize::MAX {
            Some(decimal_value(s@) as usize)
        } else {
            None::<usize>
        }),
{
    let cs = chars_of(s);
    if cs.len() == 0 {
        return None;
    }
    let mut v: usize = 0;
    let mut i: usize = 0;
    while i < cs.len()
        invariant
            cs@ == s@,
            i <= cs@.len(),
            all_digits(cs@.take(i as int)),
            v == decimal_value(cs@.take(i as int)),
        decreases cs.len() - i,
    {
        let c = cs[i];
        assert(cs@.take(i + 1).drop_last() == cs@.take(i as int));
        if !('0' <= c && c <= '9') {
            assert(!all_digits(s@));
            return None;
        }
        let d = (c as u32 - '0' as u32) as usize;
        match v.checked_mul(10) {
            Some(w) => match w.checked_add(d) {
                Some(x) => {
                    v = x;
                },
                None => {
                    proof {
                        if all_digits(s@) {
                            lemma_decimal_grows(s@, i + 1);
                        }
                    }
                    return None;
                },
            },
            None => {
                proof {
                    if all_digits(s@) {
                        lemma_decimal_grows(s@, i + 1);
                    }
                }
                return None;
            },
        }
        i = i + 1;
    }
    assert(cs@.take(cs.len() as int) == cs@);
    Some(v)
}

/// What the `history` builtin was asked for.
#[derive(Debug, PartialEq, Eq)]
pub enum HistoryRequest {
    /// List every entry.
    All,
    /// List the last entries, this many of them.
    Last(usize),
    /// Append the lines of this file.
    Read(String),
    /// Write every entry to this file.
    Write(String),
    /// Arguments that ask for none of these.
    Invalid,
}

/// The request that the arguments after `history` make: none lists
/// everything, a count lists that many of the last entries, and `-r <path>`
/// and `-w <path>` read and write a history file.
pub fn parse_history_args(args: &Vec<String>) -> (r: HistoryRequest)
    ensures
        args@.len() == 0 ==> r == HistoryRequest::All,
        args@.len() > 0 ==> {
            let a = args@[0]@;
            if a.len() > 0 && all_digits(a) && decimal_value(a) <= usize::MAX {
                r == HistoryRequest::Last(decimal_value(a) as usize)
            } else if a == "-r"@ && args@.len() >= 2 {
                r matches HistoryRequest::Read(p) && p@ == args@[1]@
            } else if a == "-w"@ && args@.len() >= 2 {
                r matches HistoryRequest::Write(p) && p@ == args@[1]@
            } else {
                r == HistoryRequest::Invalid
            }
        },
{
    if args.len() == 0 {
        return HistoryRequest::All;
    }
    let first = args[0].as_str();
    match parse_count(first) {
        Some(n) => HistoryRequest::Last(n),
        None => {
            if args.len() >= 2 && same_text(first, "-r") {
                HistoryRequest::Read(args[1].clone())
            } else if args.len() >= 2 && same_text(first, "-w") {
                HistoryRequest::Write(args[1].clone())
            } else {
                HistoryRequest::Invalid
            }
        },
    }
}

/// Where `cd` goes.
#[derive(Debug, PartialEq, Eq)]
pub enum CdTarget {
    Home,
    Path(String),
}

/// The target of `cd`: the home directory for `~` or no argument, else the
/// argument as a path.
pub fn cd_target(args: &Vec<String>) -> (r: CdTarget)
    ensures
        (args@.len() == 0 || args@[0]@ == "~"@) ==> r == CdTarget::Home,
        (args@.len() > 0 && args@[0]@ != "~"@) ==> (r matches CdTarget::Path(p) && p@ == args@[0]@),
{
    if args.len() == 0 || same_text(args[0].as_str(), "~") {
        CdTarget::Home
    } else {
        CdTarget::Path(args[0].clone())
    }
}

/// `a` followed by `b`.
fn concat2(a: &str, b: &str) -> (r: String)
    ensures
        r@ == a@ + b@,
{
    let mut r = String::new();
    r.append(a);
    r.append(b);
    r
}

/// `a` followed by `b` and `c`.
fn concat3(a: &str, b: &str, c: &str) -> (r: String)
    ensures
        r@ == a@ + b@ + c@,
{
    let mut r = String::new();
    r.append(a);
    r.append(b);
    r.append(c);
    r
}

/// The diagnostic for a `cd` to a path that does not exist.
pub fn cd_error_message(path: &str) -> (r: String)
    ensures
        r@ == "cd: "@ + path@ + ": No such file or directory"@,
{
    concat3("cd: ", path, ": No such file or directory")
}

/// The diagnostic for a program that could not be started.
pub fn not_found_message(name: &str) -> (r: String)
    ensures
        r@ == name@ + ": command not found"@,
{
    concat2(name, ": command not found")
}

/// What `type` prints for `name`, given where a search of the path found it.
pub fn type_report(name: &str, found: Option<&str>) -> (r: String)
    ensures
        cmd_of(name@) != Cmd::Run ==> r@ == name@ + " is a shell builtin"@,
        cmd_of(name@) == Cmd::Run ==> match found {
            Some(p) => r@ == name@ + " is "@ + p@,
            None => r@ == name@ + ": not found"@,
        },
{
    if is_builtin(name) {
        concat2(name, " is a shell builtin")
    } else {
        match found {
            Some(p) => concat3(name, " is ", p),
            None => concat2(name, ": not found"),
        }
    }
}

/// The directories of a `PATH` value, split at each `:`.
pub open spec fn path_dirs_run(s: Seq<char>) -> (Seq<Seq<char>>, Seq<char>)
    decreases s.len(),
{
    if s.len() == 0 {
        (seq![], seq![])
    } else {
        let (done, cur) = path_dirs_run(s.drop_last());
        if s.last() == ':' {
            (done.push(cur), seq![])
        } else {
            (done, cur.push(s.last()))
        }
    }
}

pub open spec fn path_dirs(s: Seq<char>) -> Seq<Seq<char>> {
    path_dirs_run(s).0.push(path_dirs_run(s).1)
}

/// Splits a `PATH` value at each `:`, keeping the directories in order.
pub fn split_path(path_var: &str) -> (r: Vec<String>)
    ensures
        views(r@) == path_dirs(path_var@),
{
    let cs = chars_of(path_var);
    let mut done: Vec<String> = Vec::new();
    let mut cur: Vec<char> = Vec::new();
    let mut i: usize = 0;
    while i < cs.len()
        invariant
            cs@ == path_var@,
            i <= cs.len(),
            views(done@) == path_dirs_run(cs@.take(i as int)).0,
            cur@ == path_dirs_run(cs@.take(i as int)).1,
        decreases cs.len() - i,
    {
        assert(cs@.take(i + 1).drop_last() == cs@.take(i as int));
        if cs[i] == ':' {
            done.push(string_of(&cur));
            cur = Vec::new();
        } else {
            cur.push(cs[i]);
        }
        i = i + 1;
    }
    assert(cs@.take(cs.len() as int) == cs@);
    done.push(string_of(&cur));
    done
}

/// The path of `name` inside directory `dir`.
pub fn path_in(dir: &str, name: &str) -> (r: String)
    ensures
        r@ == dir@ + "/"@ + name@,
{
    concat3(dir, "/", name)
}

} // verus!
