//! Prefix completion of the command word.
use vstd::prelude::*;
use crate::text::{chars_of, is_space, space_char, string_of, views};

verus! {

/// `p` is a prefix of every word of `cs`.
pub open spec fn is_common_prefix(p: Seq<char>, cs: Seq<Seq<char>>) -> bool {
    forall|j: int| 0 <= j < cs.len() ==> p.is_prefix_of(#[trigger] cs[j])
}

/// The character sequences of the given strings.
fn char_vecs(words: &Vec<String>) -> (r: Vec<Vec<char>>)
    ensures
        r@.len() == words@.len(),
        forall|j: int| 0 <= j < r@.len() ==> (#[trigger] r@[j])@ == words@[j]@,
{
    let mut r: Vec<Vec<char>> = Vec::new();
    let mut i: usize = 0;
    while i < words.len()
        invariant
            i <= words.len(),
            r@.len() == i,
            forall|j: int| 0 <= j < i ==> (#[trigger] r@[j])@ == words@[j]@,
        decreases words.len() - i,
    {
        r.push(chars_of(words[i].as_str()));
        i = i + 1;
    }
    r
}

/// Whether every word has a `k`-th character and all of them equal the first
/// word's.
fn all_agree_at(vs: &Vec<Vec<char>>, k: usize) -> (r: bool)
    requires
        vs@.len() > 0,
        k < vs@[0]@.len(),
    ensures
        r == forall|j: int|
            0 <= j < vs@.len() ==> k < (#[trigger] vs@[j])@.len() && vs@[j]@[k as int]
                == vs@[0]@[k as int],
{
    let c = vs[0][k];
    let mut j: usize = 1;
    while j < vs.len()
        invariant
            1 <= j <= vs@.len(),
            c == vs@[0]@[k as int],
            k < vs@[0]@.len(),
            forall|i: int|
                0 <= i < j ==> k < (#[trigger] vs@[i])@.len() && vs@[i]@[k as int] == c,
        decreases vs.len() - j,
    {
        if k >= vs[j].len() || vs[j][k] != c {
            return false;
        }
        j = j + 1;
    }
    true
}

/// The longest common prefix of the words; empty when there are none.
pub fn lcp(words: &Vec<String>) -> (r: String)
    ensures
        words@.len() == 0 ==> r@ == Seq::<char>::empty(),
        words@.len() > 0 ==> is_common_prefix(r@, views(words@)),
        words@.len() > 0 ==> forall|p: Seq<char>|
            is_common_prefix(p, views(words@)) ==> p.len() <= r@.len(),
{
    if words.len() == 0 {
        return String::new();
    }
    let vs = char_vecs(words);
    let ghost ws = views(words@);
    let mut k: usize = 0;
    let mut prefix: Vec<char> = Vec::new();
    while k < vs[0].len() && all_agree_at(&vs, k)
        invariant
            vs@.len() == ws.len() > 0,
            forall|j: int| 0 <= j < vs@.len() ==> (#[trigger] vs@[j])@ == ws[j],
            k <= vs@[0]@.len(),
            prefix@ == vs@[0]@.take(k as int),
            is_common_prefix(prefix@, ws),
        decreases vs@[0]@.len() - k,
    {
        prefix.push(vs[0][k]);
        assert forall|j: int| 0 <= j < ws.len() implies prefix@.is_prefix_of(#[trigger] ws[j]) by {
            assert(vs@[j]@ == ws[j]);
            assert(vs@[0]@.take(k as int).is_prefix_of(ws[j]));
            assert(k < vs@[j]@.len() && vs@[j]@[k as int] == vs@[0]@[k as int]);
        }
        k = k + 1;
    }
    assert forall|p: Seq<char>| is_common_prefix(p, ws) implies p.len() <= prefix@.len() by {
        if p.len() > k {
            assert(p.is_prefix_of(ws[0]));
            assert forall|j: int| 0 <= j < vs@.len() implies k < (#[trigger] vs@[j])@.len()
                && vs@[j]@[k as int] == vs@[0]@[k as int] by {
                assert(p.is_prefix_of(ws[j]));
                assert(vs@[j]@ == ws[j]);
                assert(p[k as int] == ws[j][k as int]);
            }
            assert(false);
        }
    }
    string_of(&prefix)
}

/// Lexicographic order on character sequences: by the first differing
/// character, and a proper prefix first.
pub open spec fn lex_lt(a: Seq<char>, b: Seq<char>) -> bool
    decreases a.len(),
{
    if a.len() == 0 {
        b.len() > 0
    } else if b.len() == 0 {
        false
    } else if a[0] != b[0] {
        a[0] < b[0]
    } else {
        lex_lt(a.drop_first(), b.drop_first())
    }
}

/// Every word is before every later one: sorted, with no duplicates.
pub open spec fn strictly_sorted(s: Seq<Seq<char>>) -> bool {
    forall|i: int, j: int| 0 <= i < j < s.len() ==> lex_lt(#[trigger] s[i], #[trigger] s[j])
}

pub proof fn lemma_lex_irreflexive(a: Seq<char>)
    ensures
        !lex_lt(a, a),
    decreases a.len(),
{
    if a.len() > 0 {
        lemma_lex_irreflexive(a.drop_first());
    }
}

pub proof fn lemma_lex_total(a: Seq<char>, b: Seq<char>)
    ensures
        a == b || lex_lt(a, b) || lex_lt(b, a),
    decreases a.len(),
{
    if a.len() > 0 && b.len() > 0 && a[0] == b[0] {
        lemma_lex_total(a.drop_first(), b.drop_first());
        if a.drop_first() == b.drop_first() {
            assert(a == seq![a[0]] + a.drop_first());
            assert(b == seq![b[0]] + b.drop_first());
        }
    } else if a.len() == 0 && b.len() == 0 {
        assert(a == b);
    }
}

pub proof fn lemma_lex_transitive(a: Seq<char>, b: Seq<char>, c: Seq<char>)
    requires
        lex_lt(a, b),
        lex_lt(b, c),
    ensures
        lex_lt(a, c),
    decreases a.len(),
{
    if a.len() > 0 && b.len() > 0 && c.len() > 0 && a[0] == b[0] && b[0] == c[0] {
        lemma_lex_transitive(a.drop_first(), b.drop_first(), c.drop_first());
    }
}

/// Whether `a` comes before `b` in lexicographic order.
fn less_than(a: &Vec<char>, b: &Vec<char>) -> (r: bool)
    ensures
        r == lex_lt(a@, b@),
{
    let mut i: usize = 0;
    assert(a@.skip(0) == a@ && b@.skip(0) == b@);
    while i < a.len() && i < b.len() && a[i] == b[i]
        invariant
            i <= a@.len(),
            i <= b@.len(),
            lex_lt(a@, b@) == lex_lt(a@.skip(i as int), b@.skip(i as int)),
        decreases a.len() - i,
    {
        assert(a@.skip(i + 1) == a@.skip(i as int).drop_first());
        assert(b@.skip(i + 1) == b@.skip(i as int).drop_first());
        i = i + 1;
    }
    if i == a.len() {
        i < b.len()
    } else if i == b.len() {
        false
    } else {
        a[i] < b[i]
    }
}

/// Whether `p` is a prefix of `c`.
fn starts_with(c: &Vec<char>, p: &Vec<char>) -> (r: bool)
    ensures
        r == p@.is_prefix_of(c@),
{
    if p.len() > c.len() {
        return false;
    }
    let mut i: usize = 0;
    while i < p.len()
        invariant
            p@.len() <= c@.len(),
            i <= p@.len(),
            forall|k: int| 0 <= k < i ==> p@[k] == c@[k],
        decreases p.len() - i,
    {
        if p[i] != c[i] {
            return false;
        }
        i = i + 1;
    }
    assert(c@.take(p@.len() as int) == p@);
    true
}

/// Adds `x` to a strictly sorted list, unless it is already there.
fn insert_sorted(v: &mut Vec<String>, x: String)
    requires
        strictly_sorted(views(old(v)@)),
    ensures
        strictly_sorted(views(final(v)@)),
        forall|y: Seq<char>|
            views(final(v)@).contains(y) <==> (views(old(v)@).contains(y) || y == x@),
{
    let xc = chars_of(x.as_str());
    let ghost w = views(v@);
    let mut i: usize = 0;
    while i < v.len() && less_than(&chars_of(v[i].as_str()), &xc)
        invariant
            w == views(v@),
            xc@ == x@,
            i <= v@.len(),
            forall|k: int| 0 <= k < i ==> lex_lt(#[trigger] w[k], x@),
        decreases v.len() - i,
    {
        i = i + 1;
    }
    if i < v.len() && crate::builtins::same_text(v[i].as_str(), x.as_str()) {
        assert(w[i as int] == x@);
        assert(w.contains(x@));
        return;
    }
    proof {
        if i < w.len() {
            lemma_lex_total(w[i as int], x@);
        }
        assert forall|k: int| i <= k < w.len() implies lex_lt(x@, #[trigger] w[k]) by {
            if k > i {
                lemma_lex_transitive(x@, w[i as int], w[k]);
            }
        }
    }
    v.insert(i, x);
    let ghost nw = w.insert(i as int, x@);
    assert(views(v@) == nw);
    assert(nw.len() == w.len() + 1);
    assert forall|k: int| 0 <= k < nw.len() implies #[trigger] nw[k] == (if k < i {
        w[k]
    } else if k == i {
        x@
    } else {
        w[k - 1]
    }) by {}
    assert forall|y: Seq<char>| nw.contains(y) <==> (w.contains(y) || y == x@) by {
        if nw.contains(y) {
            let k = choose|k: int| 0 <= k < nw.len() && nw[k] == y;
            if k < i {
                assert(w[k] == y);
            } else if k > i {
                assert(w[k - 1] == y);
            }
        }
        if w.contains(y) {
            let k = choose|k: int| 0 <= k < w.len() && w[k] == y;
            if k < i {
                assert(nw[k] == y);
            } else {
                assert(nw[k + 1] == y);
            }
        }
        if y == x@ {
            assert(nw[i as int] == y);
        }
    }
    assert forall|a: int, b: int| 0 <= a < b < nw.len() implies lex_lt(
        #[trigger] nw[a],
        #[trigger] nw[b],
    ) by {
        if b < i {
        } else if b == i {
        } else if a < i {
            lemma_lex_transitive(w[a], x@, w[b - 1]);
        } else if a == i {
        } else {
        }
    }
}

/// The builtin names, which are always candidates.
pub open spec fn builtin_list() -> Seq<Seq<char>> {
    seq!["cd"@, "echo"@, "exit"@, "history"@, "pwd"@, "type"@]
}

fn builtin_strings() -> (r: Vec<String>)
    ensures
        views(r@) == builtin_list(),
{
    let mut r: Vec<String> = Vec::new();
    let names = ["cd", "echo", "exit", "history", "pwd", "type"];
    let mut i: usize = 0;
    while i < 6
        invariant
            i <= 6,
            names@ == seq!["cd", "echo", "exit", "history", "pwd", "type"],
            views(r@) == builtin_list().take(i as int),
        decreases 6 - i,
    {
        let mut s = String::new();
        s.append(names[i]);
        let ghost before = r@;
        r.push(s);
        assert(views(before.push(s)) == views(before).push(s@));
        assert(builtin_list().take(i + 1) == builtin_list().take(i as int).push(names@[i as int]@));
        i = i + 1;
    }
    assert(builtin_list().take(6) == builtin_list());
    r
}

/// A completion candidate for `prefix`: a builtin name or one of the
/// executable names found on the search path, starting with `prefix`.
pub open spec fn is_candidate(prefix: Seq<char>, names: Seq<Seq<char>>, c: Seq<char>) -> bool {
    &&& prefix.is_prefix_of(c)
    &&& (builtin_list().contains(c) || names.contains(c))
}

/// The candidates for completing `buffer` as a command word, sorted and
/// without duplicates, given the executable names found on the search path.
/// A buffer with whitespace in it has none.
pub fn completion_candidates(buffer: &str, path_names: &Vec<String>) -> (r: Vec<String>)
    ensures
        (exists|k: int| 0 <= k < buffer@.len() && is_space(#[trigger] buffer@[k])) ==> r@.len()
            == 0,
        (forall|k: int| 0 <= k < buffer@.len() ==> !is_space(#[trigger] buffer@[k])) ==> {
            &&& strictly_sorted(views(r@))
            &&& forall|c: Seq<char>|
                views(r@).contains(c) <==> is_candidate(buffer@, views(path_names@), c)
        },
{
    let bc = chars_of(buffer);
    let mut i: usize = 0;
    while i < bc.len()
        invariant
            bc@ == buffer@,
            i <= bc@.len(),
            forall|k: int| 0 <= k < i ==> !is_space(#[trigger] bc@[k]),
        decreases bc.len() - i,
    {
        if space_char(bc[i]) {
            return Vec::new();
        }
        i = i + 1;
    }
    let builtins = builtin_strings();
    assert(builtin_list().len() == 6);
    assert(views(builtins@).len() == builtins@.len());
    let mut r: Vec<String> = Vec::new();
    let mut j: usize = 0;
    while j < 6
        invariant
            bc@ == buffer@,
            views(builtins@) == builtin_list(),
            builtins@.len() == 6,
            j <= 6,
            strictly_sorted(views(r@)),
            forall|c: Seq<char>|
                views(r@).contains(c) <==> (exists|k: int|
                    0 <= k < j && #[trigger] builtin_list()[k] == c && buffer@.is_prefix_of(c)),
        decreases 6 - j,
    {
        assert(views(builtins@)[j as int] == builtins@[j as int]@);
        if starts_with(&chars_of(builtins[j].as_str()), &bc) {
            insert_sorted(&mut r, builtins[j].clone());
        }
        j = j + 1;
    }
    let mut m: usize = 0;
    while m < path_names.len()
        invariant
            bc@ == buffer@,
            m <= path_names@.len(),
            strictly_sorted(views(r@)),
            forall|c: Seq<char>|
                views(r@).contains(c) <==> buffer@.is_prefix_of(c) && (builtin_list().contains(c)
                    || exists|k: int| 0 <= k < m && #[trigger] views(path_names@)[k] == c),
        decreases path_names.len() - m,
    {
        assert(views(path_names@)[m as int] == path_names@[m as int]@);
        if starts_with(&chars_of(path_names[m].as_str()), &bc) {
            insert_sorted(&mut r, path_names[m].clone());
        }
        m = m + 1;
    }
    r
}

} // verus!
