//! Removing the indentation that the lines of a text have in common.

use crate::chars::{
    from_chars, is_whitespace, join, join_chars, lemma_run_len_bounds, lemma_run_len_is,
    lemma_trim_start_skip, run_len, slice_chars, to_chars, trim, trim_chars, views, whitespace,
};
use vstd::prelude::*;

verus! {

/// Whether `c` is no line feed.
pub open spec fn in_line(c: char) -> bool {
    c != '\n'
}

/// Whether `c` is the space character.
pub open spec fn space(c: char) -> bool {
    c == ' '
}

/// The lines of `s`: what stands between its line feeds. A text without a
/// line feed, the empty one too, is one line.
pub open spec fn lines(s: Seq<char>) -> Seq<Seq<char>>
    decreases s.len(),
{
    let k = run_len(s, |c: char| in_line(c));
    if k >= s.len() {
        seq![s]
    } else {
        seq![s.take(k as int)] + lines(s.skip(k as int + 1))
    }
}

/// The number of spaces that `line` begins with.
pub open spec fn leading_spaces(line: Seq<char>) -> nat {
    run_len(line, |c: char| space(c))
}

/// The indentation of a line that counts: one or more leading spaces with a
/// character behind them that is no whitespace.
pub open spec fn line_indent(line: Seq<char>) -> Option<nat> {
    let k = leading_spaces(line);
    if 0 < k < line.len() && !whitespace(line[k as int]) {
        Some(k)
    } else {
        None
    }
}

/// The least indentation among the lines that count, if any counts.
pub open spec fn min_indent(ls: Seq<Seq<char>>) -> Option<nat>
    decreases ls.len(),
{
    if ls.len() == 0 {
        None
    } else {
        let rest = min_indent(ls.drop_last());
        match line_indent(ls.last()) {
            None => rest,
            Some(k) => match rest {
                None => Some(k),
                Some(m) => Some(if k < m { k } else { m }),
            },
        }
    }
}

/// `line` without its leading spaces, of which at most `n` are taken.
pub open spec fn strip_line(line: Seq<char>, n: nat) -> Seq<char> {
    let k = leading_spaces(line);
    line.skip(if k < n { k as int } else { n as int })
}

/// Each line of `ls` stripped of up to `n` leading spaces.
pub open spec fn strip_lines(ls: Seq<Seq<char>>, n: nat) -> Seq<Seq<char>> {
    Seq::new(ls.len(), |i: int| strip_line(ls[i], n))
}

/// `s` with up to `n` leading spaces taken from each of its lines.
pub open spec fn strip_indent(s: Seq<char>, n: nat) -> Seq<char> {
    join(strip_lines(lines(s), n), '\n')
}

/// `s` trimmed and, where a line of it counts, with the least indentation
/// among those lines taken from every line.
pub open spec fn dedent(s: Seq<char>) -> Seq<char> {
    let t = trim(s);
    match min_indent(lines(t)) {
        None => t,
        Some(n) => strip_indent(t, n),
    }
}

/// The lines of a text that begins with a line of `k` characters and a line
/// feed.
proof fn lemma_lines_step(t: Seq<char>, k: int)
    requires
        0 <= k < t.len(),
        forall|j: int| 0 <= j < k ==> #[trigger] t[j] != '\n',
        t[k] == '\n',
    ensures
        lines(t) == seq![t.take(k)] + lines(t.skip(k + 1)),
{
    lemma_run_len_is(t, |c: char| in_line(c), k);
}

/// A text without a line feed is its only line.
proof fn lemma_lines_last(t: Seq<char>)
    requires
        forall|j: int| 0 <= j < t.len() ==> #[trigger] t[j] != '\n',
    ensures
        lines(t) == seq![t],
{
    lemma_run_len_is(t, |c: char| in_line(c), t.len() as int);
}

/// The lines of `v`.
fn split_lines(v: &Vec<char>) -> (ls: Vec<Vec<char>>)
    ensures
        views(ls@) == lines(v@),
{
    let mut ls: Vec<Vec<char>> = Vec::new();
    let mut start: usize = 0;
    let mut i: usize = 0;
    proof {
        assert(v@.skip(0) =~= v@);
        assert(views(ls@) =~= Seq::<Seq<char>>::empty());
        assert(Seq::<Seq<char>>::empty() + lines(v@) =~= lines(v@));
    }
    while i < v.len()
        invariant
            start <= i <= v.len(),
            forall|j: int| start <= j < i ==> #[trigger] v@[j] != '\n',
            lines(v@) == views(ls@) + lines(v@.skip(start as int)),
        decreases v.len() - i,
    {
        if v[i] == '\n' {
            let line = slice_chars(v, start, i);
            proof {
                let t = v@.skip(start as int);
                assert forall|j: int| 0 <= j < i - start implies #[trigger] t[j] != '\n' by {
                    assert(t[j] == v@[j + start]);
                }
                lemma_lines_step(t, i - start);
                assert(t.take(i - start) =~= line@);
                assert(t.skip(i - start + 1) =~= v@.skip(i + 1));
                assert(views(ls@.push(line)) =~= views(ls@) + seq![line@]);
                assert((views(ls@) + seq![line@]) + lines(v@.skip(i + 1)) =~= views(ls@)
                    + (seq![line@] + lines(v@.skip(i + 1))));
            }
            ls.push(line);
            start = i + 1;
        }
        i += 1;
    }
    let line = slice_chars(v, start, v.len());
    proof {
        let t = v@.skip(start as int);
        assert forall|j: int| 0 <= j < t.len() implies #[trigger] t[j] != '\n' by {
            assert(t[j] == v@[j + start]);
        }
        lemma_lines_last(t);
        assert(t =~= line@);
        assert(views(ls@.push(line)) =~= views(ls@) + seq![line@]);
    }
    ls.push(line);
    ls
}

/// The number of spaces that `line` begins with.
fn count_leading_spaces(line: &Vec<char>) -> (k: usize)
    ensures
        k == leading_spaces(line@),
        k <= line.len(),
{
    let mut k: usize = 0;
    while k < line.len() && line[k] == ' '
        invariant
            k <= line.len(),
            forall|j: int| 0 <= j < k ==> space(#[trigger] line@[j]),
        decreases line.len() - k,
    {
        k += 1;
    }
    proof {
        lemma_run_len_is(line@, |c: char| space(c), k as int);
    }
    k
}

/// The indentation of `line`, where it counts.
fn indent_of(line: &Vec<char>) -> (r: Option<usize>)
    ensures
        match r {
            Some(k) => line_indent(line@) == Some(k as nat),
            None => line_indent(line@) is None,
        },
{
    let k = count_leading_spaces(line);
    if 0 < k && k < line.len() && !is_whitespace(line[k]) {
        Some(k)
    } else {
        None
    }
}

/// The least indentation among the lines of `ls` that count.
fn least_indent(ls: &Vec<Vec<char>>) -> (r: Option<usize>)
    ensures
        match r {
            Some(n) => min_indent(views(ls@)) == Some(n as nat),
            None => min_indent(views(ls@)) is None,
        },
{
    let mut least: Option<usize> = None;
    let mut i: usize = 0;
    while i < ls.len()
        invariant
            i <= ls.len(),
            match least {
                Some(n) => min_indent(views(ls@).take(i as int)) == Some(n as nat),
                None => min_indent(views(ls@).take(i as int)) is None,
            },
        decreases ls.len() - i,
    {
        let found = indent_of(&ls[i]);
        proof {
            let done = views(ls@).take(i + 1);
            assert(done.drop_last() =~= views(ls@).take(i as int));
            assert(done.last() == ls@[i as int]@);
        }
        if let Some(k) = found {
            least = match least {
                None => Some(k),
                Some(m) => Some(if k < m { k } else { m }),
            };
        }
        i += 1;
    }
    proof {
        assert(views(ls@).take(ls.len() as int) =~= views(ls@));
    }
    least
}

/// Each line of `ls` without its leading spaces, of which at most `n` are
/// taken.
fn strip_each(ls: &Vec<Vec<char>>, n: usize) -> (out: Vec<Vec<char>>)
    ensures
        views(out@) == strip_lines(views(ls@), n as nat),
{
    let mut out: Vec<Vec<char>> = Vec::new();
    let mut i: usize = 0;
    while i < ls.len()
        invariant
            i <= ls.len(),
            views(out@) == strip_lines(views(ls@), n as nat).take(i as int),
        decreases ls.len() - i,
    {
        let line = &ls[i];
        let k = count_leading_spaces(line);
        let from: usize = if k < n { k } else { n };
        let rest = slice_chars(line, from, line.len());
        proof {
            assert(line@.subrange(from as int, line.len() as int) =~= line@.skip(from as int));
            let all = strip_lines(views(ls@), n as nat);
            assert(views(ls@)[i as int] == line@);
            assert(all[i as int] == rest@);
            assert(all.take(i + 1) =~= all.take(i as int).push(rest@));
            assert(views(out@.push(rest)) =~= views(out@).push(rest@));
        }
        out.push(rest);
        i += 1;
    }
    proof {
        let all = strip_lines(views(ls@), n as nat);
        assert(all.take(ls.len() as int) =~= all);
    }
    out
}

/// The characters of a text without the whitespace around it and without
/// the indentation that its lines have in common.
pub fn dedent_chars(all: &Vec<char>) -> (r: Vec<char>)
    ensures
        r@ == dedent(all@),
{
    let trimmed = trim_chars(all);
    let ls = split_lines(&trimmed);
    match least_indent(&ls) {
        Some(n) => join_chars(&strip_each(&ls, n), '\n'),
        None => trimmed,
    }
}

/// The text without the whitespace around it and without the indentation
/// that its lines have in common.
///
/// Only lines that begin with one or more spaces and go on with a character
/// that is no whitespace count for the common indentation. Where none counts,
/// the trimmed text comes back as it is. A tab is no indentation.
pub fn trim_query(sql: &str) -> (r: String)
    ensures
        r@ == dedent(sql@),
{
    from_chars(&dedent_chars(&to_chars(sql)))
}

/// Whether `line` holds no line feed.
pub open spec fn no_line_feed(line: Seq<char>) -> bool {
    forall|j: int| 0 <= j < line.len() ==> #[trigger] line[j] != '\n'
}

/// A text has at least one line, and no line holds a line feed.
pub proof fn lemma_lines_hold_no_line_feed(s: Seq<char>)
    ensures
        lines(s).len() >= 1,
        forall|i: int| 0 <= i < lines(s).len() ==> no_line_feed(#[trigger] lines(s)[i]),
    decreases s.len(),
{
    let k = run_len(s, |c: char| in_line(c));
    lemma_run_len_bounds(s, |c: char| in_line(c));
    if k < s.len() {
        let rest = s.skip(k as int + 1);
        lemma_lines_hold_no_line_feed(rest);
        assert forall|i: int| 0 <= i < lines(s).len() implies no_line_feed(
            #[trigger] lines(s)[i],
        ) by {
            if i > 0 {
                assert(lines(s)[i] == lines(rest)[i - 1]);
            }
        }
    }
}

/// A line put behind a text and a line feed is one more line.
proof fn lemma_lines_push(a: Seq<char>, b: Seq<char>)
    requires
        no_line_feed(b),
    ensures
        lines(a.push('\n') + b) == lines(a).push(b),
    decreases a.len(),
{
    let t = a.push('\n') + b;
    let k = run_len(a, |c: char| in_line(c));
    lemma_run_len_bounds(a, |c: char| in_line(c));
    assert forall|j: int| 0 <= j < k implies #[trigger] t[j] != '\n' by {
        assert(t[j] == a[j]);
    }
    lemma_lines_step(t, k as int);
    assert(t.take(k as int) =~= a.take(k as int));
    if k < a.len() {
        let rest = a.skip(k as int + 1);
        lemma_lines_push(rest, b);
        assert(t.skip(k as int + 1) =~= rest.push('\n') + b);
        assert(seq![a.take(k as int)] + lines(rest).push(b) =~= (seq![a.take(k as int)] + lines(
            rest,
        )).push(b));
    } else {
        assert(t.skip(k as int + 1) =~= b);
        assert(a.take(k as int) =~= a);
        lemma_lines_last(b);
        assert(seq![a] + seq![b] =~= seq![a].push(b));
    }
}

/// Lines with a line feed between each two are a text of just those lines.
pub proof fn lemma_lines_join(ls: Seq<Seq<char>>)
    requires
        ls.len() >= 1,
        forall|i: int| 0 <= i < ls.len() ==> no_line_feed(#[trigger] ls[i]),
    ensures
        lines(join(ls, '\n')) == ls,
    decreases ls.len(),
{
    if ls.len() == 1 {
        lemma_lines_last(ls[0]);
        assert(seq![ls[0]] =~= ls);
    } else {
        lemma_lines_join(ls.drop_last());
        lemma_lines_push(join(ls.drop_last(), '\n'), ls.last());
        assert(ls.drop_last().push(ls.last()) =~= ls);
    }
}

/// The least indentation is the indentation of one of the lines that
/// count, and no such line has less; there is none exactly where no line
/// counts.
pub proof fn lemma_min_indent_is_least(ls: Seq<Seq<char>>)
    ensures
        min_indent(ls) is None <==> forall|i: int|
            0 <= i < ls.len() ==> line_indent(#[trigger] ls[i]) is None,
        min_indent(ls) matches Some(n) ==> {
            &&& exists|i: int| 0 <= i < ls.len() && line_indent(#[trigger] ls[i]) == Some(n)
            &&& forall|i: int|
                0 <= i < ls.len() ==> (line_indent(#[trigger] ls[i]) matches Some(k) ==> n <= k)
        },
    decreases ls.len(),
{
    if ls.len() > 0 {
        let init = ls.drop_last();
        lemma_min_indent_is_least(init);
        assert forall|i: int| 0 <= i < init.len() implies init[i] == ls[i] by {}
        if let Some(n) = min_indent(ls) {
            if line_indent(ls.last()) == Some(n) {
                assert(line_indent(ls[ls.len() - 1]) == Some(n));
            } else {
                let i = choose|i: int| 0 <= i < init.len() && line_indent(#[trigger] init[i]) == Some(n);
                assert(line_indent(ls[i]) == Some(n));
            }
            assert forall|i: int| 0 <= i < ls.len() implies (line_indent(
                #[trigger] ls[i],
            ) matches Some(k) ==> n <= k) by {
                if i < init.len() {
                    assert(init[i] == ls[i]);
                }
            }
        } else {
            assert forall|i: int| 0 <= i < ls.len() implies line_indent(#[trigger] ls[i]) is None by {
                if i < init.len() {
                    assert(init[i] == ls[i]);
                }
            }
        }
        if forall|i: int| 0 <= i < ls.len() ==> line_indent(#[trigger] ls[i]) is None {
            assert(line_indent(ls[ls.len() - 1]) is None);
            assert forall|i: int| 0 <= i < init.len() implies line_indent(#[trigger] init[i]) is None by {
                assert(init[i] == ls[i]);
            }
        }
    }
}

/// A text of nothing but whitespace, the empty one too, dedents to the
/// empty text.
pub proof fn lemma_dedent_of_blank(s: Seq<char>)
    requires
        forall|j: int| 0 <= j < s.len() ==> whitespace(#[trigger] s[j]),
    ensures
        dedent(s) == Seq::<char>::empty(),
{
    let none = Seq::<char>::empty();
    lemma_trim_start_skip(s, s.len() as int);
    assert(s.skip(s.len() as int) =~= none);
    assert(trim(s) == none);
    lemma_lines_last(none);
    assert(seq![none].drop_last() =~= Seq::<Seq<char>>::empty());
    assert(min_indent(Seq::<Seq<char>>::empty()) is None);
    assert(line_indent(seq![none].last()) is None);
}

/// A text of which no line begins with spaces that a character other than
/// whitespace follows is only trimmed.
pub proof fn lemma_dedent_without_indent(s: Seq<char>)
    requires
        forall|i: int|
            0 <= i < lines(trim(s)).len() ==> line_indent(#[trigger] lines(trim(s))[i]) is None,
    ensures
        dedent(s) == trim(s),
{
    lemma_min_indent_is_least(lines(trim(s)));
}

/// A line of which no more spaces are taken than it begins with keeps the
/// rest of its spaces, and what follows them.
pub proof fn lemma_strip_line_keeps_rest(line: Seq<char>, n: nat)
    requires
        n <= leading_spaces(line),
    ensures
        leading_spaces(strip_line(line, n)) == leading_spaces(line) - n,
        strip_line(line, n).skip(leading_spaces(line) - n) == line.skip(leading_spaces(line) as int),
{
    let k = leading_spaces(line);
    let rest = line.skip(n as int);
    lemma_run_len_bounds(line, |c: char| space(c));
    assert forall|j: int| 0 <= j < k - n implies space(#[trigger] rest[j]) by {
        assert(rest[j] == line[j + n]);
    }
    lemma_run_len_is(rest, |c: char| space(c), k - n);
    assert(rest.skip(k - n) =~= line.skip(k as int));
}

/// Where a line counts, the dedented text has the lines of the trimmed one,
/// each without the least indentation, or without all the spaces it begins
/// with where those are fewer. A line that counts keeps what it has more
/// than the least, so the lines stay indented against each other as they
/// were.
pub proof fn lemma_dedent_takes_least(s: Seq<char>, n: nat)
    requires
        min_indent(lines(trim(s))) == Some(n),
    ensures
        lines(dedent(s)) == strip_lines(lines(trim(s)), n),
        forall|i: int|
            0 <= i < lines(trim(s)).len() ==> (line_indent(#[trigger] lines(trim(s))[i]) matches Some(
                k,
            ) ==> n <= k && leading_spaces(lines(dedent(s))[i]) == k - n && lines(dedent(s))[i].skip(
                k - n,
            ) == lines(trim(s))[i].skip(k as int)),
{
    let before = lines(trim(s));
    let after = strip_lines(before, n);
    lemma_lines_hold_no_line_feed(trim(s));
    lemma_min_indent_is_least(before);
    assert forall|i: int| 0 <= i < after.len() implies no_line_feed(#[trigger] after[i]) by {
        let line = before[i];
        lemma_run_len_bounds(line, |c: char| space(c));
        assert(no_line_feed(line));
        assert forall|j: int| 0 <= j < after[i].len() implies #[trigger] after[i][j] != '\n' by {
            let from = if leading_spaces(line) < n { leading_spaces(line) as int } else { n as int };
            assert(after[i][j] == line[j + from]);
        }
    }
    lemma_lines_join(after);
    assert forall|i: int| 0 <= i < before.len() implies (line_indent(
        #[trigger] before[i],
    ) matches Some(k) ==> n <= k && leading_spaces(after[i]) == k - n && after[i].skip(k - n)
        == before[i].skip(k as int)) by {
        if let Some(k) = line_indent(before[i]) {
            lemma_strip_line_keeps_rest(before[i], n);
        }
    }
}

} // verus!
