//! The table of languages and addresses, read from text.

use crate::lang::Links;
use crate::text::push_char;
use vstd::prelude::*;

verus! {

/// The place of the first `c` in `s`; the length of `s` where it holds none.
pub open spec fn first_index(s: Seq<char>, c: char) -> int
    decreases s.len(),
{
    if s.len() == 0 || s[0] == c {
        0
    } else {
        1 + first_index(s.drop_first(), c)
    }
}

/// A line without the carriage return at its end, if it has one.
pub open spec fn without_cr(line: Seq<char>) -> Seq<char> {
    if line.len() > 0 && line.last() == '\r' {
        line.drop_last()
    } else {
        line
    }
}

/// The lines of a text. A line ends with a line feed, or with a carriage
/// return and a line feed; neither belongs to the line. The last line needs
/// no line feed, and an empty rest behind the last line feed is no line.
pub open spec fn lines_of(s: Seq<char>) -> Seq<Seq<char>>
    decreases s.len(),
{
    let n = first_index(s, '\n');
    if s.len() == 0 {
        Seq::empty()
    } else if n < 0 || n >= s.len() {
        seq![s]
    } else {
        seq![without_cr(s.take(n))] + lines_of(s.skip(n + 1))
    }
}

/// The row that a line holds: the name in front of the first tab and the
/// address behind it. A line without a tab holds none.
pub open spec fn parse_row(line: Seq<char>) -> Option<(Seq<char>, Seq<char>)> {
    let t = first_index(line, '\t');
    if t < 0 || t >= line.len() {
        None
    } else {
        Some((line.take(t), line.skip(t + 1)))
    }
}

/// The table that a text holds, one row on each line, if every line holds
/// a row.
pub open spec fn parse_table(s: Seq<char>) -> Option<Links> {
    if forall|i: int| 0 <= i < lines_of(s).len() ==> parse_row(#[trigger] lines_of(s)[i]) is Some {
        Some(lines_of(s).map_values(|l: Seq<char>| parse_row(l)->Some_0))
    } else {
        None
    }
}

proof fn lemma_first_index(s: Seq<char>, c: char, k: int)
    requires
        0 <= k <= s.len(),
        forall|j: int| 0 <= j < k ==> s[j] != c,
        k == s.len() || s[k] == c,
    ensures
        first_index(s, c) == k,
    decreases k,
{
    if k > 0 {
        lemma_first_index(s.drop_first(), c, k - 1);
    }
}

fn chars_of(text: &str) -> (v: Vec<char>)
    ensures
        v@ == text@,
{
    let mut v: Vec<char> = Vec::new();
    for c in it: text.chars()
        invariant
            it.seq() == text@,
            v@ == text@.take(it.index() as int),
    {
        v.push(c);
    }
    v
}

fn find_from(v: &Vec<char>, from: usize, to: usize, c: char) -> (k: usize)
    requires
        from <= to <= v.len(),
    ensures
        from <= k <= to,
        forall|j: int| from <= j < k ==> v[j] != c,
        k == to || v[k as int] == c,
{
    let mut k: usize = from;
    while k < to && v[k] != c
        invariant
            from <= k <= to <= v.len(),
            forall|j: int| from <= j < k ==> v[j] != c,
        decreases to - k,
    {
        k += 1;
    }
    k
}

fn text_between(v: &Vec<char>, from: usize, to: usize) -> (s: String)
    requires
        from <= to <= v.len(),
    ensures
        s@ == v@.subrange(from as int, to as int),
{
    let mut s = String::new();
    let mut i: usize = from;
    while i < to
        invariant
            from <= i <= to <= v.len(),
            s@ == v@.subrange(from as int, i as int),
        decreases to - i,
    {
        push_char(&mut s, v[i]);
        i += 1;
    }
    s
}

/// Reads a table of languages and addresses: one row on each line, the
/// name and the address with a tab between them. There is no table where a
/// line has no tab.
pub fn parse_links(text: &str) -> (res: Option<Vec<(String, String)>>)
    ensures
        res.deep_view() == parse_table(text@),
{
    let v = chars_of(text);
    let ghost whole = v@;
    let mut rows: Vec<(String, String)> = Vec::new();
    let ghost done: Seq<Seq<char>> = Seq::empty();
    let mut start: usize = 0;
    assert(whole.skip(0) =~= whole);
    while start < v.len()
        invariant
            start <= v.len(),
            whole == v@,
            whole == text@,
            lines_of(whole) == done + lines_of(whole.skip(start as int)),
            forall|i: int| 0 <= i < done.len() ==> parse_row(#[trigger] done[i]) is Some,
            rows.deep_view() == done.map_values(|l: Seq<char>| parse_row(l)->Some_0),
        decreases v.len() - start,
    {
        let ghost rest = whole.skip(start as int);
        let n = find_from(&v, start, v.len(), '\n');
        proof {
            lemma_first_index(rest, '\n', n - start);
        }
        let stripped = n < v.len() && n > start && v[n - 1] == '\r';
        let end = if stripped {
            n - 1
        } else {
            n
        };
        let next = if n < v.len() {
            n + 1
        } else {
            n
        };
        let ghost line = whole.subrange(start as int, end as int);
        if n < v.len() {
            assert(without_cr(rest.take(n - start)) =~= line);
            assert(rest.skip(n - start + 1) =~= whole.skip(next as int));
        }
        let t = find_from(&v, start, end, '\t');
        proof {
            lemma_first_index(line, '\t', t - start);
        }
        if t == end {
            assert(parse_row(lines_of(whole)[done.len() as int]) is None);
            return None;
        }
        let name = text_between(&v, start, t);
        let url = text_between(&v, t + 1, end);
        assert(name@ =~= line.take(t - start));
        assert(url@ =~= line.skip(t - start + 1));
        let ghost so_far = rows.deep_view();
        rows.push((name, url));
        assert(rows.deep_view() =~= so_far.push((name@, url@)));
        proof {
            done = done.push(line);
        }
        start = next;
    }
    Some(rows)
}

} // verus!
