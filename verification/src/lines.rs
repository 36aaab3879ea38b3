//! Texts as lines: splitting at line endings, joining with newlines, and
//! leaving out the lines that are marked.

use vstd::prelude::*;
use vstd::string::StringExecFns;

verus! {

/// Appending a character to a `String` puts it at the end of its characters
/// (`String::push` of the standard library, as its documentation states).
pub assume_specification[ String::push ](s: &mut String, ch: char)
    ensures
        final(s)@ == old(s)@.push(ch),
;

/// The characters of each string.
pub open spec fn texts(strings: Seq<String>) -> Seq<Seq<char>> {
    strings.map_values(|s: String| s@)
}

/// How many characters stand before the first newline of `s`, or in all of
/// `s` where it has none.
pub open spec fn line_len(s: Seq<char>) -> nat
    decreases s.len(),
{
    if s.len() == 0 || s[0] == '\n' {
        0
    } else {
        1 + line_len(s.drop_first())
    }
}

/// `line` without the carriage return it ends with, if it ends with one.
pub open spec fn without_cr(line: Seq<char>) -> Seq<char> {
    if line.len() > 0 && line.last() == '\r' {
        line.drop_last()
    } else {
        line
    }
}

/// The lines of a text. A line ends at a newline, or at a carriage return
/// directly followed by one; neither belongs to the line. What follows the
/// last newline is a line too unless it is empty.
pub open spec fn lines_of(s: Seq<char>) -> Seq<Seq<char>>
    decreases s.len(),
{
    let k = line_len(s);
    if s.len() == 0 {
        Seq::empty()
    } else if k >= s.len() {
        seq![s]
    } else {
        seq![without_cr(s.take(k as int))] + lines_of(s.skip(k as int + 1))
    }
}

/// The lines joined, with a newline between each two.
pub open spec fn joined(lines: Seq<Seq<char>>) -> Seq<char>
    decreases lines.len(),
{
    if lines.len() == 0 {
        Seq::empty()
    } else if lines.len() == 1 {
        lines[0]
    } else {
        joined(lines.drop_last()) + seq!['\n'] + lines.last()
    }
}

/// Line `i` is marked. A line that `marks` does not reach is not.
pub open spec fn marked(marks: Seq<bool>, i: int) -> bool {
    0 <= i < marks.len() && marks[i]
}

/// The lines from `from` on that are not marked, in order.
pub open spec fn unmarked_from(lines: Seq<Seq<char>>, marks: Seq<bool>, from: int) -> Seq<
    Seq<char>,
>
    decreases lines.len() - from,
{
    if from < 0 || from >= lines.len() {
        Seq::empty()
    } else if marked(marks, from) {
        unmarked_from(lines, marks, from + 1)
    } else {
        seq![lines[from]] + unmarked_from(lines, marks, from + 1)
    }
}

/// The first newline stands where the characters that are none end.
pub proof fn lemma_line_len_is(s: Seq<char>, k: int)
    requires
        0 <= k <= s.len(),
        forall|j: int| 0 <= j < k ==> s[j] != '\n',
        k < s.len() ==> s[k] == '\n',
    ensures
        line_len(s) == k,
    decreases k,
{
    if k > 0 {
        let rest = s.drop_first();
        assert forall|j: int| 0 <= j < k - 1 implies rest[j] != '\n' by {
            assert(rest[j] == s[j + 1]);
        }
        lemma_line_len_is(rest, k - 1);
    }
}

/// The characters `start..end` as a string.
pub fn string_of(chars: &[char], start: usize, end: usize) -> (s: String)
    requires
        start <= end <= chars@.len(),
    ensures
        s@ == chars@.subrange(start as int, end as int),
{
    let mut s = String::new();
    let mut i: usize = start;
    proof {
        assert(chars@.subrange(start as int, start as int) =~= Seq::<char>::empty());
    }
    while i < end
        invariant
            start <= i <= end <= chars@.len(),
            s@ == chars@.subrange(start as int, i as int),
        decreases end - i,
    {
        s.push(chars[i]);
        proof {
            assert(chars@.subrange(start as int, i + 1) =~= chars@.subrange(
                start as int,
                i as int,
            ).push(chars@[i as int]));
        }
        i = i + 1;
    }
    s
}

/// Splits a text into its lines.
pub fn split_lines(chars: &[char]) -> (lines: Vec<String>)
    ensures
        texts(lines@) == lines_of(chars@),
{
    let n: usize = chars.len();
    let mut lines: Vec<String> = Vec::new();
    let mut start: usize = 0;
    let ghost done: Seq<Seq<char>> = Seq::empty();
    proof {
        assert(texts(lines@) =~= done);
        assert(chars@.skip(0) =~= chars@);
    }
    while start < n
        invariant
            n == chars@.len(),
            start <= n,
            texts(lines@) == done,
            done + lines_of(chars@.skip(start as int)) == lines_of(chars@),
        decreases n - start,
    {
        let mut end: usize = start;
        while end < n && chars[end] != '\n'
            invariant
                n == chars@.len(),
                start <= end <= n,
                forall|j: int| start <= j < end ==> chars@[j] != '\n',
            decreases n - end,
        {
            end = end + 1;
        }
        let ghost here = chars@.skip(start as int);
        proof {
            assert forall|j: int| 0 <= j < end - start implies here[j] != '\n' by {
                assert(here[j] == chars@[start + j]);
            }
            lemma_line_len_is(here, end - start);
            assert(here.take(end - start) =~= chars@.subrange(start as int, end as int));
        }
        if end == n {
            let line: String = string_of(chars, start, n);
            proof {
                assert(line@ =~= here);
                assert(texts(lines@.push(line)) =~= texts(lines@).push(line@));
                assert(done.push(line@) =~= done + lines_of(here));
                done = done.push(line@);
            }
            lines.push(line);
            start = n;
            proof {
                assert(lines_of(chars@.skip(n as int)) =~= Seq::<Seq<char>>::empty());
                assert(done + Seq::<Seq<char>>::empty() =~= done);
            }
        } else {
            let stop: usize = if end > start && chars[end - 1] == '\r' {
                end - 1
            } else {
                end
            };
            let line: String = string_of(chars, start, stop);
            proof {
                let rest = lines_of(here.skip(end - start + 1));
                assert(line@ =~= without_cr(here.take(end - start)));
                assert(here.skip(end - start + 1) =~= chars@.skip(end + 1));
                assert(texts(lines@.push(line)) =~= texts(lines@).push(line@));
                assert(done.push(line@) + rest =~= done + (seq![line@] + rest));
                done = done.push(line@);
            }
            lines.push(line);
            start = end + 1;
        }
    }
    proof {
        assert(lines_of(chars@.skip(n as int)) =~= Seq::<Seq<char>>::empty());
        assert(done + Seq::<Seq<char>>::empty() =~= done);
    }
    lines
}

/// Joins lines, with a newline between each two.
pub fn join_lines(lines: &Vec<String>) -> (s: String)
    ensures
        s@ == joined(texts(lines@)),
{
    let mut s = String::new();
    let n: usize = lines.len();
    let mut i: usize = 0;
    proof {
        assert(texts(lines@).take(0) =~= Seq::<Seq<char>>::empty());
    }
    while i < n
        invariant
            n == lines@.len(),
            i <= n,
            s@ == joined(texts(lines@).take(i as int)),
        decreases n - i,
    {
        if i > 0 {
            s.push('\n');
        }
        s.append(lines[i].as_str());
        proof {
            let next = texts(lines@).take(i + 1);
            assert(next.drop_last() =~= texts(lines@).take(i as int));
            assert(next.last() == lines@[i as int]@);
            if i == 0 {
                assert(s@ =~= next[0]);
            } else {
                assert(s@ =~= joined(next.drop_last()) + seq!['\n'] + next.last());
            }
        }
        i = i + 1;
    }
    proof {
        assert(texts(lines@).take(n as int) =~= texts(lines@));
    }
    s
}

/// The lines that are not marked, in order.
pub fn unmarked_lines(lines: &Vec<String>, marks: &Vec<bool>) -> (kept: Vec<String>)
    ensures
        texts(kept@) == unmarked_from(texts(lines@), marks@, 0),
{
    let n: usize = lines.len();
    let m: usize = marks.len();
    let mut kept: Vec<String> = Vec::new();
    let mut i: usize = 0;
    let ghost all = texts(lines@);
    let ghost done: Seq<Seq<char>> = Seq::empty();
    proof {
        assert(texts(kept@) =~= done);
    }
    while i < n
        invariant
            n == lines@.len(),
            m == marks@.len(),
            i <= n,
            all == texts(lines@),
            texts(kept@) == done,
            done + unmarked_from(all, marks@, i as int) == unmarked_from(all, marks@, 0),
        decreases n - i,
    {
        if !(i < m && marks[i]) {
            let line: String = lines[i].clone();
            proof {
                let rest = unmarked_from(all, marks@, i + 1);
                assert(line@ == all[i as int]);
                assert(texts(kept@.push(line)) =~= texts(kept@).push(line@));
                assert(done.push(line@) + rest =~= done + (seq![line@] + rest));
                done = done.push(line@);
            }
            kept.push(line);
        }
        i = i + 1;
    }
    proof {
        assert(done + Seq::<Seq<char>>::empty() =~= done);
    }
    kept
}

} // verus!
