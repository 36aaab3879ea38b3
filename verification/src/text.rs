//! Strings as sequences of characters: substring search, ASCII case folding
//! and decimal digit runs, as the MIME rules and the text pipeline need them.

use vstd::prelude::*;

verus! {

/// `needle` stands in `hay` at index `i`.
pub open spec fn occurs_at(hay: Seq<char>, needle: Seq<char>, i: int) -> bool {
    &&& 0 <= i
    &&& i + needle.len() <= hay.len()
    &&& hay.subrange(i, i + needle.len()) == needle
}

/// `needle` stands somewhere in `hay`.
pub open spec fn contains_text(hay: Seq<char>, needle: Seq<char>) -> bool {
    exists|i: int| occurs_at(hay, needle, i)
}

/// The least index at or after `from` at which `needle` stands in `hay`.
pub open spec fn first_occurrence(hay: Seq<char>, needle: Seq<char>, from: int) -> Option<int>
    decreases hay.len() + 1 - from,
{
    if from < 0 || from + needle.len() > hay.len() {
        None
    } else if occurs_at(hay, needle, from) {
        Some(from)
    } else {
        first_occurrence(hay, needle, from + 1)
    }
}

/// The lower-case form of an ASCII capital; any other character itself.
pub open spec fn ascii_lower(c: char) -> char {
    if 'A' <= c && c <= 'Z' {
        ((c as u8) + 32) as char
    } else {
        c
    }
}

/// `s` with its ASCII capitals in lower case.
pub open spec fn lowered(s: Seq<char>) -> Seq<char> {
    s.map_values(|c: char| ascii_lower(c))
}

/// One of the ten ASCII digits.
pub open spec fn is_digit(c: char) -> bool {
    '0' <= c && c <= '9'
}

/// The longest run of ASCII digits that `s` starts with.
pub open spec fn digit_run(s: Seq<char>) -> Seq<char>
    decreases s.len(),
{
    if s.len() > 0 && is_digit(s[0]) {
        seq![s[0]] + digit_run(s.drop_first())
    } else {
        Seq::empty()
    }
}

/// The number that a run of ASCII digits writes in base ten.
pub open spec fn decimal_value(digits: Seq<char>) -> nat
    decreases digits.len(),
{
    if digits.len() == 0 {
        0
    } else {
        10 * decimal_value(digits.drop_last()) + (digits.last() as nat - '0' as nat) as nat
    }
}

/// The search finds nothing exactly when `needle` stands nowhere at or after
/// `from`; what it finds is an occurrence with none before it.
pub proof fn lemma_first_occurrence(hay: Seq<char>, needle: Seq<char>, from: int)
    requires
        0 <= from,
    ensures
        match first_occurrence(hay, needle, from) {
            Some(i) => from <= i && occurs_at(hay, needle, i) && forall|j: int|
                from <= j < i ==> !occurs_at(hay, needle, j),
            None => forall|j: int| from <= j ==> !occurs_at(hay, needle, j),
        },
    decreases hay.len() + 1 - from,
{
    if from + needle.len() <= hay.len() && !occurs_at(hay, needle, from) {
        lemma_first_occurrence(hay, needle, from + 1);
    }
}

/// Searching from the start finds something exactly when `needle` stands in `hay`.
pub proof fn lemma_contains_iff_found(hay: Seq<char>, needle: Seq<char>)
    ensures
        contains_text(hay, needle) <==> first_occurrence(hay, needle, 0) is Some,
{
    lemma_first_occurrence(hay, needle, 0);
}

/// A run of digits followed by the end or by another character is the digit run.
pub proof fn lemma_digit_run_is(s: Seq<char>, k: int)
    requires
        0 <= k <= s.len(),
        forall|j: int| 0 <= j < k ==> is_digit(s[j]),
        k < s.len() ==> !is_digit(s[k]),
    ensures
        digit_run(s) == s.take(k),
    decreases k,
{
    if k == 0 {
        assert(s.take(0) =~= Seq::<char>::empty());
    } else {
        let rest = s.drop_first();
        assert forall|j: int| 0 <= j < k - 1 implies is_digit(rest[j]) by {
            assert(rest[j] == s[j + 1]);
        }
        lemma_digit_run_is(rest, k - 1);
        assert(seq![s[0]] + rest.take(k - 1) =~= s.take(k));
    }
}

/// The characters of a string.
pub fn chars_of(s: &str) -> (v: Vec<char>)
    ensures
        v@ == s@,
{
    broadcast use vstd::string::group_string_axioms;

    let mut v: Vec<char> = Vec::new();
    let all = s.chars();
    for c in it: all
        invariant
            it.seq() == s@,
            v@ == s@.take(it.index() as int),
    {
        v.push(c);
        proof {
            assert(s@.take(it.index() + 1) =~= s@.take(it.index() as int).push(c));
        }
    }
    proof {
        assert(s@.take(s@.len() as int) =~= s@);
    }
    v
}

/// The lower-case form of an ASCII capital; any other character itself.
pub fn to_ascii_lower(c: char) -> (r: char)
    ensures
        r == ascii_lower(c),
{
    if 'A' <= c && c <= 'Z' {
        ((c as u8) + 32) as char
    } else {
        c
    }
}

/// The characters of a string, ASCII capitals in lower case.
pub fn lowered_chars_of(s: &str) -> (v: Vec<char>)
    ensures
        v@ == lowered(s@),
{
    broadcast use vstd::string::group_string_axioms;

    let mut v: Vec<char> = Vec::new();
    let all = s.chars();
    for c in it: all
        invariant
            it.seq() == s@,
            v@ == lowered(s@.take(it.index() as int)),
    {
        v.push(to_ascii_lower(c));
        proof {
            assert(s@.take(it.index() + 1) =~= s@.take(it.index() as int).push(c));
            assert(lowered(s@.take(it.index() as int).push(c)) =~= lowered(
                s@.take(it.index() as int),
            ).push(ascii_lower(c)));
        }
    }
    proof {
        assert(s@.take(s@.len() as int) =~= s@);
    }
    v
}

/// Whether `needle` stands in `hay` at index `i`.
pub fn matches_at(hay: &[char], needle: &[char], i: usize) -> (r: bool)
    requires
        i + needle@.len() <= hay@.len(),
    ensures
        r == occurs_at(hay@, needle@, i as int),
{
    let m: usize = needle.len();
    let n: usize = hay.len();
    let mut k: usize = 0;
    while k < m
        invariant
            k <= m,
            m == needle@.len(),
            n == hay@.len(),
            i + m <= n,
            forall|j: int| 0 <= j < k ==> hay@[i + j] == needle@[j],
        decreases m - k,
    {
        if hay[i + k] != needle[k] {
            proof {
                assert(hay@.subrange(i as int, i + m)[k as int] == hay@[i + k]);
            }
            return false;
        }
        k = k + 1;
    }
    proof {
        assert(hay@.subrange(i as int, i + m) =~= needle@);
    }
    true
}

/// The least index at or after `from` at which `needle` stands in `hay`.
pub fn find_text(hay: &[char], needle: &[char], from: usize) -> (r: Option<usize>)
    ensures
        match r {
            Some(i) => first_occurrence(hay@, needle@, from as int) == Some(i as int),
            None => first_occurrence(hay@, needle@, from as int) is None,
        },
{
    let n: usize = hay.len();
    let m: usize = needle.len();
    if m > n || from > n - m {
        return None;
    }
    let last: usize = n - m;
    let mut i: usize = from;
    loop
        invariant
            n == hay@.len(),
            m == needle@.len(),
            last == n - m,
            from <= i <= last,
            first_occurrence(hay@, needle@, from as int) == first_occurrence(
                hay@,
                needle@,
                i as int,
            ),
        decreases last - i,
    {
        if matches_at(hay, needle, i) {
            return Some(i);
        }
        if i == last {
            proof {
                assert(first_occurrence(hay@, needle@, i + 1) is None);
            }
            return None;
        }
        i = i + 1;
    }
}

/// Whether `needle` stands somewhere in `hay`.
pub fn has_text(hay: &[char], needle: &str) -> (r: bool)
    ensures
        r == contains_text(hay@, needle@),
{
    let pattern: Vec<char> = chars_of(needle);
    proof {
        lemma_contains_iff_found(hay@, needle@);
    }
    find_text(hay, pattern.as_slice(), 0).is_some()
}

/// Whether the character is one of the ten ASCII digits.
pub fn is_ascii_digit(c: char) -> (r: bool)
    ensures
        r == is_digit(c),
{
    '0' <= c && c <= '9'
}

/// Reads the run of ASCII digits that starts at `from` as a 32-bit number.
/// Nothing where there is no digit, or where the number does not fit.
pub fn read_decimal(text: &[char], from: usize) -> (r: Option<u32>)
    requires
        from <= text@.len(),
    ensures
        ({
            let run = digit_run(text@.skip(from as int));
            r == if run.len() > 0 && decimal_value(run) <= u32::MAX {
                Some(decimal_value(run) as u32)
            } else {
                None
            }
        }),
{
    let n: usize = text.len();
    let ghost tail = text@.skip(from as int);
    // The number read so far, held at 2^32 once it has passed the 32-bit range.
    let mut value: u64 = 0;
    let mut i: usize = from;
    proof {
        assert(tail.take(0) =~= Seq::<char>::empty());
    }
    while i < n && is_ascii_digit(text[i])
        invariant
            n == text@.len(),
            from <= i <= n,
            tail == text@.skip(from as int),
            forall|j: int| 0 <= j < i - from ==> is_digit(tail[j]),
            value <= 0x1_0000_0000,
            value as nat == if decimal_value(tail.take(i - from)) < 0x1_0000_0000 {
                decimal_value(tail.take(i - from))
            } else {
                0x1_0000_0000
            },
        decreases n - i,
    {
        let digit: u64 = (text[i] as u32 - '0' as u32) as u64;
        proof {
            let next = tail.take(i - from + 1);
            assert(next.drop_last() =~= tail.take(i - from));
            assert(next.last() == text@[i as int]);
        }
        let grown: u64 = value * 10 + digit;
        value = if grown > 0xffff_ffff {
            0x1_0000_0000
        } else {
            grown
        };
        i = i + 1;
    }
    proof {
        lemma_digit_run_is(tail, i - from);
    }
    if i == from || value > 0xffff_ffff {
        None
    } else {
        Some(value as u32)
    }
}

/// A character with the Unicode `White_Space` property.
pub open spec fn is_space(c: char) -> bool {
    ||| '\u{9}' <= c <= '\u{d}'
    ||| c == ' '
    ||| c == '\u{85}'
    ||| c == '\u{a0}'
    ||| c == '\u{1680}'
    ||| '\u{2000}' <= c <= '\u{200a}'
    ||| c == '\u{2028}'
    ||| c == '\u{2029}'
    ||| c == '\u{202f}'
    ||| c == '\u{205f}'
    ||| c == '\u{3000}'
}

/// How many white-space characters `s` starts with.
pub open spec fn leading_spaces(s: Seq<char>) -> nat
    decreases s.len(),
{
    if s.len() > 0 && is_space(s[0]) {
        1 + leading_spaces(s.drop_first())
    } else {
        0
    }
}

/// How many white-space characters `s` ends with.
pub open spec fn trailing_spaces(s: Seq<char>) -> nat
    decreases s.len(),
{
    if s.len() > 0 && is_space(s.last()) {
        1 + trailing_spaces(s.drop_last())
    } else {
        0
    }
}

/// `s` without the white space it starts with.
pub open spec fn trimmed_start(s: Seq<char>) -> Seq<char> {
    s.skip(leading_spaces(s) as int)
}

/// `s` without the white space it starts and ends with.
pub open spec fn trimmed(s: Seq<char>) -> Seq<char> {
    let rest = trimmed_start(s);
    rest.take(rest.len() - trailing_spaces(rest))
}

/// `s` begins with `prefix`.
pub open spec fn starts_with(s: Seq<char>, prefix: Seq<char>) -> bool {
    prefix.len() <= s.len() && s.take(prefix.len() as int) == prefix
}

/// Every character of `s` is an ASCII digit.
pub open spec fn all_digits(s: Seq<char>) -> bool {
    forall|i: int| 0 <= i < s.len() ==> is_digit(#[trigger] s[i])
}

/// White space counted from the front ends at the first character that is none.
pub proof fn lemma_leading_spaces_is(s: Seq<char>, k: int)
    requires
        0 <= k <= s.len(),
        forall|j: int| 0 <= j < k ==> is_space(s[j]),
        k < s.len() ==> !is_space(s[k]),
    ensures
        leading_spaces(s) == k,
    decreases k,
{
    if k > 0 {
        let rest = s.drop_first();
        assert forall|j: int| 0 <= j < k - 1 implies is_space(rest[j]) by {
            assert(rest[j] == s[j + 1]);
        }
        lemma_leading_spaces_is(rest, k - 1);
    }
}

/// White space counted from the back ends at the last character that is none.
pub proof fn lemma_trailing_spaces_is(s: Seq<char>, k: int)
    requires
        0 <= k <= s.len(),
        forall|j: int| s.len() - k <= j < s.len() ==> is_space(s[j]),
        k < s.len() ==> !is_space(s[s.len() - k - 1]),
    ensures
        trailing_spaces(s) == k,
    decreases k,
{
    if k > 0 {
        let rest = s.drop_last();
        assert forall|j: int| rest.len() - (k - 1) <= j < rest.len() implies is_space(rest[j]) by {
            assert(rest[j] == s[j]);
        }
        lemma_trailing_spaces_is(rest, k - 1);
    }
}

/// Whether the character has the Unicode `White_Space` property.
pub fn is_whitespace_char(c: char) -> (r: bool)
    ensures
        r == is_space(c),
{
    ('\u{9}' <= c && c <= '\u{d}') || c == ' ' || c == '\u{85}' || c == '\u{a0}' || c
        == '\u{1680}' || ('\u{2000}' <= c && c <= '\u{200a}') || c == '\u{2028}' || c
        == '\u{2029}' || c == '\u{202f}' || c == '\u{205f}' || c == '\u{3000}'
}

/// The index in `start..=end` of the first character at or after `start`
/// that is no white space, or `end` where there is none before it.
pub fn skip_spaces(text: &[char], start: usize, end: usize) -> (r: usize)
    requires
        start <= end <= text@.len(),
    ensures
        start <= r <= end,
        r - start == leading_spaces(text@.subrange(start as int, end as int)),
{
    let ghost part = text@.subrange(start as int, end as int);
    let mut i: usize = start;
    while i < end && is_whitespace_char(text[i])
        invariant
            start <= i <= end <= text@.len(),
            part == text@.subrange(start as int, end as int),
            forall|j: int| 0 <= j < i - start ==> is_space(part[j]),
        decreases end - i,
    {
        i = i + 1;
    }
    proof {
        lemma_leading_spaces_is(part, i - start);
    }
    i
}

/// The index in `start..=end` just after the last character before `end`
/// that is no white space, or `start` where there is none.
pub fn skip_spaces_back(text: &[char], start: usize, end: usize) -> (r: usize)
    requires
        start <= end <= text@.len(),
    ensures
        start <= r <= end,
        end - r == trailing_spaces(text@.subrange(start as int, end as int)),
{
    let ghost part = text@.subrange(start as int, end as int);
    let mut i: usize = end;
    while i > start && is_whitespace_char(text[i - 1])
        invariant
            start <= i <= end <= text@.len(),
            part == text@.subrange(start as int, end as int),
            forall|j: int| i - start <= j < part.len() ==> is_space(part[j]),
        decreases i,
    {
        i = i - 1;
    }
    proof {
        lemma_trailing_spaces_is(part, end - i);
    }
    i
}

/// Whether `text` from `from` on begins with `prefix`.
pub fn begins_with(text: &[char], from: usize, prefix: &str) -> (r: bool)
    requires
        from <= text@.len(),
    ensures
        r == starts_with(text@.skip(from as int), prefix@),
{
    let pattern: Vec<char> = chars_of(prefix);
    let n: usize = text.len();
    if pattern.len() > n - from {
        return false;
    }
    let r = matches_at(text, pattern.as_slice(), from);
    proof {
        assert(text@.skip(from as int).take(prefix@.len() as int) =~= text@.subrange(
            from as int,
            from + prefix@.len(),
        ));
    }
    r
}

/// Whether two strings have the same characters.
pub fn same_text(a: &str, b: &str) -> (r: bool)
    ensures
        r == (a@ == b@),
{
    let x: Vec<char> = chars_of(a);
    let y: Vec<char> = chars_of(b);
    if x.len() != y.len() {
        return false;
    }
    let r = matches_at(x.as_slice(), y.as_slice(), 0);
    proof {
        assert(x@.subrange(0, y@.len() as int) =~= x@);
    }
    r
}

/// `s` with every occurrence of `from` replaced by `to`, found from left to
/// right and not overlapping. An empty `from` replaces nothing.
pub open spec fn replaced(s: Seq<char>, from: Seq<char>, to: Seq<char>) -> Seq<char>
    decreases s.len(),
{
    if from.len() == 0 || s.len() < from.len() {
        s
    } else if s.take(from.len() as int) == from {
        to + replaced(s.skip(from.len() as int), from, to)
    } else {
        seq![s[0]] + replaced(s.drop_first(), from, to)
    }
}

/// Replaces every occurrence of `from` in `text` by `to`.
pub fn replace_text(text: &[char], from: &str, to: &str) -> (out: Vec<char>)
    ensures
        out@ == replaced(text@, from@, to@),
{
    let pattern: Vec<char> = chars_of(from);
    let with: Vec<char> = chars_of(to);
    let n: usize = text.len();
    let m: usize = pattern.len();
    let mut out: Vec<char> = Vec::new();
    if m == 0 || m > n {
        out.extend_from_slice(text);
        return out;
    }
    let mut i: usize = 0;
    proof {
        assert(text@.skip(0) =~= text@);
    }
    while i < n
        invariant
            n == text@.len(),
            m == pattern@.len(),
            0 < m <= n,
            i <= n,
            pattern@ == from@,
            with@ == to@,
            out@ + replaced(text@.skip(i as int), from@, to@) == replaced(text@, from@, to@),
        decreases n - i,
    {
        let ghost here = text@.skip(i as int);
        if m <= n - i && matches_at(text, pattern.as_slice(), i) {
            proof {
                assert(here.take(m as int) =~= text@.subrange(i as int, i + m));
                assert(here.skip(m as int) =~= text@.skip(i + m));
                let rest = replaced(text@.skip(i + m), from@, to@);
                assert((out@ + to@) + rest =~= out@ + (to@ + rest));
            }
            out.extend_from_slice(with.as_slice());
            i = i + m;
        } else {
            proof {
                if m <= n - i {
                    assert(here.take(m as int) =~= text@.subrange(i as int, i + m));
                }
                assert(here.drop_first() =~= text@.skip(i + 1));
                let rest = replaced(text@.skip(i + 1), from@, to@);
                assert(here[0] == text@[i as int]);
                if here.len() >= m {
                    assert(out@.push(text@[i as int]) + rest =~= out@ + (seq![here[0]] + rest));
                } else {
                    assert(replaced(here, from@, to@) == here);
                    assert(rest == text@.skip(i + 1));
                    assert(out@.push(text@[i as int]) + rest =~= out@ + here);
                }
            }
            out.push(text[i]);
            i = i + 1;
        }
    }
    proof {
        assert(text@.skip(n as int) =~= Seq::<char>::empty());
        assert(out@ + Seq::<char>::empty() =~= out@);
    }
    out
}

/// The bounds of `start..end` without the white space at its two ends.
pub fn trim_bounds(text: &[char], start: usize, end: usize) -> (r: (usize, usize))
    requires
        start <= end <= text@.len(),
    ensures
        start <= r.0 <= r.1 <= end,
        text@.subrange(r.0 as int, r.1 as int) == trimmed(
            text@.subrange(start as int, end as int),
        ),
{
    let first: usize = skip_spaces(text, start, end);
    let last: usize = skip_spaces_back(text, first, end);
    proof {
        let part = text@.subrange(start as int, end as int);
        assert(part.skip(first - start) =~= text@.subrange(first as int, end as int));
        assert(trimmed(part) =~= text@.subrange(first as int, last as int));
    }
    (first, last)
}

} // verus!
