//! Regular expressions, by the `regex` crate. What a pattern matches is not
//! defined here: each result of the crate has a name, and the contracts of
//! this library say what is done with the results.

use vstd::prelude::*;
use crate::lines::texts;

verus! {

/// A compiled pattern of the `regex` crate. Nothing is known of what is
/// inside it; `Pattern` keeps the source it was compiled from beside it.
#[verifier::external_type_specification]
#[verifier::external_body]
pub struct ExRegex(regex::Regex);

/// Whether the `regex` crate accepts the pattern.
pub uninterp spec fn regex_valid(pattern: Seq<char>) -> bool;

/// Whether the pattern matches anywhere in the text.
pub uninterp spec fn regex_matches(pattern: Seq<char>, text: Seq<char>) -> bool;

/// The text with the first match of the pattern replaced.
pub uninterp spec fn regex_replaced_first(
    pattern: Seq<char>,
    text: Seq<char>,
    replacement: Seq<char>,
) -> Seq<char>;

/// The text with every match of the pattern replaced.
pub uninterp spec fn regex_replaced_all(
    pattern: Seq<char>,
    text: Seq<char>,
    replacement: Seq<char>,
) -> Seq<char>;

/// The parts of the text between the matches of the pattern, in order.
pub uninterp spec fn regex_pieces(pattern: Seq<char>, text: Seq<char>) -> Seq<Seq<char>>;

/// For each match of the pattern in the text, in order, what each group of
/// the pattern matched, the whole match first; nothing for a group that took
/// no part.
pub uninterp spec fn regex_captures(pattern: Seq<char>, text: Seq<char>) -> Seq<
    Seq<Option<Seq<char>>>,
>;

/// A character with a meaning of its own in a pattern.
pub open spec fn is_meta(c: char) -> bool {
    c == '\\' || c == '.' || c == '+' || c == '*' || c == '?' || c == '(' || c == ')' || c == '|'
        || c == '[' || c == ']' || c == '{' || c == '}' || c == '^' || c == '$' || c == '#' || c
        == '&' || c == '-' || c == '~'
}

/// The text with a backslash before each of its meta characters.
pub open spec fn regex_escaped(text: Seq<char>) -> Seq<char>
    decreases text.len(),
{
    if text.len() == 0 {
        Seq::empty()
    } else if is_meta(text[0]) {
        seq!['\\', text[0]] + regex_escaped(text.drop_first())
    } else {
        seq![text[0]] + regex_escaped(text.drop_first())
    }
}

/// For each line, whether the pattern matches in it.
pub open spec fn matches_of(pattern: Seq<char>, lines: Seq<Seq<char>>) -> Seq<bool> {
    lines.map_values(|line: Seq<char>| regex_matches(pattern, line))
}

/// The characters of an optional string.
pub open spec fn group_view(group: Option<String>) -> Option<Seq<char>> {
    match group {
        Some(s) => Some(s@),
        None => None,
    }
}

/// The characters of the groups of each match.
pub open spec fn capture_views(captures: Seq<Vec<Option<String>>>) -> Seq<
    Seq<Option<Seq<char>>>,
> {
    captures.map_values(
        |groups: Vec<Option<String>>| groups@.map_values(|g: Option<String>| group_view(g)),
    )
}

/// A compiled pattern together with its source.
pub struct Pattern {
    source: String,
    compiled: regex::Regex,
}

impl Pattern {
    /// The text that the pattern was compiled from.
    pub closed spec fn source(&self) -> Seq<char> {
        self.source@
    }

    /// Compiles a pattern with `Regex::new`. The call succeeds exactly on the
    /// patterns that the crate accepts, and the result remembers its source.
    #[verifier::external_body]
    pub(crate) fn compile(source: &str) -> (r: Option<Pattern>)
        ensures
            r is Some <==> regex_valid(source@),
            r matches Some(p) ==> p.source() == source@,
    {
        match regex::Regex::new(source) {
            Ok(compiled) => Some(Pattern { source: source.to_owned(), compiled }),
            Err(_) => None,
        }
    }

    /// `Regex::is_match`: whether the pattern matches anywhere in the text,
    /// which depends on the pattern and the text alone.
    #[verifier::external_body]
    pub(crate) fn is_match(&self, text: &str) -> (r: bool)
        ensures
            r == regex_matches(self.source(), text@),
    {
        self.compiled.is_match(text)
    }

    /// `Regex::replace` with a replacement string: the text with the first
    /// match replaced, which depends on pattern, text and replacement alone.
    #[verifier::external_body]
    pub(crate) fn replace_first(&self, text: &str, replacement: &str) -> (r: String)
        ensures
            r@ == regex_replaced_first(self.source(), text@, replacement@),
    {
        self.compiled.replace(text, replacement).into_owned()
    }

    /// `Regex::replace_all` with a replacement string: the text with every
    /// match replaced, which depends on pattern, text and replacement alone.
    #[verifier::external_body]
    pub(crate) fn replace_all(&self, text: &str, replacement: &str) -> (r: String)
        ensures
            r@ == regex_replaced_all(self.source(), text@, replacement@),
    {
        self.compiled.replace_all(text, replacement).into_owned()
    }

    /// For each line, whether the pattern matches in it.
    pub(crate) fn matches_each(&self, lines: &Vec<String>) -> (marks: Vec<bool>)
        ensures
            marks@ == matches_of(self.source(), texts(lines@)),
    {
        let n: usize = lines.len();
        let mut marks: Vec<bool> = Vec::new();
        let mut i: usize = 0;
        while i < n
            invariant
                n == lines@.len(),
                i <= n,
                marks@ == matches_of(self.source(), texts(lines@).take(i as int)),
            decreases n - i,
        {
            let found: bool = self.is_match(lines[i].as_str());
            proof {
                assert(texts(lines@).take(i + 1) =~= texts(lines@).take(i as int).push(
                    lines@[i as int]@,
                ));
            }
            marks.push(found);
            i = i + 1;
        }
        proof {
            assert(texts(lines@).take(n as int) =~= texts(lines@));
        }
        marks
    }

    /// `Regex::split`: the parts of the text that the matches of the pattern
    /// delimit, which depend on the pattern and the text alone.
    #[verifier::external_body]
    pub(crate) fn split(&self, text: &str) -> (r: Vec<String>)
        ensures
            texts(r@) == regex_pieces(self.source(), text@),
    {
        self.compiled.split(text).map(|piece| piece.to_owned()).collect()
    }

    /// `Regex::captures_iter`: the groups of each match of the pattern in the
    /// text, which depend on the pattern and the text alone.
    #[verifier::external_body]
    pub(crate) fn captures(&self, text: &str) -> (r: Vec<Vec<Option<String>>>)
        ensures
            capture_views(r@) == regex_captures(self.source(), text@),
    {
        self.compiled
            .captures_iter(text)
            .map(|c| c.iter().map(|g| g.map(|m| m.as_str().to_owned())).collect())
            .collect()
    }
}

/// `regex::escape`: the text with a backslash put before each character
/// that the crate counts as a meta character, and nothing else changed.
#[verifier::external_body]
pub(crate) fn escape(text: &str) -> (r: String)
    ensures
        r@ == regex_escaped(text@),
{
    regex::escape(text)
}

} // verus!
