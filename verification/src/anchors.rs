//! Anchor comments in included source files: `// ANCHOR: tag` and
//! `// ANCHOR_END: tag` mark a region; the comments themselves are never
//! part of what is included.

use vstd::prelude::*;
use vstd::string::StringExecFns;
use crate::lines::{
    join_lines, joined, lines_of, marked, split_lines, texts, unmarked_from, unmarked_lines,
};
use crate::pattern::{Pattern, escape, matches_of, regex_escaped, regex_valid};
use crate::text::chars_of;

verus! {

/// Why a region could not be extracted.
#[derive(Clone, Copy, Debug, PartialEq, Eq, Structural)]
pub enum AnchorError {
    /// No line opens a region with the tag.
    NotFound,
    /// The pattern for the tag's anchor lines was not accepted.
    BadPattern,
}

/// The pattern of a line that is an anchor comment of any tag.
pub open spec fn anchor_line() -> Seq<char> {
    r"^\s*//\s*ANCHOR(?:_END)?:\s*\S+\s*$"@
}

/// The pattern of the line that opens the region `tag`.
pub open spec fn anchor_start(tag: Seq<char>) -> Seq<char> {
    r"^\s*//\s*ANCHOR:\s*"@ + regex_escaped(tag) + r"\s*$"@
}

/// The pattern of the line that closes the region `tag`.
pub open spec fn anchor_end(tag: Seq<char>) -> Seq<char> {
    r"^\s*//\s*ANCHOR_END:\s*"@ + regex_escaped(tag) + r"\s*$"@
}

/// The lines from `from` on that lie in a region, where `opens` marks the
/// lines that open one and `closes` those that close one. Outside a region a
/// line that opens one does so and is left out; inside, a line that closes
/// it does so and is left out, and any other line belongs to the region.
pub open spec fn region_from(
    lines: Seq<Seq<char>>,
    opens: Seq<bool>,
    closes: Seq<bool>,
    from: int,
    inside: bool,
) -> Seq<Seq<char>>
    decreases lines.len() - from,
{
    if from < 0 || from >= lines.len() {
        Seq::empty()
    } else if !inside {
        region_from(lines, opens, closes, from + 1, marked(opens, from))
    } else if marked(closes, from) {
        region_from(lines, opens, closes, from + 1, false)
    } else {
        seq![lines[from]] + region_from(lines, opens, closes, from + 1, true)
    }
}

/// Whether a region opens at or after line `from` of `count` lines.
pub open spec fn region_opens(
    count: int,
    opens: Seq<bool>,
    closes: Seq<bool>,
    from: int,
    inside: bool,
) -> bool
    decreases count - from,
{
    if from < 0 || from >= count {
        false
    } else if !inside {
        marked(opens, from) || region_opens(count, opens, closes, from + 1, false)
    } else {
        region_opens(count, opens, closes, from + 1, !marked(closes, from))
    }
}

/// The lines of all regions, or nothing where no region opens.
pub open spec fn marked_region(lines: Seq<Seq<char>>, opens: Seq<bool>, closes: Seq<bool>) -> Option<
    Seq<Seq<char>>,
> {
    if region_opens(lines.len() as int, opens, closes, 0, false) {
        Some(region_from(lines, opens, closes, 0, false))
    } else {
        None
    }
}

/// The text without its anchor comment lines.
pub open spec fn without_anchor_lines(text: Seq<char>) -> Seq<char> {
    let lines = lines_of(text);
    joined(unmarked_from(lines, matches_of(anchor_line(), lines), 0))
}

/// The lines of the region `tag` of a text, joined; all regions of the tag
/// count.
pub open spec fn anchored_region(text: Seq<char>, tag: Seq<char>) -> Result<
    Seq<char>,
    AnchorError,
> {
    let lines = lines_of(text);
    if !regex_valid(anchor_start(tag)) || !regex_valid(anchor_end(tag)) {
        Err(AnchorError::BadPattern)
    } else {
        match marked_region(
            lines,
            matches_of(anchor_start(tag), lines),
            matches_of(anchor_end(tag), lines),
        ) {
            Some(region) => Ok(joined(region)),
            None => Err(AnchorError::NotFound),
        }
    }
}

/// The lines of the regions that `opens` and `closes` mark out, in order;
/// nothing where no line opens a region.
pub fn region_lines(lines: &Vec<String>, opens: &Vec<bool>, closes: &Vec<bool>) -> (r: Option<
    Vec<String>,
>)
    ensures
        match r {
            Some(region) => marked_region(texts(lines@), opens@, closes@) == Some(texts(region@)),
            None => marked_region(texts(lines@), opens@, closes@) is None,
        },
{
    let n: usize = lines.len();
    let mut out: Vec<String> = Vec::new();
    let mut inside: bool = false;
    let mut found: bool = false;
    let mut i: usize = 0;
    let ghost all = texts(lines@);
    let ghost done: Seq<Seq<char>> = Seq::empty();
    proof {
        assert(texts(out@) =~= done);
    }
    while i < n
        invariant
            n == lines@.len(),
            i <= n,
            all == texts(lines@),
            texts(out@) == done,
            done + region_from(all, opens@, closes@, i as int, inside) == region_from(
                all,
                opens@,
                closes@,
                0,
                false,
            ),
            (found || region_opens(n as int, opens@, closes@, i as int, inside)) == region_opens(
                n as int,
                opens@,
                closes@,
                0,
                false,
            ),
        decreases n - i,
    {
        if !inside {
            if i < opens.len() && opens[i] {
                inside = true;
                found = true;
            }
        } else if i < closes.len() && closes[i] {
            inside = false;
        } else {
            let line: String = lines[i].clone();
            proof {
                let rest = region_from(all, opens@, closes@, i + 1, true);
                assert(line@ == all[i as int]);
                assert(texts(out@.push(line)) =~= texts(out@).push(line@));
                assert(done.push(line@) + rest =~= done + (seq![line@] + rest));
                done = done.push(line@);
            }
            out.push(line);
        }
        i = i + 1;
    }
    proof {
        assert(done + Seq::<Seq<char>>::empty() =~= done);
    }
    if found {
        Some(out)
    } else {
        None
    }
}

/// Removes the anchor comment lines of a text. Nothing where the pattern of
/// such lines is not accepted.
pub fn strip_anchor_comment_lines(input: &str) -> (r: Option<String>)
    ensures
        match r {
            Some(s) => regex_valid(anchor_line()) && s@ == without_anchor_lines(input@),
            None => !regex_valid(anchor_line()),
        },
{
    let pattern: Pattern = match Pattern::compile(r"^\s*//\s*ANCHOR(?:_END)?:\s*\S+\s*$") {
        Some(p) => p,
        None => {
            return None;
        },
    };
    let chars: Vec<char> = chars_of(input);
    let lines: Vec<String> = split_lines(chars.as_slice());
    let marks: Vec<bool> = pattern.matches_each(&lines);
    let kept: Vec<String> = unmarked_lines(&lines, &marks);
    Some(join_lines(&kept))
}

/// The pattern `prefix`, the escaped tag, and `\s*$`.
fn anchor_pattern(prefix: &str, tag: &str) -> (r: Option<Pattern>)
    ensures
        r is Some <==> regex_valid(prefix@ + regex_escaped(tag@) + r"\s*$"@),
        r matches Some(p) ==> p.source() == prefix@ + regex_escaped(tag@) + r"\s*$"@,
{
    let mut source: String = prefix.to_owned();
    let escaped: String = escape(tag);
    source.append(escaped.as_str());
    source.append(r"\s*$");
    Pattern::compile(source.as_str())
}

/// Extracts the lines between `// ANCHOR: tag` and `// ANCHOR_END: tag`.
pub fn extract_anchored_region(input: &str, tag: &str) -> (r: Result<String, AnchorError>)
    ensures
        match r {
            Ok(s) => anchored_region(input@, tag@) == Ok::<Seq<char>, AnchorError>(s@),
            Err(e) => anchored_region(input@, tag@) == Err::<Seq<char>, AnchorError>(e),
        },
{
    let start: Option<Pattern> = anchor_pattern(r"^\s*//\s*ANCHOR:\s*", tag);
    let end: Option<Pattern> = anchor_pattern(r"^\s*//\s*ANCHOR_END:\s*", tag);
    let (start, end) = match (start, end) {
        (Some(s), Some(e)) => (s, e),
        _ => {
            return Err(AnchorError::BadPattern);
        },
    };
    let chars: Vec<char> = chars_of(input);
    let lines: Vec<String> = split_lines(chars.as_slice());
    let opens: Vec<bool> = start.matches_each(&lines);
    let closes: Vec<bool> = end.matches_each(&lines);
    match region_lines(&lines, &opens, &closes) {
        Some(region) => Ok(join_lines(&region)),
        None => Err(AnchorError::NotFound),
    }
}

} // verus!
