//! Include directives in a Markdown text: `{{#include path}}` stands for a
//! file, `{{#rustdoc_include path:tag}}` for a file's anchored region. The
//! directives are found and their replacements are chosen here; reading the
//! files is the caller's part.

use vstd::prelude::*;
use vstd::string::StringExecFns;
use crate::anchors::{
    anchor_line, anchored_region, extract_anchored_region, strip_anchor_comment_lines,
    without_anchor_lines,
};
use crate::lines::{string_of, texts};
use crate::pattern::{
    Pattern, capture_views, group_view, regex_captures, regex_pieces, regex_valid,
};
use crate::text::{chars_of, same_text, trim_bounds, trimmed};

verus! {

/// One include directive.
pub struct Include {
    /// The directive is `rustdoc_include`: anchors apply.
    pub rustdoc: bool,
    /// The path as written, relative to the Markdown file.
    pub path: String,
    /// The tag of the region to include, where one is given.
    pub tag: Option<String>,
}

/// The directives of a text and the text around them.
pub struct IncludeScan {
    /// The parts of the text between the directives; one more than there are
    /// directives.
    pub pieces: Vec<String>,
    pub includes: Vec<Include>,
}

/// What came of reading the file that a directive names.
pub enum FileRead {
    /// The text of the file.
    Text(String),
    /// The file could not be read: the path that was tried and the reason.
    Failed { resolved: String, error: String },
}

/// What a directive says.
pub struct IncludeView {
    pub rustdoc: bool,
    pub path: Seq<char>,
    pub tag: Option<Seq<char>>,
}

impl Include {
    pub open spec fn view(&self) -> IncludeView {
        IncludeView { rustdoc: self.rustdoc, path: self.path@, tag: group_view(self.tag) }
    }
}

/// The pattern of an include directive: its kind and its argument.
pub open spec fn include_pattern() -> Seq<char> {
    r"\{\{\s*#(rustdoc_include|include)\s+([^}]+)\}\}"@
}

/// The index of the last colon before `end`.
pub open spec fn last_colon(s: Seq<char>, end: int) -> Option<int>
    decreases end,
{
    if end <= 0 || end > s.len() {
        None
    } else if s[end - 1] == ':' {
        Some(end - 1)
    } else {
        last_colon(s, end - 1)
    }
}

/// What group `k` of a match matched; empty where it took no part.
pub open spec fn group_or_empty(groups: Seq<Option<Seq<char>>>, k: int) -> Seq<char> {
    if 0 <= k < groups.len() {
        match groups[k] {
            Some(s) => s,
            None => Seq::empty(),
        }
    } else {
        Seq::empty()
    }
}

/// The directive with this kind and argument. The argument counts without
/// the white space around it. For `rustdoc_include` what follows its last
/// colon is the tag, again without white space around it.
pub open spec fn directive_of(kind: Seq<char>, arg: Seq<char>) -> IncludeView {
    let a = trimmed(arg);
    if kind == "rustdoc_include"@ {
        match last_colon(a, a.len() as int) {
            Some(i) => IncludeView {
                rustdoc: true,
                path: a.take(i),
                tag: Some(trimmed(a.skip(i + 1))),
            },
            None => IncludeView { rustdoc: true, path: a, tag: None },
        }
    } else {
        IncludeView { rustdoc: false, path: a, tag: None }
    }
}

/// The directive of a match of the include pattern.
pub open spec fn directive_in(groups: Seq<Option<Seq<char>>>) -> IncludeView {
    directive_of(group_or_empty(groups, 1), group_or_empty(groups, 2))
}

/// What stands in the place of a directive, given the text of its file: the
/// file as it is; for `rustdoc_include`, the tagged region (nothing where
/// the file has none), or without a tag the file without its anchor lines.
pub open spec fn included(directive: IncludeView, file: Seq<char>) -> Seq<char> {
    if !directive.rustdoc {
        file
    } else {
        match directive.tag {
            Some(tag) => if tag.len() > 0 {
                match anchored_region(file, tag) {
                    Ok(region) => region,
                    Err(_) => Seq::empty(),
                }
            } else {
                without_anchor_lines(file)
            },
            None => without_anchor_lines(file),
        }
    }
}

/// Whether the replacement for a directive needs the pattern of anchor lines.
pub open spec fn strips_anchor_lines(directive: IncludeView) -> bool {
    directive.rustdoc && match directive.tag {
        Some(tag) => tag.len() == 0,
        None => true,
    }
}

/// The message that stands in the place of a directive whose file could not
/// be read.
pub open spec fn include_error(resolved: Seq<char>, path: Seq<char>, error: Seq<char>) -> Seq<
    char,
> {
    "[include error: could not read "@ + resolved + " (resolved from "@ + path + "): "@ + error
        + "]"@
}

/// What stands in the place of a directive, given what came of reading its
/// file: what the file's text yields, or the message on a file that could
/// not be read.
pub open spec fn replacement(directive: IncludeView, read: FileRead) -> Seq<char> {
    match read {
        FileRead::Text(file) => included(directive, file@),
        FileRead::Failed { resolved, error } => include_error(resolved@, directive.path, error@),
    }
}

/// The pieces from `from` on, each followed by the replacement of the same
/// number where there is one.
pub open spec fn spliced_from(
    pieces: Seq<Seq<char>>,
    replacements: Seq<Seq<char>>,
    from: int,
) -> Seq<char>
    decreases pieces.len() - from,
{
    if from < 0 || from >= pieces.len() {
        Seq::empty()
    } else {
        pieces[from] + (if from < replacements.len() {
            replacements[from]
        } else {
            Seq::empty()
        }) + spliced_from(pieces, replacements, from + 1)
    }
}

/// What group `k` of a match matched; empty where it took no part.
fn group_text(groups: &Vec<Option<String>>, k: usize) -> (r: &str)
    ensures
        r@ == group_or_empty(groups@.map_values(|g: Option<String>| group_view(g)), k as int),
{
    proof {
        reveal_strlit("");
    }
    if k < groups.len() {
        match &groups[k] {
            Some(s) => s.as_str(),
            None => "",
        }
    } else {
        ""
    }
}

/// The index of the last colon in `start..end`.
fn find_last_colon(chars: &[char], start: usize, end: usize) -> (r: Option<usize>)
    requires
        start <= end <= chars@.len(),
    ensures
        match r {
            Some(i) => start <= i < end && last_colon(
                chars@.subrange(start as int, end as int),
                end - start,
            ) == Some(i - start),
            None => last_colon(chars@.subrange(start as int, end as int), end - start) is None,
        },
{
    let ghost s = chars@.subrange(start as int, end as int);
    let mut i: usize = end;
    while i > start
        invariant
            start <= i <= end <= chars@.len(),
            s == chars@.subrange(start as int, end as int),
            last_colon(s, end - start) == last_colon(s, i - start),
        decreases i,
    {
        if chars[i - 1] == ':' {
            proof {
                assert(s[i - 1 - start] == ':');
            }
            return Some(i - 1);
        }
        proof {
            assert(s[i - 1 - start] == chars@[i - 1]);
        }
        i = i - 1;
    }
    None
}

/// Reads a directive from its kind and its argument.
pub fn parse_directive(kind: &str, arg: &str) -> (r: Include)
    ensures
        r@ == directive_of(kind@, arg@),
{
    let chars: Vec<char> = chars_of(arg);
    let n: usize = chars.len();
    proof {
        assert(chars@.subrange(0, n as int) =~= arg@);
    }
    let (start, end) = trim_bounds(chars.as_slice(), 0, n);
    let ghost a = chars@.subrange(start as int, end as int);
    if !same_text(kind, "rustdoc_include") {
        return Include {
            rustdoc: false,
            path: string_of(chars.as_slice(), start, end),
            tag: None,
        };
    }
    match find_last_colon(chars.as_slice(), start, end) {
        None => Include { rustdoc: true, path: string_of(chars.as_slice(), start, end), tag: None },
        Some(colon) => {
            let (tag_start, tag_end) = trim_bounds(chars.as_slice(), colon + 1, end);
            proof {
                assert(a.skip(colon - start + 1) =~= chars@.subrange(colon + 1, end as int));
                assert(a.take(colon - start) =~= chars@.subrange(start as int, colon as int));
            }
            Include {
                rustdoc: true,
                path: string_of(chars.as_slice(), start, colon),
                tag: Some(string_of(chars.as_slice(), tag_start, tag_end)),
            }
        },
    }
}

/// The directives of each match.
pub open spec fn include_views(includes: Seq<Include>) -> Seq<IncludeView> {
    includes.map_values(|i: Include| i@)
}

/// Finds the include directives of a text. Nothing where the pattern of
/// directives is not accepted.
pub fn find_includes(input: &str) -> (r: Option<IncludeScan>)
    ensures
        r is Some <==> regex_valid(include_pattern()),
        r matches Some(scan) ==> {
            &&& texts(scan.pieces@) == regex_pieces(include_pattern(), input@)
            &&& include_views(scan.includes@) == regex_captures(
                include_pattern(),
                input@,
            ).map_values(|groups: Seq<Option<Seq<char>>>| directive_in(groups))
        },
{
    let pattern: Pattern = match Pattern::compile(
        r"\{\{\s*#(rustdoc_include|include)\s+([^}]+)\}\}",
    ) {
        Some(p) => p,
        None => {
            return None;
        },
    };
    let pieces: Vec<String> = pattern.split(input);
    let captures: Vec<Vec<Option<String>>> = pattern.captures(input);
    let n: usize = captures.len();
    let mut includes: Vec<Include> = Vec::new();
    let mut i: usize = 0;
    let ghost all = capture_views(captures@);
    let ghost read = |groups: Seq<Option<Seq<char>>>| directive_in(groups);
    proof {
        assert(include_views(includes@) =~= all.take(0).map_values(read));
    }
    while i < n
        invariant
            n == captures@.len(),
            i <= n,
            all == capture_views(captures@),
            read == |groups: Seq<Option<Seq<char>>>| directive_in(groups),
            include_views(includes@) == all.take(i as int).map_values(read),
        decreases n - i,
    {
        let kind: &str = group_text(&captures[i], 1);
        let arg: &str = group_text(&captures[i], 2);
        let directive: Include = parse_directive(kind, arg);
        proof {
            assert(all[i as int] == captures@[i as int]@.map_values(
                |g: Option<String>| group_view(g),
            ));
            assert(directive@ == read(all[i as int]));
            assert(include_views(includes@.push(directive)) =~= include_views(includes@).push(
                directive@,
            ));
            assert(all.take(i + 1).map_values(read) =~= all.take(i as int).map_values(read).push(
                directive@,
            ));
        }
        includes.push(directive);
        i = i + 1;
    }
    proof {
        assert(all.take(n as int) =~= all);
    }
    Some(IncludeScan { pieces, includes })
}

/// What stands in the place of a directive, given the text of its file.
/// Nothing where the file's anchor lines are to go and their pattern is not
/// accepted.
pub fn included_text(directive: &Include, file: &str) -> (r: Option<String>)
    ensures
        r is Some <==> (strips_anchor_lines(directive@) ==> regex_valid(anchor_line())),
        r matches Some(s) ==> s@ == included(directive@, file@),
{
    if !directive.rustdoc {
        return Some(file.to_owned());
    }
    match &directive.tag {
        Some(tag) => {
            if !tag.as_str().is_empty() {
                match extract_anchored_region(file, tag.as_str()) {
                    Ok(region) => Some(region),
                    Err(_) => Some(String::new()),
                }
            } else {
                strip_anchor_comment_lines(file)
            }
        },
        None => strip_anchor_comment_lines(file),
    }
}

/// The message that stands in the place of a directive whose file could not
/// be read.
pub fn include_error_text(resolved: &str, path: &str, error: &str) -> (r: String)
    ensures
        r@ == include_error(resolved@, path@, error@),
{
    let mut r: String = "[include error: could not read ".to_owned();
    r.append(resolved);
    r.append(" (resolved from ");
    r.append(path);
    r.append("): ");
    r.append(error);
    r.append("]");
    r
}

/// What stands in the place of a directive, given what came of reading its
/// file. Nothing where the file's anchor lines are to go and their pattern
/// is not accepted.
pub fn replacement_for(directive: &Include, read: &FileRead) -> (r: Option<String>)
    ensures
        r is Some <==> (read is Text && strips_anchor_lines(directive@) ==> regex_valid(
            anchor_line(),
        )),
        r matches Some(s) ==> s@ == replacement(directive@, *read),
{
    match read {
        FileRead::Text(file) => included_text(directive, file.as_str()),
        FileRead::Failed { resolved, error } => Some(
            include_error_text(resolved.as_str(), directive.path.as_str(), error.as_str()),
        ),
    }
}

/// Puts the text together again: each piece, then the replacement of the
/// directive that followed it.
pub fn splice(pieces: &Vec<String>, replacements: &Vec<String>) -> (r: String)
    ensures
        r@ == spliced_from(texts(pieces@), texts(replacements@), 0),
{
    let n: usize = pieces.len();
    let m: usize = replacements.len();
    let mut r: String = String::new();
    let mut i: usize = 0;
    let ghost ps = texts(pieces@);
    let ghost rs = texts(replacements@);
    proof {
        assert(r@ + spliced_from(ps, rs, 0) =~= spliced_from(ps, rs, 0));
    }
    while i < n
        invariant
            n == pieces@.len(),
            m == replacements@.len(),
            i <= n,
            ps == texts(pieces@),
            rs == texts(replacements@),
            r@ + spliced_from(ps, rs, i as int) == spliced_from(ps, rs, 0),
        decreases n - i,
    {
        let ghost before = r@;
        let ghost rest = spliced_from(ps, rs, i + 1);
        r.append(pieces[i].as_str());
        if i < m {
            r.append(replacements[i].as_str());
            proof {
                assert(r@ + rest =~= before + (ps[i as int] + rs[i as int] + rest));
            }
        } else {
            proof {
                assert(r@ + rest =~= before + (ps[i as int] + Seq::<char>::empty() + rest));
            }
        }
        i = i + 1;
    }
    proof {
        assert(r@ + Seq::<char>::empty() =~= r@);
    }
    r
}

} // verus!
