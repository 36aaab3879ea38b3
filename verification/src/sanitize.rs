//! Turning Markdown into text that reads well aloud: links, images, tags,
//! fences and list markers go, the words stay.

use vstd::prelude::*;
use crate::lines::{
    join_lines, joined, lines_of, split_lines, string_of, texts, unmarked_from, unmarked_lines,
};
use crate::pattern::{
    Pattern, regex_replaced_all, regex_replaced_first, regex_valid,
};
use crate::text::{
    begins_with, chars_of, contains_text, find_text, lemma_contains_iff_found, replace_text,
    replaced, skip_spaces, skip_spaces_back, starts_with, trimmed, trimmed_start,
};

verus! {

/// An inline image, `![alt](url)`.
pub open spec fn image_inline() -> Seq<char> {
    r"!\[([^\]]+)\]\([^\)]+\)"@
}

/// A reference image, `![alt][id]`.
pub open spec fn image_reference() -> Seq<char> {
    r"!\[([^\]]+)\]\[[^\]]*\]"@
}

/// An inline link, `[text](url)`.
pub open spec fn link_inline() -> Seq<char> {
    r"\[([^\]]+)\]\([^\)]+\)"@
}

/// A reference link, `[text][id]`.
pub open spec fn link_reference() -> Seq<char> {
    r"\[([^\]]+)\]\[[^\]]*\]"@
}

/// An autolink, `<http://...>`.
pub open spec fn autolink() -> Seq<char> {
    r"<https?://[^>]+>"@
}

/// A bare URL.
pub open spec fn bare_url() -> Seq<char> {
    r"https?://\S+"@
}

/// An HTML image tag with an `alt` attribute.
pub open spec fn image_tag() -> Seq<char> {
    r#"(?is)<img\b[^>]*?alt\s*=\s*(?:"([^"]*)"|'([^']*)'|([^\s>]+))[^>]*>"#@
}

/// An HTML comment.
pub open spec fn html_comment() -> Seq<char> {
    r"(?s)<!--.*?-->"@
}

/// An HTML tag.
pub open spec fn html_tag() -> Seq<char> {
    r"</?[^>]+>"@
}

/// The marks of a heading at the start of a line.
pub open spec fn heading_marks() -> Seq<char> {
    r"^\s*#{1,6}\s*"@
}

/// The marks of a block quote at the start of a line.
pub open spec fn quote_marks() -> Seq<char> {
    r"^\s*>+\s*"@
}

/// The mark of a bullet item at the start of a line.
pub open spec fn bullet_mark() -> Seq<char> {
    r"^\s*[-*+]\s+"@
}

/// The mark of a numbered item at the start of a line.
pub open spec fn number_mark() -> Seq<char> {
    r"^\s*\d+[\.)]\s+"@
}

/// Three or more newlines in a row.
pub open spec fn blank_run() -> Seq<char> {
    r"\n{3,}"@
}

/// The patterns that removing links uses are all accepted.
pub open spec fn link_patterns_valid() -> bool {
    &&& regex_valid(image_inline())
    &&& regex_valid(image_reference())
    &&& regex_valid(link_inline())
    &&& regex_valid(link_reference())
    &&& regex_valid(autolink())
    &&& regex_valid(bare_url())
}

/// The patterns that the whole clean-up uses are all accepted.
pub open spec fn patterns_valid() -> bool {
    &&& link_patterns_valid()
    &&& regex_valid(image_tag())
    &&& regex_valid(html_comment())
    &&& regex_valid(html_tag())
    &&& regex_valid(heading_marks())
    &&& regex_valid(quote_marks())
    &&& regex_valid(bullet_mark())
    &&& regex_valid(number_mark())
    &&& regex_valid(blank_run())
}

/// A line that defines a reference link, `[id]: url`.
pub open spec fn is_link_definition(line: Seq<char>) -> bool {
    starts_with(trimmed_start(line), "["@) && contains_text(trimmed_start(line), "]: "@)
}

/// A line of a listing tag or of a code fence.
pub open spec fn is_listing_or_fence(line: Seq<char>) -> bool {
    let t = trimmed_start(line);
    starts_with(t, "<Listing"@) || starts_with(t, "</Listing"@) || starts_with(t, "```"@)
}

/// The text without the lines that define reference links.
pub open spec fn without_link_definitions(text: Seq<char>) -> Seq<char> {
    let lines = lines_of(text);
    joined(unmarked_from(lines, lines.map_values(|l: Seq<char>| is_link_definition(l)), 0))
}

/// The text without the lines of listing tags and code fences.
pub open spec fn without_listings_and_fences(text: Seq<char>) -> Seq<char> {
    let lines = lines_of(text);
    joined(unmarked_from(lines, lines.map_values(|l: Seq<char>| is_listing_or_fence(l)), 0))
}

/// A line without the marks of a heading, a quote, a bullet item and a
/// numbered item at its start, taken off in this order.
pub open spec fn without_markers(line: Seq<char>) -> Seq<char> {
    let a = regex_replaced_first(heading_marks(), line, ""@);
    let b = regex_replaced_first(quote_marks(), a, ""@);
    let c = regex_replaced_first(bullet_mark(), b, ""@);
    regex_replaced_first(number_mark(), c, ""@)
}

/// The text with images turned into their alt text, link definitions
/// dropped, links turned into their text, and URLs removed.
pub open spec fn without_links(text: Seq<char>) -> Seq<char> {
    let a = regex_replaced_all(image_inline(), text, "$1"@);
    let b = regex_replaced_all(image_reference(), a, "$1"@);
    let c = without_link_definitions(b);
    let d = regex_replaced_all(link_inline(), c, "$1"@);
    let e = regex_replaced_all(link_reference(), d, "$1"@);
    let f = regex_replaced_all(autolink(), e, ""@);
    regex_replaced_all(bare_url(), f, ""@)
}

/// The text as it is handed to speech synthesis.
pub open spec fn sanitized(text: Seq<char>) -> Seq<char> {
    let a = without_links(text);
    let b = without_listings_and_fences(a);
    let c = regex_replaced_all(image_tag(), b, "$1$2$3"@);
    let d = regex_replaced_all(html_comment(), c, ""@);
    let e = regex_replaced_all(html_tag(), d, ""@);
    let f = replaced(replaced(e, "&str"@, "ref estr"@), "`str`"@, "estr"@);
    let g = replaced(f, "`"@, ""@);
    let h = joined(lines_of(g).map_values(|l: Seq<char>| without_markers(l)));
    let i = replaced(h, "scr/"@, "source/"@);
    let j = regex_replaced_all(blank_run(), i, "\n\n"@);
    trimmed(j)
}

/// Replaces every match of a pattern that is used this once.
fn replace_every(pattern: &str, text: &str, replacement: &str) -> (r: Option<String>)
    ensures
        r is Some <==> regex_valid(pattern@),
        r matches Some(s) ==> s@ == regex_replaced_all(pattern@, text@, replacement@),
{
    match Pattern::compile(pattern) {
        Some(p) => Some(p.replace_all(text, replacement)),
        None => None,
    }
}

/// Whether the line defines a reference link.
pub fn line_is_link_definition(line: &str) -> (r: bool)
    ensures
        r == is_link_definition(line@),
{
    let chars: Vec<char> = chars_of(line);
    let n: usize = chars.len();
    let first: usize = skip_spaces(chars.as_slice(), 0, n);
    proof {
        assert(chars@.subrange(0, n as int) =~= line@);
        assert(trimmed_start(line@) =~= chars@.subrange(first as int, n as int));
    }
    if !begins_with(chars.as_slice(), first, "[") {
        return false;
    }
    let rest: &[char] = vstd::slice::slice_subrange(chars.as_slice(), first, n);
    let mark: Vec<char> = chars_of("]: ");
    proof {
        lemma_contains_iff_found(rest@, "]: "@);
    }
    find_text(rest, mark.as_slice(), 0).is_some()
}

/// Whether the line belongs to a listing tag or is a code fence.
pub fn line_is_listing_or_fence(line: &str) -> (r: bool)
    ensures
        r == is_listing_or_fence(line@),
{
    let chars: Vec<char> = chars_of(line);
    let n: usize = chars.len();
    let first: usize = skip_spaces(chars.as_slice(), 0, n);
    proof {
        assert(chars@.subrange(0, n as int) =~= line@);
    }
    begins_with(chars.as_slice(), first, "<Listing") || begins_with(
        chars.as_slice(),
        first,
        "</Listing",
    ) || begins_with(chars.as_slice(), first, "```")
}

/// The text without the lines that define reference links.
pub fn drop_link_definitions(text: &str) -> (r: String)
    ensures
        r@ == without_link_definitions(text@),
{
    let chars: Vec<char> = chars_of(text);
    let lines: Vec<String> = split_lines(chars.as_slice());
    let n: usize = lines.len();
    let mut marks: Vec<bool> = Vec::new();
    let mut i: usize = 0;
    let ghost all = texts(lines@);
    let ghost judge = |l: Seq<char>| is_link_definition(l);
    while i < n
        invariant
            n == lines@.len(),
            i <= n,
            all == texts(lines@),
            judge == |l: Seq<char>| is_link_definition(l),
            marks@ == all.take(i as int).map_values(judge),
        decreases n - i,
    {
        let mark: bool = line_is_link_definition(lines[i].as_str());
        proof {
            assert(mark == judge(all[i as int]));
            assert(all.take(i + 1).map_values(judge) =~= all.take(i as int).map_values(judge).push(
                mark,
            ));
        }
        marks.push(mark);
        i = i + 1;
    }
    proof {
        assert(all.take(n as int) =~= all);
    }
    let kept: Vec<String> = unmarked_lines(&lines, &marks);
    join_lines(&kept)
}

/// The text without the lines of listing tags and code fences.
pub fn drop_listings_and_fences(text: &str) -> (r: String)
    ensures
        r@ == without_listings_and_fences(text@),
{
    let chars: Vec<char> = chars_of(text);
    let lines: Vec<String> = split_lines(chars.as_slice());
    let n: usize = lines.len();
    let mut marks: Vec<bool> = Vec::new();
    let mut i: usize = 0;
    let ghost all = texts(lines@);
    let ghost judge = |l: Seq<char>| is_listing_or_fence(l);
    while i < n
        invariant
            n == lines@.len(),
            i <= n,
            all == texts(lines@),
            judge == |l: Seq<char>| is_listing_or_fence(l),
            marks@ == all.take(i as int).map_values(judge),
        decreases n - i,
    {
        let mark: bool = line_is_listing_or_fence(lines[i].as_str());
        proof {
            assert(mark == judge(all[i as int]));
            assert(all.take(i + 1).map_values(judge) =~= all.take(i as int).map_values(judge).push(
                mark,
            ));
        }
        marks.push(mark);
        i = i + 1;
    }
    proof {
        assert(all.take(n as int) =~= all);
    }
    let kept: Vec<String> = unmarked_lines(&lines, &marks);
    join_lines(&kept)
}

/// Replaces in a text, string to string.
fn replace_in(text: &str, from: &str, to: &str) -> (r: String)
    ensures
        r@ == replaced(text@, from@, to@),
{
    let chars: Vec<char> = chars_of(text);
    let out: Vec<char> = replace_text(chars.as_slice(), from, to);
    let n: usize = out.len();
    let r = string_of(out.as_slice(), 0, n);
    proof {
        assert(out@.subrange(0, n as int) =~= out@);
    }
    r
}

/// The text without the white space around it.
fn trim(text: &str) -> (r: String)
    ensures
        r@ == trimmed(text@),
{
    let chars: Vec<char> = chars_of(text);
    let n: usize = chars.len();
    let start: usize = skip_spaces(chars.as_slice(), 0, n);
    let end: usize = skip_spaces_back(chars.as_slice(), start, n);
    proof {
        assert(chars@.subrange(0, n as int) =~= text@);
        assert(text@.skip(start as int) =~= chars@.subrange(start as int, n as int));
        assert(trimmed(text@) =~= chars@.subrange(start as int, end as int));
    }
    string_of(chars.as_slice(), start, end)
}

/// Removes links from a Markdown text and keeps their words. Nothing where
/// one of the patterns is not accepted.
pub fn remove_links_for_tts(input: &str) -> (r: Option<String>)
    ensures
        r is Some <==> link_patterns_valid(),
        r matches Some(s) ==> s@ == without_links(input@),
{
    let a: String = match replace_every(r"!\[([^\]]+)\]\([^\)]+\)", input, "$1") {
        Some(s) => s,
        None => {
            return None;
        },
    };
    let b: String = match replace_every(r"!\[([^\]]+)\]\[[^\]]*\]", a.as_str(), "$1") {
        Some(s) => s,
        None => {
            return None;
        },
    };
    let c: String = drop_link_definitions(b.as_str());
    let d: String = match replace_every(r"\[([^\]]+)\]\([^\)]+\)", c.as_str(), "$1") {
        Some(s) => s,
        None => {
            return None;
        },
    };
    let e: String = match replace_every(r"\[([^\]]+)\]\[[^\]]*\]", d.as_str(), "$1") {
        Some(s) => s,
        None => {
            return None;
        },
    };
    let f: String = match replace_every(r"<https?://[^>]+>", e.as_str(), "") {
        Some(s) => s,
        None => {
            return None;
        },
    };
    replace_every(r"https?://\S+", f.as_str(), "")
}

/// The four patterns of markers at the start of a line.
struct Markers {
    heading: Pattern,
    quote: Pattern,
    bullet: Pattern,
    number: Pattern,
}

/// Compiles the patterns of markers at the start of a line.
fn compile_markers() -> (r: Option<Markers>)
    ensures
        r is Some <==> regex_valid(heading_marks()) && regex_valid(quote_marks()) && regex_valid(
            bullet_mark(),
        ) && regex_valid(number_mark()),
        r matches Some(m) ==> {
            &&& m.heading.source() == heading_marks()
            &&& m.quote.source() == quote_marks()
            &&& m.bullet.source() == bullet_mark()
            &&& m.number.source() == number_mark()
        },
{
    let heading = Pattern::compile(r"^\s*#{1,6}\s*");
    let quote = Pattern::compile(r"^\s*>+\s*");
    let bullet = Pattern::compile(r"^\s*[-*+]\s+");
    let number = Pattern::compile(r"^\s*\d+[\.)]\s+");
    match (heading, quote, bullet, number) {
        (Some(heading), Some(quote), Some(bullet), Some(number)) => Some(
            Markers { heading, quote, bullet, number },
        ),
        _ => None,
    }
}

/// Takes the markers off the start of every line.
fn strip_markers(text: &str, markers: &Markers) -> (r: String)
    requires
        markers.heading.source() == heading_marks(),
        markers.quote.source() == quote_marks(),
        markers.bullet.source() == bullet_mark(),
        markers.number.source() == number_mark(),
    ensures
        r@ == joined(lines_of(text@).map_values(|l: Seq<char>| without_markers(l))),
{
    let chars: Vec<char> = chars_of(text);
    let lines: Vec<String> = split_lines(chars.as_slice());
    let n: usize = lines.len();
    let mut out: Vec<String> = Vec::new();
    let mut i: usize = 0;
    let ghost all = texts(lines@);
    let ghost strip = |l: Seq<char>| without_markers(l);
    proof {
        assert(texts(out@) =~= all.take(0).map_values(strip));
    }
    while i < n
        invariant
            n == lines@.len(),
            i <= n,
            all == texts(lines@),
            strip == |l: Seq<char>| without_markers(l),
            markers.heading.source() == heading_marks(),
            markers.quote.source() == quote_marks(),
            markers.bullet.source() == bullet_mark(),
            markers.number.source() == number_mark(),
            texts(out@) == all.take(i as int).map_values(strip),
        decreases n - i,
    {
        let a: String = markers.heading.replace_first(lines[i].as_str(), "");
        let b: String = markers.quote.replace_first(a.as_str(), "");
        let c: String = markers.bullet.replace_first(b.as_str(), "");
        let d: String = markers.number.replace_first(c.as_str(), "");
        proof {
            assert(lines@[i as int]@ == all[i as int]);
            assert(d@ == strip(all[i as int]));
            assert(texts(out@.push(d)) =~= texts(out@).push(d@));
            assert(all.take(i + 1).map_values(strip) =~= all.take(i as int).map_values(
                strip,
            ).push(d@));
        }
        out.push(d);
        i = i + 1;
    }
    proof {
        assert(all.take(n as int) =~= all);
    }
    join_lines(&out)
}

/// Cleans a Markdown text for speech synthesis. Nothing where one of the
/// patterns is not accepted.
pub fn sanitize_markdown_for_tts(input: &str) -> (r: Option<String>)
    ensures
        r is Some <==> patterns_valid(),
        r matches Some(s) ==> s@ == sanitized(input@),
{
    let markers: Markers = match compile_markers() {
        Some(m) => m,
        None => {
            return None;
        },
    };
    let a: String = match remove_links_for_tts(input) {
        Some(s) => s,
        None => {
            return None;
        },
    };
    let b: String = drop_listings_and_fences(a.as_str());
    let c: String = match replace_every(
        r#"(?is)<img\b[^>]*?alt\s*=\s*(?:"([^"]*)"|'([^']*)'|([^\s>]+))[^>]*>"#,
        b.as_str(),
        "$1$2$3",
    ) {
        Some(s) => s,
        None => {
            return None;
        },
    };
    let d: String = match replace_every(r"(?s)<!--.*?-->", c.as_str(), "") {
        Some(s) => s,
        None => {
            return None;
        },
    };
    let e: String = match replace_every(r"</?[^>]+>", d.as_str(), "") {
        Some(s) => s,
        None => {
            return None;
        },
    };
    let f1: String = replace_in(e.as_str(), "&str", "ref estr");
    let f: String = replace_in(f1.as_str(), "`str`", "estr");
    let g: String = replace_in(f.as_str(), "`", "");
    let h: String = strip_markers(g.as_str(), &markers);
    let i: String = replace_in(h.as_str(), "scr/", "source/");
    let j: String = match replace_every(r"\n{3,}", i.as_str(), "\n\n") {
        Some(s) => s,
        None => {
            return None;
        },
    };
    Some(trim(j.as_str()))
}

} // verus!
