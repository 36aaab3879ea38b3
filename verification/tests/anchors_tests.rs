use audiobook::anchors::{
    extract_anchored_region, region_lines, strip_anchor_comment_lines, AnchorError,
};
use regex::Regex;

const SOURCE: &str = "\
use std::fmt;
// ANCHOR: all
// ANCHOR: here
fn main() {
    // ANCHOR: inner
    run();
    // ANCHOR_END: inner
}
// ANCHOR_END: here
fn other() {}
// ANCHOR_END: all
";

#[test]
fn anchor_lines_are_stripped() {
    let want = "\
use std::fmt;
fn main() {
    run();
}
fn other() {}";
    assert_eq!(strip_anchor_comment_lines(SOURCE).unwrap(), want);
}

#[test]
fn only_whole_line_anchor_comments_are_stripped() {
    let input = "  //ANCHOR:x  \n//  ANCHOR_END:   y\nlet a = 1; // ANCHOR: x\n// ANCHOR:\n// ANCHOR: two words\n// anchor: x\n/// ANCHOR: x";
    let want = "let a = 1; // ANCHOR: x\n// ANCHOR:\n// ANCHOR: two words\n// anchor: x\n/// ANCHOR: x";
    assert_eq!(strip_anchor_comment_lines(input).unwrap(), want);
}

#[test]
fn stripping_agrees_with_the_pattern_line_by_line() {
    let pattern = Regex::new(r"^\s*//\s*ANCHOR(?:_END)?:\s*\S+\s*$").unwrap();
    for input in [
        SOURCE,
        "",
        "\n",
        "// ANCHOR: a",
        "a\r\n// ANCHOR: a\r\nb\r\n",
        "\t// ANCHOR_END: z\u{a0}\nkeep\n\n\n",
        "// ANCHOR: a\n\n// ANCHOR_END: a",
    ] {
        let want: Vec<&str> = input.lines().filter(|l| !pattern.is_match(l)).collect();
        assert_eq!(strip_anchor_comment_lines(input).unwrap(), want.join("\n"), "{input:?}");
    }
}

#[test]
fn region_between_its_anchors() {
    assert_eq!(extract_anchored_region(SOURCE, "inner").unwrap(), "    run();");
    assert_eq!(
        extract_anchored_region(SOURCE, "here").unwrap(),
        "fn main() {\n    // ANCHOR: inner\n    run();\n    // ANCHOR_END: inner\n}"
    );
    assert_eq!(
        extract_anchored_region(SOURCE, "all").unwrap(),
        "// ANCHOR: here\nfn main() {\n    // ANCHOR: inner\n    run();\n    // ANCHOR_END: inner\n}\n// ANCHOR_END: here\nfn other() {}"
    );
}

#[test]
fn region_that_is_missing() {
    assert_eq!(extract_anchored_region(SOURCE, "nowhere"), Err(AnchorError::NotFound));
    assert_eq!(extract_anchored_region(SOURCE, "inne"), Err(AnchorError::NotFound));
    assert_eq!(extract_anchored_region("", "x"), Err(AnchorError::NotFound));
    // A closing anchor alone opens nothing.
    assert_eq!(extract_anchored_region("a\n// ANCHOR_END: x\nb", "x"), Err(AnchorError::NotFound));
}

#[test]
fn empty_region_is_found_and_empty() {
    assert_eq!(extract_anchored_region("// ANCHOR: x\n// ANCHOR_END: x", "x").unwrap(), "");
    assert_eq!(extract_anchored_region("// ANCHOR: x", "x").unwrap(), "");
}

#[test]
fn every_region_of_the_tag_counts() {
    let input = "// ANCHOR: x\none\n// ANCHOR_END: x\nskipped\n// ANCHOR: x\ntwo\n// ANCHOR: x\nthree";
    // Inside a region a second opening anchor is an ordinary line, and a
    // region that is never closed runs to the end.
    assert_eq!(extract_anchored_region(input, "x").unwrap(), "one\ntwo\n// ANCHOR: x\nthree");
}

#[test]
fn tag_is_taken_literally() {
    let input = "\
// ANCHOR: aXb
wrong
// ANCHOR_END: aXb
// ANCHOR: a.b
right
// ANCHOR_END: a.b
// ANCHOR: (x|y)*
starred
// ANCHOR_END: (x|y)*";
    assert_eq!(extract_anchored_region(input, "a.b").unwrap(), "right");
    assert_eq!(extract_anchored_region(input, "aXb").unwrap(), "wrong");
    assert_eq!(extract_anchored_region(input, "(x|y)*").unwrap(), "starred");
    assert_eq!(extract_anchored_region(input, "x"), Err(AnchorError::NotFound));
    assert_eq!(extract_anchored_region(input, ".*"), Err(AnchorError::NotFound));
}

#[test]
fn tag_too_long_for_a_pattern_is_reported() {
    let tag = "t".repeat(1_000_000);
    assert_eq!(extract_anchored_region("// ANCHOR: t\nx\n", &tag), Err(AnchorError::BadPattern));
}

fn region(lines: &[&str], opens: &[u8], closes: &[u8]) -> Option<Vec<String>> {
    let lines: Vec<String> = lines.iter().map(|l| l.to_string()).collect();
    let opens: Vec<bool> = opens.iter().map(|m| *m == 1).collect();
    let closes: Vec<bool> = closes.iter().map(|m| *m == 1).collect();
    region_lines(&lines, &opens, &closes)
}

fn owned(lines: &[&str]) -> Option<Vec<String>> {
    Some(lines.iter().map(|l| l.to_string()).collect())
}

#[test]
fn region_of_marked_lines() {
    let lines = ["a", "open", "b", "c", "close", "d"];
    assert_eq!(region(&lines, &[0, 1, 0, 0, 0, 0], &[0, 0, 0, 0, 1, 0]), owned(&["b", "c"]));
    // Never closed: the region runs to the end.
    assert_eq!(region(&lines, &[0, 1, 0, 0, 0, 0], &[0, 0, 0, 0, 0, 0]), owned(&["b", "c", "close", "d"]));
    // Never opened.
    assert_eq!(region(&lines, &[0, 0, 0, 0, 0, 0], &[0, 0, 0, 0, 1, 0]), None);
    assert_eq!(region(&[], &[], &[]), None);
    // Opened by the last line: found, and empty.
    assert_eq!(region(&lines, &[0, 0, 0, 0, 0, 1], &[0, 0, 0, 0, 0, 0]), owned(&[]));
}

#[test]
fn region_marks_are_read_by_the_state_of_the_scan() {
    let lines = ["a", "b", "c", "d", "e", "f"];
    // A closing mark outside a region and an opening mark inside one do nothing.
    assert_eq!(region(&lines, &[0, 1, 1, 0, 1, 0], &[1, 0, 0, 1, 0, 0]), owned(&["c", "f"]));
    // A line marked both ways opens outside and closes inside.
    assert_eq!(region(&lines, &[1, 1, 1, 1, 1, 1], &[1, 1, 1, 1, 1, 1]), owned(&[]));
    assert_eq!(region(&lines, &[1, 0, 0, 1, 0, 0], &[1, 0, 1, 1, 0, 0]), owned(&["b", "e", "f"]));
}

#[test]
fn region_marks_shorter_or_longer_than_the_lines() {
    let lines = ["a", "b", "c"];
    assert_eq!(region(&lines, &[1], &[]), owned(&["b", "c"]));
    assert_eq!(region(&lines, &[], &[1, 1, 1]), None);
    assert_eq!(region(&lines, &[0, 0, 0, 1, 1], &[]), None);
    assert_eq!(region(&lines, &[1, 0, 0, 1], &[0, 0, 1, 1]), owned(&["b"]));
}
