use audiobook::lines::{join_lines, split_lines, string_of, unmarked_lines};
use audiobook::text::{
    begins_with, chars_of, find_text, has_text, is_ascii_digit, is_whitespace_char,
    lowered_chars_of, matches_at, read_decimal, replace_text, same_text, skip_spaces,
    skip_spaces_back, to_ascii_lower, trim_bounds,
};

fn chars(s: &str) -> Vec<char> {
    s.chars().collect()
}

fn text(c: &[char]) -> String {
    c.iter().collect()
}

#[test]
fn chars_of_keeps_every_character() {
    for s in ["", "a", "héllo wörld", "日本語\n\t", "a\u{10FFFF}b"] {
        assert_eq!(chars_of(s), chars(s));
    }
}

#[test]
fn lowering_touches_ascii_capitals_only() {
    for code in 0u32..0x3000 {
        if let Some(c) = char::from_u32(code) {
            assert_eq!(to_ascii_lower(c), c.to_ascii_lowercase());
        }
    }
    assert_eq!(text(&lowered_chars_of("Audio/PCM; Ä=É")), "audio/pcm; Ä=É");
}

#[test]
fn whitespace_agrees_with_std_on_every_character() {
    for code in 0u32..=0x10FFFF {
        if let Some(c) = char::from_u32(code) {
            assert_eq!(is_whitespace_char(c), c.is_whitespace(), "U+{:04X}", code);
        }
    }
}

#[test]
fn digits_are_the_ten_ascii_digits() {
    for code in 0u32..0x800 {
        if let Some(c) = char::from_u32(code) {
            assert_eq!(is_ascii_digit(c), c.is_ascii_digit());
        }
    }
    assert!(!is_ascii_digit('٣'));
}

#[test]
fn search_finds_the_first_occurrence() {
    let hay = chars("abcabcab");
    assert_eq!(find_text(&hay, &chars("bc"), 0), Some(1));
    assert_eq!(find_text(&hay, &chars("bc"), 1), Some(1));
    assert_eq!(find_text(&hay, &chars("bc"), 2), Some(4));
    assert_eq!(find_text(&hay, &chars("bc"), 5), None);
    assert_eq!(find_text(&hay, &chars("ab"), 6), Some(6));
    assert_eq!(find_text(&hay, &chars("abcabcabc"), 0), None);
    assert_eq!(find_text(&hay, &chars(""), 0), Some(0));
    assert_eq!(find_text(&hay, &chars(""), 8), Some(8));
    assert_eq!(find_text(&hay, &chars(""), 9), None);
    assert_eq!(find_text(&[], &chars(""), 0), Some(0));
    assert_eq!(find_text(&[], &chars("a"), 0), None);
}

#[test]
fn search_agrees_with_std() {
    let hays = ["", "a", "aaa", "abab", "xxabxxab", "é日本é日本", "mpeg mp3 wav"];
    let needles = ["", "a", "ab", "b", "aa", "日本", "xab", "wav", "q"];
    for h in hays {
        for n in needles {
            assert_eq!(has_text(&chars(h), n), h.contains(n), "{:?} in {:?}", n, h);
            let byte_pos = h.find(n).map(|b| h[..b].chars().count());
            assert_eq!(find_text(&chars(h), &chars(n), 0), byte_pos);
        }
    }
}

#[test]
fn matching_at_an_index() {
    let hay = chars("hello");
    assert!(matches_at(&hay, &chars("ell"), 1));
    assert!(!matches_at(&hay, &chars("ell"), 2));
    assert!(matches_at(&hay, &chars(""), 5));
    assert!(begins_with(&hay, 2, "llo"));
    assert!(!begins_with(&hay, 2, "llox"));
    assert!(begins_with(&hay, 5, ""));
    assert!(!begins_with(&hay, 0, "ello"));
}

#[test]
fn same_text_is_equality() {
    assert!(same_text("", ""));
    assert!(same_text("abc", "abc"));
    assert!(!same_text("abc", "abd"));
    assert!(!same_text("abc", "ab"));
    assert!(!same_text("ab", "abc"));
}

#[test]
fn decimal_runs() {
    assert_eq!(read_decimal(&chars("x=123;"), 2), Some(123));
    assert_eq!(read_decimal(&chars("x=123;"), 3), Some(23));
    assert_eq!(read_decimal(&chars("x=123;"), 5), None);
    assert_eq!(read_decimal(&chars("x=123"), 5), None);
    assert_eq!(read_decimal(&chars("4294967295"), 0), Some(u32::MAX));
    assert_eq!(read_decimal(&chars("4294967296"), 0), None);
    assert_eq!(read_decimal(&chars("00004294967295z"), 0), Some(u32::MAX));
    assert_eq!(read_decimal(&chars("99999999999999999999999999999999999999999"), 0), None);
}

#[test]
fn replacement_agrees_with_std() {
    let texts = ["", "a", "aaa", "aaaa", "abcabc", "&str and `str` and &strx", "scr/scr/ scr", "``x`"];
    let pairs = [("a", "b"), ("aa", "x"), ("abc", ""), ("&str", "ref estr"), ("`str`", "estr"),
        ("`", ""), ("scr/", "source/"), ("zzz", "y"), ("a", "aa")];
    for t in texts {
        for (from, to) in pairs {
            assert_eq!(text(&replace_text(&chars(t), from, to)), t.replace(from, to));
        }
    }
}

#[test]
fn replacement_of_nothing_changes_nothing() {
    assert_eq!(text(&replace_text(&chars("abc"), "", "x")), "abc");
}

#[test]
fn trimming_agrees_with_std() {
    for s in ["", " ", "  a  ", "\t\n a b \r\n", "a", "\u{a0}x\u{3000}", " \u{2003} ", "x  y"] {
        let c = chars(s);
        let (a, b) = trim_bounds(&c, 0, c.len());
        assert_eq!(text(&c[a..b]), s.trim());
        let first = skip_spaces(&c, 0, c.len());
        assert_eq!(text(&c[first..]), s.trim_start());
        let last = skip_spaces_back(&c, 0, c.len());
        assert_eq!(text(&c[..last]), s.trim_end());
    }
    let c = chars("ab  cd  ef");
    assert_eq!(trim_bounds(&c, 2, 8), (4, 6));
    assert_eq!(trim_bounds(&c, 2, 4), (4, 4));
}

#[test]
fn lines_agree_with_std() {
    let inputs = [
        "", "\n", "a", "a\n", "a\nb", "a\n\nb\n", "\n\n", "a\r\nb\r\n", "a\rb\n", "a\r", "\r\n",
        "a\r\r\nb", "x\n\r", "é\n日本\r\nz",
    ];
    for s in inputs {
        let want: Vec<String> = s.lines().map(|l| l.to_string()).collect();
        assert_eq!(split_lines(&chars(s)), want, "{:?}", s);
    }
}

#[test]
fn joining_puts_newlines_between_lines() {
    assert_eq!(join_lines(&vec![]), "");
    assert_eq!(join_lines(&vec!["a".to_string()]), "a");
    assert_eq!(join_lines(&vec!["a".to_string(), "".to_string(), "b".to_string()]), "a\n\nb");
    assert_eq!(join_lines(&vec!["".to_string(), "".to_string()]), "\n");
}

#[test]
fn string_of_a_range() {
    let c = chars("héllo");
    assert_eq!(string_of(&c, 1, 4), "éll");
    assert_eq!(string_of(&c, 2, 2), "");
    assert_eq!(string_of(&c, 0, 5), "héllo");
}

#[test]
fn unmarked_lines_stay_in_order() {
    let lines: Vec<String> = ["a", "b", "c", "d"].iter().map(|l| l.to_string()).collect();
    assert_eq!(unmarked_lines(&lines, &vec![false, true, false, true]), vec!["a", "c"]);
    assert_eq!(unmarked_lines(&lines, &vec![true, true, true, true]), Vec::<String>::new());
    assert_eq!(unmarked_lines(&lines, &vec![false, false, false, false]), lines);
    // Lines without a mark stay, and marks without a line mean nothing.
    assert_eq!(unmarked_lines(&lines, &vec![]), lines);
    assert_eq!(unmarked_lines(&lines, &vec![true]), vec!["b", "c", "d"]);
    assert_eq!(unmarked_lines(&lines, &vec![false, false, false, true, true, true]), vec!["a", "b", "c"]);
    assert_eq!(unmarked_lines(&Vec::new(), &vec![true]), Vec::<String>::new());
}
