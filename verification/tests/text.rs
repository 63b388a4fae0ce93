use reemerge::lists::{drop_repeats, has_index, has_string};
use reemerge::text::{
    can_split, chars_of, contains, cut_at, entries_of, find_from, head, is_white_space, join,
    lines_of, number, pad, repeat, same, slice, strip_prefixes, trim,
};
use reemerge::truncate::Truncate;

fn strings(items: &[&str]) -> Vec<String> {
    items.iter().map(|s| s.to_string()).collect()
}

#[test]
fn test_truncate_short_string() {
    let s = "hello";
    assert_eq!(s.truncated(10), "hello");
}

#[test]
fn test_truncate_exact_fit() {
    let s = "1234567890";
    assert_eq!(s.truncated(10), "1234567890");
}

#[test]
fn test_truncate_needs_ellipsis() {
    let s = "hello world this is long";
    let result = s.truncated(10);
    assert!(result.ends_with("..."));
    assert_eq!(result.len(), 10);
}

#[test]
fn test_truncate_empty_string() {
    let s = "";
    assert_eq!(s.truncated(10), "");
}

#[test]
fn test_truncate_unicode() {
    let s = "héllo wörld";
    let result = s.truncated(8);
    assert!(result.ends_with("..."));
    assert_eq!(result.chars().count(), 8);
}

#[test]
fn test_truncate_max_zero() {
    let s = "test";
    let result = s.truncated(1);
    assert_eq!(result, "...");
}

#[test]
fn truncated_text_is_the_beginning_and_an_ellipsis() {
    assert_eq!("hello world this is long".truncated(10), "hello w...");
    assert_eq!("héllo wörld".truncated(8), "héllo...");
    assert_eq!("abcdef".truncated(3), "...");
    assert_eq!("abcdef".truncated(4), "a...");
    assert_eq!("abcdef".truncated(0), "...");
    assert_eq!("".truncated(0), "");
}

#[test]
fn truncating_twice_changes_nothing() {
    for max in 0..12 {
        let once = "some longer text".truncated(max);
        assert_eq!(once.truncated(max), once);
    }
}

#[test]
fn truncating_further_is_truncating_at_once() {
    let text = "héllo wörld this is long";
    for wide in 0..30 {
        for narrow in 0..=wide {
            assert_eq!(text.truncated(wide).as_str().truncated(narrow), text.truncated(narrow));
        }
    }
    assert_eq!("hello world".truncated(8).as_str().truncated(6), "hel...");
}

#[test]
fn white_space_is_what_unicode_says() {
    for code in 0..=0x10ffffu32 {
        if let Some(c) = char::from_u32(code) {
            assert_eq!(is_white_space(c), c.is_whitespace(), "{:?}", c);
        }
    }
}

#[test]
fn trim_removes_white_space_at_both_ends() {
    for s in [
        "", " ", "  a  ", "\t\na b\r\n", "a", "\u{3000}ä\u{a0}", "\u{85}x", "a \n b",
        "\u{200b}x\u{200b}",
    ] {
        assert_eq!(trim(s), s.trim());
        assert_eq!(trim(&trim(s)), trim(s));
    }
}

#[test]
fn lines_end_at_line_feeds() {
    for s in [
        "", "\n", "\n\n", "a", "a\n", "a\nb", "a\r\nb\r\n", "a\r", "a\r\r\n", "\r\n", "ä\n\nö\n",
        "a\rb\n",
    ] {
        let expected: Vec<String> = s.lines().map(|l| l.to_string()).collect();
        assert_eq!(lines_of(s), expected, "{:?}", s);
        for line in lines_of(s) {
            assert!(!line.contains('\n'));
        }
    }
}

#[test]
fn entries_are_the_lines_that_are_not_blank() {
    assert_eq!(entries_of("  a \n\n \t\nb\r\n"), strings(&["a", "b"]));
    assert_eq!(entries_of(""), strings(&[]));
}

#[test]
fn cutting_stops_at_the_first_occurrence() {
    assert_eq!(cut_at("a|b|c", '|'), Some(("a".to_string(), "b|c".to_string())));
    assert_eq!(cut_at("|", '|'), Some((String::new(), String::new())));
    assert_eq!(cut_at("abc", '|'), None);
    assert_eq!(cut_at("", '|'), None);
}

#[test]
fn searching() {
    assert!(contains("error: commit x is a merge but", "is a merge"));
    assert!(!contains("is a merg", "is a merge"));
    assert!(contains("abc", ""));
    assert!(contains("", ""));
    assert!(!contains("", "a"));
    assert!(contains("aab", "ab"));
    assert_eq!(find_from(&chars_of("a|b|"), '|', 2), 3);
    assert_eq!(find_from(&chars_of("a|b"), '|', 2), 3);
    assert!(same("é", "é"));
    assert!(!same("a", "ab"));
    assert!(!same("ab", "ac"));
    assert_eq!(slice(&chars_of("héllo"), 1, 3), "él");
}

#[test]
fn prefixes_are_stripped_as_often_as_they_stand_there() {
    assert_eq!(strip_prefixes("origin/origin/x", "origin/"), "x");
    assert_eq!(strip_prefixes("xorigin/", "origin/"), "xorigin/");
    assert_eq!(strip_prefixes("abc", ""), "abc");
    assert_eq!(strip_prefixes("origin", "origin/"), "origin");
}

#[test]
fn numbers_in_decimal_notation() {
    for n in [0usize, 1, 9, 10, 11, 99, 100, 4096, 1234567890, usize::MAX] {
        assert_eq!(number(n), n.to_string());
        assert_eq!(number(n).parse::<usize>(), Ok(n));
    }
}

#[test]
fn padding_and_repeating() {
    assert_eq!(pad("7", 2), " 7");
    assert_eq!(pad("12", 2), "12");
    assert_eq!(pad("123", 2), "123");
    assert_eq!(pad("", 3), "   ");
    assert_eq!(repeat('─', 3), "───");
    assert_eq!(repeat('x', 0), "");
}

#[test]
fn joining() {
    assert_eq!(join(&strings(&[]), " "), "");
    assert_eq!(join(&strings(&["a"]), " "), "a");
    assert_eq!(join(&strings(&["push", "origin", "x"]), " "), "push origin x");
}

#[test]
fn the_first_bytes_of_a_text() {
    assert!(can_split("abcdefghij", 8));
    assert_eq!(head("abcdefghij", 8), "abcdefgh");
    assert!(!can_split("abc", 8));
    assert!(can_split("abc", 3));
    assert!(!can_split("é", 1));
    assert!(can_split("é", 2));
    assert_eq!(head("éa", 2), "é");
}

#[test]
fn lists_of_strings() {
    let list = strings(&["a", "b", "a", "c", "b"]);
    assert_eq!(drop_repeats(&list), strings(&["a", "b", "c"]));
    assert!(has_string(&list, "c"));
    assert!(!has_string(&list, "d"));
    assert!(has_index(&vec![3, 5], 5));
    assert!(!has_index(&vec![3, 5], 4));
}
