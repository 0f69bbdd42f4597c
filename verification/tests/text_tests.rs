use flowmode::text::{
    chars_of, contains, is_white_space, join_lines, matches_at, same_text, split, trim,
};

const SAMPLES: [&str; 12] = [
    "",
    "a",
    "aaaa",
    "abab",
    "aabb",
    "127.0.0.1 github.com",
    "127.0.0.1 git127.0.0.1 github.comhub.com",
    "x\ny\n\nz",
    " \t padded \r\n",
    "h\u{e9}llo w\u{f6}rld \u{1f600} end",
    ",a,,b,",
    "\u{3000}wide\u{a0}",
];

const NEEDLES: [&str; 9] = ["", "a", "ab", "aa", "b", "127.0.0.1 github.com", "\n", "\u{f6}", ","];

#[test]
fn contains_agrees_with_std() {
    for hay in SAMPLES {
        for needle in NEEDLES {
            assert_eq!(contains(hay, needle), hay.contains(needle), "{:?} in {:?}", needle, hay);
        }
    }
}

#[test]
fn joining_puts_a_line_break_between_lines() {
    let lines = |items: &[&str]| items.iter().map(|l| l.to_string()).collect::<Vec<String>>();
    assert_eq!(join_lines(&lines(&[])), "");
    assert_eq!(join_lines(&lines(&["a"])), "a");
    assert_eq!(join_lines(&lines(&[""])), "");
    assert_eq!(join_lines(&lines(&["a", "", "b\u{e9}"])), "a\n\nb\u{e9}");
    assert_eq!(join_lines(&lines(&["", ""])), "\n");
    for text in SAMPLES {
        assert_eq!(join_lines(&split(text, '\n')), text);
    }
}

#[test]
fn trim_agrees_with_std() {
    for text in SAMPLES {
        assert_eq!(trim(text), text.trim(), "{:?}", text);
    }
    assert_eq!(trim(" \u{2003}\u{205f} "), "");
}

#[test]
fn white_space_agrees_with_std() {
    for code in 0u32..=0x10ffff {
        if let Some(c) = char::from_u32(code) {
            assert_eq!(is_white_space(c), c.is_whitespace(), "U+{:04X}", code);
        }
    }
    assert!(!is_white_space('\u{200b}'));
    assert!(!is_white_space('\u{feff}'));
}

#[test]
fn split_agrees_with_std() {
    for text in SAMPLES {
        for sep in [',', '\n', 'a'] {
            let expected: Vec<String> = text.split(sep).map(|p| p.to_string()).collect();
            assert_eq!(split(text, sep), expected, "{:?} on {:?}", text, sep);
        }
    }
    assert_eq!(split("", ','), vec!["".to_string()]);
    assert_eq!(split("a,b,", ','), vec!["a".to_string(), "b".to_string(), "".to_string()]);
}

#[test]
fn chars_and_equality() {
    assert_eq!(chars_of("h\u{e9}!"), vec!['h', '\u{e9}', '!']);
    assert!(same_text("slack.exe", "slack.exe"));
    assert!(!same_text("slack.exe", "slack.exe "));
    assert!(!same_text("Slack.exe", "slack.exe"));
    assert!(same_text("", ""));
    let hay = chars_of("hello");
    assert!(matches_at(&hay, &chars_of("llo"), 2));
    assert!(!matches_at(&hay, &chars_of("llo"), 3));
    assert!(!matches_at(&hay, &chars_of("llo"), 9));
    assert!(matches_at(&hay, &chars_of(""), 5));
}
