use resolc::text::{
    blank, chars, drop_blank, drop_leading, has_text, joined, replaced, same, split_lines,
    split_words, string, take_before, trimmed, white_space,
};

const SAMPLES: [&str; 16] = [
    "",
    " ",
    "a",
    "a b",
    " a  b ",
    "\n",
    "a\n",
    "a\nb",
    "a\r\nb\r\n",
    "a\rb\r",
    "\r\n\r",
    "\n\na\n\n",
    "\u{a0}x\u{2003}y\u{3000}",
    "vvv1.2-3-4",
    "Version: Version: 1.g++.g++",
    "\u{85}\u{200b}\u{1680}\u{1f600}\u{2028}",
];

fn plain(all: Vec<Vec<char>>) -> Vec<String> {
    all.iter().map(|s| string(s)).collect()
}

#[test]
fn white_space_is_that_of_unicode() {
    for n in 0..=0x10ffffu32 {
        if let Some(c) = char::from_u32(n) {
            assert_eq!(white_space(c), c.is_whitespace());
        }
    }
}

#[test]
fn strings_and_characters() {
    for s in SAMPLES {
        assert_eq!(string(&chars(s)), s);
        assert_eq!(joined(s, "x"), format!("{}x", s));
        assert!(same(s, s));
        assert!(!same(s, "other"));
    }
}

#[test]
fn trimming_and_blanks() {
    for s in SAMPLES {
        assert_eq!(string(&trimmed(&chars(s))), s.trim());
        assert_eq!(blank(&chars(s)), s.trim().is_empty());
    }
}

#[test]
fn lines_and_words() {
    for s in SAMPLES {
        assert_eq!(plain(split_lines(&chars(s))), s.lines().collect::<Vec<_>>());
        assert_eq!(plain(split_words(&chars(s))), s.split_whitespace().collect::<Vec<_>>());
        assert_eq!(
            plain(drop_blank(split_lines(&chars(s)))),
            s.lines().filter(|l| !l.trim().is_empty()).collect::<Vec<_>>(),
        );
    }
}

#[test]
fn patterns() {
    for s in SAMPLES {
        for pat in ["a", "v", "vv", "Version: ", ".g++", "\n"] {
            assert_eq!(has_text(&chars(s), &chars(pat)), s.contains(pat));
            assert_eq!(
                string(&drop_leading(&chars(s), &chars(pat))),
                s.trim_start_matches(pat),
            );
            assert_eq!(
                string(&replaced(&chars(s), &chars(pat), &chars("<>"))),
                s.replace(pat, "<>"),
            );
        }
        assert_eq!(string(&take_before(&chars(s), '-')), s.split('-').next().unwrap());
    }
    assert!(has_text(&chars("abc"), &chars("")));
    assert_eq!(string(&replaced(&chars("aaa"), &chars("aa"), &chars("b"))), "ba");
}
