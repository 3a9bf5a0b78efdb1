use agtx::{is_white_space_char, split_whitespace, trim};

#[test]
fn white_space_matches_char_is_whitespace() {
    for x in 0u32..=0x10FFFF {
        if let Some(c) = char::from_u32(x) {
            assert_eq!(is_white_space_char(c), c.is_whitespace(), "char {:#x}", x);
        }
    }
}

const SAMPLES: &[&str] = &[
    "",
    " ",
    "abc",
    "  abc  ",
    "\t\nabc def\r\n",
    "\u{3000}x\u{85}",
    "a\u{a0}b",
    "  12 40\n",
    "one  two   three",
    "\u{2028}\u{2029}",
    "é ü ß",
];

#[test]
fn trim_matches_str_trim() {
    for s in SAMPLES {
        assert_eq!(trim(s), s.trim(), "sample {:?}", s);
    }
}

#[test]
fn trim_is_idempotent_on_samples() {
    for s in SAMPLES {
        assert_eq!(trim(trim(s)), trim(s));
    }
}

#[test]
fn split_whitespace_matches_std() {
    for s in SAMPLES {
        let want: Vec<String> = s.split_whitespace().map(|w| w.to_string()).collect();
        assert_eq!(split_whitespace(s), want, "sample {:?}", s);
    }
}

#[test]
fn words_are_nonempty_and_free_of_white_space() {
    for s in SAMPLES {
        for w in split_whitespace(s) {
            assert!(!w.is_empty());
            assert!(!w.chars().any(|c| c.is_whitespace()));
        }
    }
}
