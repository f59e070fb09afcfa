use omni::text::{
    chars_of, contains, contains_char, decimal_text, ends_with, is_white, join, join_path,
    parse_unsigned, same, split, split_white, starts_with, trim, trim_end, trim_end_of, trim_start,
};

const SAMPLES: [&str; 9] = [
    "",
    " ",
    "a",
    " a b ",
    "\u{a0}x\u{2003}",
    "a\n\tb\r\n",
    "éé",
    "aXbXX",
    "\u{3000}",
];

#[test]
fn white_space_is_what_unicode_says() {
    for n in 0..=0x10_ffffu32 {
        if let Some(c) = char::from_u32(n) {
            assert_eq!(is_white(c), c.is_whitespace(), "{n:x}");
        }
    }
}

#[test]
fn trimming_agrees_with_std() {
    for s in SAMPLES {
        assert_eq!(trim(s), s.trim());
        assert_eq!(trim_start(s), s.trim_start());
        assert_eq!(trim_end(s), s.trim_end());
        assert_eq!(trim(trim(s)), trim(s));
        assert_eq!(trim_end_of(s, 'X'), s.trim_end_matches('X'));
    }
}

#[test]
fn splitting_agrees_with_std() {
    for s in SAMPLES {
        assert_eq!(split(s, 'X'), s.split('X').collect::<Vec<_>>());
        assert_eq!(split_white(s), s.split_whitespace().collect::<Vec<_>>());
        assert_eq!(join(&split(s, 'X'), "X"), s);
        assert_eq!(chars_of(s), s.chars().collect::<Vec<_>>());
    }
}

#[test]
fn searching_agrees_with_std() {
    for s in SAMPLES {
        for part in ["", "a", "b ", "é", "XX", "\n"] {
            assert_eq!(starts_with(s, part), s.starts_with(part));
            assert_eq!(ends_with(s, part), s.ends_with(part));
            assert_eq!(contains(s, part), s.contains(part));
            assert_eq!(same(s, part), s == part);
        }
        assert_eq!(contains_char(s, 'X'), s.contains('X'));
    }
}

#[test]
fn numbers_agree_with_std() {
    for n in [0, 9, 10, 65_535, u64::MAX] {
        assert_eq!(decimal_text(n), n.to_string());
    }
    for s in ["", "+", "-", "0", "+7", "007", "-1", "x", "1x", "256", "999x", "99999999999999999999"] {
        assert_eq!(
            parse_unsigned(s, u8::MAX as u64),
            s.parse::<u8>().map(|n| n as u64).map_err(|e| e.to_string()),
            "{s}"
        );
        assert_eq!(
            parse_unsigned(s, u64::MAX),
            s.parse::<u64>().map_err(|e| e.to_string()),
            "{s}"
        );
    }
}

#[test]
fn paths_are_joined_as_std_does() {
    for base in ["/a", "/a/", "", "a", "/"] {
        for name in ["b", "b.c"] {
            assert_eq!(
                join_path(base, name),
                std::path::Path::new(base).join(name).display().to_string()
            );
        }
    }
}
