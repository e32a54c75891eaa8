use ft_engine::text::{chars_of, lines, parse_u32, space, split_chars, words};

fn chars(s: &str) -> Vec<char> {
    s.chars().collect()
}

fn strings(v: Vec<Vec<char>>) -> Vec<String> {
    v.into_iter().map(|c| c.into_iter().collect()).collect()
}

const SAMPLES: [&str; 16] = [
    "",
    "a",
    "/",
    "1/2/3",
    "1//3",
    "//",
    "f 1 2 3",
    "  lead and trail  ",
    "tab\tsep\u{3000}ideo\u{85}nel",
    "line one\nline two\r\nline three",
    "ends with newline\n",
    "\n\n",
    "cr only\r",
    "cr\r\n\r\n",
    "é ü \u{2028} x",
    "+0012",
];

#[test]
fn chars_of_matches_std() {
    for s in SAMPLES {
        assert_eq!(chars_of(s), chars(s));
    }
}

#[test]
fn space_matches_is_whitespace() {
    for c in (0u32..=0x10FFFF).filter_map(char::from_u32) {
        assert_eq!(space(c), c.is_whitespace(), "{:?}", c);
    }
}

#[test]
fn split_chars_matches_split() {
    for s in SAMPLES {
        let expected: Vec<String> = s.split('/').map(|p| p.to_string()).collect();
        assert_eq!(strings(split_chars(&chars(s), '/')), expected);
    }
}

#[test]
fn lines_matches_std() {
    for s in SAMPLES {
        let expected: Vec<String> = s.lines().map(|p| p.to_string()).collect();
        assert_eq!(strings(lines(&chars(s))), expected, "{:?}", s);
    }
}

#[test]
fn words_matches_split_whitespace() {
    for s in SAMPLES {
        let expected: Vec<String> = s.split_whitespace().map(|p| p.to_string()).collect();
        assert_eq!(strings(words(&chars(s))), expected, "{:?}", s);
    }
}

#[test]
fn parse_u32_matches_std() {
    let cases = [
        "", "0", "7", "+7", "-7", "+", "-", "007", "4294967295", "4294967296", "99999999999999999999", "1a", " 1",
        "1 ", "+-1", "١٢", "00000000000000000000000004294967295",
    ];
    for s in cases {
        assert_eq!(parse_u32(&chars(s)), s.parse::<u32>().ok(), "{:?}", s);
    }
}
