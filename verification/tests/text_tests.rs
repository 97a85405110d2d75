use docker_db_container_login::text::{
    char_is_whitespace, chars_of, contains, parse_u16, split_fields, split_lines, str_eq, trim,
};

const SAMPLES: [&str; 24] = [
    "",
    "a",
    "\n",
    "\r\n",
    "\r",
    "a\nb",
    "a\nb\n",
    "a\r\nb\r\n",
    "a\rb\n",
    "a\r",
    "\n\n",
    "a\n\nb",
    "\r\r\n",
    "  padded  ",
    "\t tab\t",
    "\u{a0}nbsp\u{3000}",
    "\u{2003}em\u{2028}",
    "\u{200b}zero width\u{200b}",
    "x,y,,z,",
    ",",
    "k=v=w",
    "h\u{e9}llo w\u{f6}rld",
    " \n \r\n ",
    "one\ttwo\tthree\tfour",
];

#[test]
fn lines_are_those_of_the_standard_library() {
    for sample in SAMPLES {
        let expected: Vec<String> = sample.lines().map(|l| l.to_string()).collect();
        assert_eq!(split_lines(sample), expected, "{:?}", sample);
    }
}

#[test]
fn lines_edge_cases() {
    assert!(split_lines("").is_empty());
    assert_eq!(split_lines("\n"), vec![""]);
    assert_eq!(split_lines("a\r\nb"), vec!["a", "b"]);
    assert_eq!(split_lines("a\r"), vec!["a\r"]);
    assert_eq!(split_lines("a\r\n"), vec!["a"]);
    assert_eq!(split_lines("a\r\r\nb"), vec!["a\r", "b"]);
    assert_eq!(split_lines("a\n\nb\n"), vec!["a", "", "b"]);
}

#[test]
fn fields_are_those_of_the_standard_library() {
    for sample in SAMPLES {
        for sep in [',', '\t', '=', '\n', ' ', '\u{e9}'] {
            let expected: Vec<String> = sample.split(sep).map(|l| l.to_string()).collect();
            assert_eq!(split_fields(sample, sep), expected, "{:?} {:?}", sample, sep);
        }
    }
}

#[test]
fn fields_edge_cases() {
    assert_eq!(split_fields("", ','), vec![""]);
    assert_eq!(split_fields(",", ','), vec!["", ""]);
    assert_eq!(split_fields("a,b", ','), vec!["a", "b"]);
    assert_eq!(split_fields("a,,b,", ','), vec!["a", "", "b", ""]);
    assert_eq!(split_fields("no separator", ','), vec!["no separator"]);
}

#[test]
fn trim_is_that_of_the_standard_library() {
    for sample in SAMPLES {
        assert_eq!(trim(sample), sample.trim(), "{:?}", sample);
    }
    assert_eq!(trim("  a b  "), "a b");
    assert_eq!(trim("\u{a0}\u{1680}x\u{2000}\u{200a}\u{202f}\u{205f}\u{3000}"), "x");
    assert_eq!(trim(" \t\r\n\u{b}\u{c}\u{85}"), "");
    assert_eq!(trim("\u{200b}x"), "\u{200b}x");
}

#[test]
fn white_space_is_that_of_the_standard_library() {
    for code in 0u32..0x11000 {
        if let Some(c) = char::from_u32(code) {
            assert_eq!(char_is_whitespace(c), c.is_whitespace(), "{:x}", code);
        }
    }
    assert!(!char_is_whitespace('\u{10ffff}'));
}

#[test]
fn contains_is_that_of_the_standard_library() {
    let needles = ["", "a", "b", "\n", "ed", "  ", "=v", "h\u{e9}", "three\tfour", "fourx"];
    for sample in SAMPLES {
        for needle in needles {
            assert_eq!(
                contains(sample, needle),
                sample.contains(needle),
                "{:?} {:?}",
                sample,
                needle
            );
        }
    }
    assert!(contains("bitnami/postgresql:15", "postgres"));
    assert!(contains("abc", "abc"));
    assert!(contains("abc", "c"));
    assert!(!contains("abc", "abcd"));
    assert!(!contains("", "a"));
    assert!(contains("", ""));
    assert!(!contains("aab", "aba"));
    assert!(contains("aaab", "aab"));
}

#[test]
fn strings_are_compared_by_their_characters() {
    assert!(str_eq("", ""));
    assert!(str_eq("abc", "abc"));
    assert!(!str_eq("abc", "abd"));
    assert!(!str_eq("abc", "ab"));
    assert!(!str_eq("ab", "abc"));
    assert!(!str_eq("caf\u{e9}", "cafe\u{301}"));
    assert!(str_eq("caf\u{e9}", "caf\u{e9}"));
    assert!(!str_eq("a", "A"));
}

#[test]
fn characters_of_a_string() {
    assert_eq!(chars_of(""), Vec::<char>::new());
    assert_eq!(chars_of("h\u{e9}!"), vec!['h', '\u{e9}', '!']);
    assert_eq!(chars_of("a=b").len(), 3);
}

#[test]
fn decimal_numbers_are_parsed_as_the_standard_library_does() {
    let samples = [
        "", "0", "1", "80", "5432", "65535", "65536", "99999", "4294967296", "+80", "+", "-1",
        "-0", "+0", "0080", "000000000000000000065535", "000000000000000000065536", " 80",
        "80 ", "8 0", "0x50", "80a", "a80", "++80", "+-80", "\u{661}\u{662}", "27017", "3306",
        "18446744073709551616",
    ];
    for sample in samples {
        assert_eq!(
            parse_u16(sample),
            sample.parse::<u16>().ok(),
            "{:?}",
            sample
        );
    }
    assert_eq!(parse_u16("5432"), Some(5432));
    assert_eq!(parse_u16("+65535"), Some(65535));
    assert_eq!(parse_u16("65536"), None);
    assert_eq!(parse_u16("port"), None);
}

struct Sequence(u64);

impl Sequence {
    fn next(&mut self) -> u64 {
        self.0 = self
            .0
            .wrapping_mul(6364136223846793005)
            .wrapping_add(1442695040888963407);
        self.0 >> 33
    }

    fn text(&mut self, alphabet: &[char], longest: u64) -> String {
        let length = self.next() % (longest + 1);
        (0..length)
            .map(|_| alphabet[(self.next() % alphabet.len() as u64) as usize])
            .collect()
    }
}

#[test]
fn many_texts_split_and_trim_as_the_standard_library_does() {
    let alphabet = [
        'a', 'b', ' ', '\n', '\r', '\t', ',', '=', '\u{e9}', '\u{2003}', '\u{a0}', '\u{85}',
    ];
    let mut sequence = Sequence(7);
    for _ in 0..20000 {
        let text = sequence.text(&alphabet, 12);
        let lines: Vec<String> = text.lines().map(|l| l.to_string()).collect();
        assert_eq!(split_lines(&text), lines, "{:?}", text);
        for sep in [',', '=', '\t', '\n'] {
            let pieces: Vec<String> = text.split(sep).map(|l| l.to_string()).collect();
            assert_eq!(split_fields(&text, sep), pieces, "{:?}", text);
        }
        assert_eq!(trim(&text), text.trim(), "{:?}", text);
        let needle = sequence.text(&alphabet, 3);
        assert_eq!(
            contains(&text, &needle),
            text.contains(needle.as_str()),
            "{:?} {:?}",
            text,
            needle
        );
        assert_eq!(str_eq(&text, &needle), text == needle);
    }
}

#[test]
fn many_texts_parse_as_the_standard_library_does() {
    let alphabet = ['0', '1', '5', '6', '9', '+', '-', ' ', 'a'];
    let mut sequence = Sequence(11);
    for _ in 0..20000 {
        let text = sequence.text(&alphabet, 7);
        assert_eq!(parse_u16(&text), text.parse::<u16>().ok(), "{:?}", text);
    }
    for number in 0u32..70000 {
        let text = number.to_string();
        assert_eq!(parse_u16(&text), text.parse::<u16>().ok());
        let signed = format!("+{}", number);
        assert_eq!(parse_u16(&signed), signed.parse::<u16>().ok());
    }
}
