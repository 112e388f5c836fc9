use buncher::number::{decimal_chars, parse_u32_chars, ParseIntError};
use buncher::paths::{extension, file_name, file_stem, parent};
use buncher::text::{contains, replace, trim_chars, CharClass};

fn own_parse(s: &str) -> Result<u32, ParseIntError> {
    parse_u32_chars(&s.chars().collect())
}

fn std_parse(s: &str) -> Result<u32, ParseIntError> {
    s.parse::<u32>().map_err(|e| match e.kind() {
        std::num::IntErrorKind::Empty => ParseIntError::Empty,
        std::num::IntErrorKind::InvalidDigit => ParseIntError::InvalidDigit,
        std::num::IntErrorKind::PosOverflow => ParseIntError::PosOverflow,
        other => panic!("unexpected {:?}", other),
    })
}

#[test]
fn parse_matches_std() {
    let cases = [
        "", "+", "-", "0", "+5", "-5", "4294967295", "4294967296", "99999999999x", "12x",
        " 1", "\u{ff11}", "+-1", "00012", "0000000000004294967295", "++1", "1+", "42949672950",
        "é", "+é",
    ];
    for c in cases.iter() {
        assert_eq!(own_parse(c), std_parse(c), "{:?}", c);
    }
}

#[test]
fn trim_matches_std() {
    let cases = [
        "", " ", " a ", "\t\n a b \r\u{0B}\u{0C}", "\u{A0}x\u{3000}", "\u{200B}x", "\u{85}a\u{1680}",
        "\u{2000}\u{200A}y\u{2028}\u{2029}\u{202F}\u{205F}", "\u{180E}z",
    ];
    for c in cases.iter() {
        let v: Vec<char> = c.chars().collect();
        let got: String = trim_chars(&v, CharClass::Whitespace).into_iter().collect();
        assert_eq!(got, c.trim(), "{:?}", c);
        let got2: String = trim_chars(&v, CharClass::Parens).into_iter().collect();
        assert_eq!(got2, c.trim_matches(|p| p == '(' || p == ')'), "{:?}", c);
    }
    let v: Vec<char> = "(()a(b))".chars().collect();
    let got: String = trim_chars(&v, CharClass::Parens).into_iter().collect();
    assert_eq!(got, "a(b");
}

#[test]
fn replace_matches_std() {
    let cases = [
        ("input/a/input", "input", "out"),
        ("aaa", "aa", "b"),
        ("abc", "", "x"),
        ("", "", "x"),
        ("", "a", "x"),
        ("in/photos", "in", ""),
        ("abab", "ab", "abab"),
    ];
    for (s, f, t) in cases.iter() {
        assert_eq!(replace(s, f, t), s.replace(f, t), "{:?}", (s, f, t));
    }
}

#[test]
fn contains_matches_std() {
    let cases = [("abc", ""), ("", ""), ("", "a"), ("my-photo", "my"), ("photo", "my"), ("aab", "ab")];
    for (h, n) in cases.iter() {
        assert_eq!(contains(h, n), h.contains(n), "{:?}", (h, n));
    }
}

#[test]
fn decimal_matches_std() {
    for n in [0u64, 1, 9, 10, 11, 99, 100, 12345, u64::MAX].iter() {
        let s: String = decimal_chars(*n).into_iter().collect();
        assert_eq!(s, n.to_string());
    }
}

#[test]
fn paths_match_std() {
    let cases = [
        "", "/", ".", "..", "./", "./a", "a", "a/", "a/b", "a/b/", "a//b", "a/./b", "a/.", "a/..",
        "/a", "//a", "foo.txt", ".hidden", "a.b.c", "a.", ".a.b", "dir/.hidden", "x/y.tar.gz",
        "./.", "../a", "a/b/.//", "...", "a/...", "/.", "/..", "./..", ".//a", "a/b/c.d/",
        "input/sub/img.jpg", "/x/./", "..a", "a..", "a/.b.", "./a/b/", "//",
    ];
    for c in cases.iter() {
        let p = std::path::Path::new(c);
        let name = p.file_name().map(|x| x.to_str().unwrap().to_string());
        let stem = p.file_stem().map(|x| x.to_str().unwrap().to_string());
        let ext = p.extension().map(|x| x.to_str().unwrap().to_string());
        assert_eq!(file_name(c), name, "file_name {:?}", c);
        assert_eq!(file_stem(c), stem, "file_stem {:?}", c);
        assert_eq!(extension(c), ext, "extension {:?}", c);
        assert_eq!(
            parent(c),
            p.parent().map(|x| x.to_str().unwrap().to_string()),
            "parent {:?}",
            c
        );
    }
}

