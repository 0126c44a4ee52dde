use stocktake::text::{
    chars_of, contains_chars, lines_chars, split_chars, string_of, trim_chars, trim_end_chars,
    usize_text,
};

fn trimmed(s: &str) -> String {
    string_of(&trim_chars(&chars_of(s)))
}

#[test]
fn trim_matches_std_trim() {
    let samples = [
        "",
        "   ",
        "  abc  ",
        "\t\nabc\r\n",
        "\u{a0}x\u{3000}",
        "\u{2009}inner space\u{85}",
        "no-trim",
        "\u{200b}zero width is kept\u{200b}",
    ];
    for s in samples {
        assert_eq!(trimmed(s), s.trim(), "sample {:?}", s);
    }
}

#[test]
fn trim_end_matches_std_trim_end() {
    for s in ["a \n", " a", "\u{1680}b\u{2028}", ""] {
        assert_eq!(string_of(&trim_end_chars(&chars_of(s))), s.trim_end());
    }
}

#[test]
fn split_matches_std_split() {
    for s in ["a;b;;c;", "", ";", "no separator"] {
        let got: Vec<String> = split_chars(&chars_of(s), ';').iter().map(|p| string_of(p)).collect();
        let want: Vec<String> = s.split(';').map(|p| p.to_string()).collect();
        assert_eq!(got, want);
    }
}

#[test]
fn lines_matches_std_lines() {
    for s in ["a\nb\r\nc", "a\n", "", "\n", "x\r\r\n", "last\r", "\n\nz"] {
        let got: Vec<String> = lines_chars(&chars_of(s)).iter().map(|p| string_of(p)).collect();
        let want: Vec<String> = s.lines().map(|p| p.to_string()).collect();
        assert_eq!(got, want, "sample {:?}", s);
    }
}

#[test]
fn contains_finds_substrings() {
    assert!(contains_chars(&chars_of("driver={sql}"), &chars_of("driver=")));
    assert!(!contains_chars(&chars_of("drive"), &chars_of("driver=")));
    assert!(contains_chars(&chars_of("abc"), &chars_of("")));
}

#[test]
fn decimal_text_of_numbers() {
    assert_eq!(string_of(&usize_text(0)), "0");
    assert_eq!(string_of(&usize_text(1433)), "1433");
    assert_eq!(string_of(&usize_text(10)), "10");
}
