use tusk::text::{chars_of, decimal_string, split_lines, split_tokens, str_eq, trimmed};

fn strings(v: Vec<Vec<char>>) -> Vec<String> {
    v.into_iter().map(|l| l.into_iter().collect()).collect()
}

#[test]
fn trims_unicode_whitespace_like_std() {
    for s in ["  a b \n", "\t\u{3000}x\u{a0}", "", "   ", "abc", "\u{85}y\u{2029}"] {
        assert_eq!(trimmed(s), s.trim());
    }
}

#[test]
fn splits_lines_like_std() {
    for s in ["a\nb", "a\r\nb\r\n", "a\n\nb\n", "", "\n", "x\r", "one"] {
        let got = strings(split_lines(&chars_of(s)));
        let want: Vec<String> = s.lines().map(|l| l.to_string()).collect();
        assert_eq!(got, want, "input {:?}", s);
    }
}

#[test]
fn splits_tokens_like_std() {
    for s in ["mariadb 11.4.2  started ann", "  lead", "", " \t ", "a\u{2003}b"] {
        let got = strings(split_tokens(&chars_of(s)));
        let want: Vec<String> = s.split_whitespace().map(|t| t.to_string()).collect();
        assert_eq!(got, want);
    }
}

#[test]
fn decimal_text_of_numbers() {
    assert_eq!(decimal_string(0), "0");
    assert_eq!(decimal_string(80), "80");
    assert_eq!(decimal_string(18446744073709551615), "18446744073709551615");
}

#[test]
fn string_equality() {
    assert!(str_eq("nginx", "nginx"));
    assert!(!str_eq("nginx", "apache"));
    assert!(!str_eq("", "a"));
}
