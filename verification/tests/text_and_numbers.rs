use backup_games::number::{format_u64, parse_u64};
use backup_games::text::{chars_of, join_strings, split_comma_list, split_lines, trim_chars};

fn c(s: &str) -> Vec<char> {
    s.chars().collect()
}

fn st(v: &[char]) -> String {
    v.iter().collect()
}

#[test]
fn parse_u64_accepts_digits_and_plus() {
    assert_eq!(parse_u64(&c("12")), Some(12));
    assert_eq!(parse_u64(&c("+7")), Some(7));
    assert_eq!(parse_u64(&c("0")), Some(0));
    assert_eq!(parse_u64(&c("18446744073709551615")), Some(u64::MAX));
}

#[test]
fn parse_u64_rejects_what_from_str_rejects() {
    assert_eq!(parse_u64(&c("")), None);
    assert_eq!(parse_u64(&c("+")), None);
    assert_eq!(parse_u64(&c("-1")), None);
    assert_eq!(parse_u64(&c(" 5")), None);
    assert_eq!(parse_u64(&c("1x")), None);
    assert_eq!(parse_u64(&c("18446744073709551616")), None);
    for s in ["", "+", "-1", " 5", "1x", "18446744073709551616", "99999999999999999999x"] {
        assert_eq!(parse_u64(&c(s)), s.parse::<u64>().ok());
    }
}

#[test]
fn decimal_round_trip() {
    for n in [0u64, 7, 10, 86400, 1725029869, u64::MAX] {
        let text = format_u64(n);
        assert_eq!(st(&text), n.to_string());
        assert_eq!(parse_u64(&text), Some(n));
    }
}

#[test]
fn trim_removes_unicode_white_space() {
    assert_eq!(st(&trim_chars(&c(" \t a b \r\n"))), "a b");
    assert_eq!(st(&trim_chars(&c("\u{3000}x\u{a0}"))), "x");
    assert_eq!(st(&trim_chars(&c("   "))), "");
    for s in [" \t a b \r\n", "\u{3000}x\u{a0}", "   ", "\u{85}q\u{2028}"] {
        assert_eq!(st(&trim_chars(&c(s))), s.trim());
    }
}

#[test]
fn lines_match_str_lines() {
    for s in ["a\r\nb\n", "a\n\nb", "x\r", "", "\n", "one", "a\nb\r\n\r\n"] {
        let got: Vec<String> = split_lines(&c(s)).iter().map(|l| st(l)).collect();
        let want: Vec<String> = s.lines().map(|l| l.to_string()).collect();
        assert_eq!(got, want, "input {:?}", s);
    }
}

#[test]
fn comma_lists_are_trimmed_without_empty_items() {
    assert_eq!(split_comma_list(" a, ,b ,"), vec!["a".to_string(), "b".to_string()]);
    assert_eq!(split_comma_list(""), Vec::<String>::new());
    assert_eq!(split_comma_list("~/Games/x,~/.local/share/y"), vec!["~/Games/x".to_string(), "~/.local/share/y".to_string()]);
}

#[test]
fn join_puts_the_separator_between_items() {
    let items = vec!["rclone".to_string(), "fzf".to_string()];
    assert_eq!(st(&join_strings(&items, ", ")), "rclone, fzf");
    assert_eq!(st(&join_strings(&items[..1], ", ")), "rclone");
    assert_eq!(st(&join_strings(&[], ", ")), "");
    assert_eq!(chars_of("ab"), vec!['a', 'b']);
}
