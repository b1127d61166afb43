use rust_changelogs::order::order_by_key;
use rust_changelogs::phrase::{count_phrase, count_with};
use rust_changelogs::text::{
    push_chars, push_decimal, push_escaped, push_signed_decimal, rejoin_lines, skip_blank,
    skip_line, skip_solid, starts_with, text_of, to_chars, trim_bounds,
};

fn chars(text: &str) -> Vec<char> {
    text.chars().collect()
}

fn decimal(n: u64) -> String {
    let mut out = String::new();
    push_decimal(&mut out, n);
    out
}

fn signed(n: i64) -> String {
    let mut out = String::new();
    push_signed_decimal(&mut out, n);
    out
}

#[test]
fn numbers_are_written_in_decimal() {
    assert_eq!(decimal(0), "0");
    assert_eq!(decimal(7), "7");
    assert_eq!(decimal(10), "10");
    assert_eq!(decimal(1_002_003), "1002003");
    assert_eq!(decimal(u64::MAX), "18446744073709551615");
    assert_eq!(signed(0), "0");
    assert_eq!(signed(-1), "-1");
    assert_eq!(signed(42), "42");
    assert_eq!(signed(i64::MAX), "9223372036854775807");
    assert_eq!(signed(i64::MIN), "-9223372036854775808");
    let mut out = "n = ".to_string();
    push_decimal(&mut out, 90);
    push_signed_decimal(&mut out, -5);
    assert_eq!(out, "n = 90-5");
}

#[test]
fn counts_come_with_their_word() {
    assert_eq!(count_with(3, "days"), "3 days");
    assert_eq!(count_with(-3, ""), "-3 ");
    assert_eq!(count_phrase(0, "day"), "0 days");
    assert_eq!(count_phrase(1, "day"), "1 day");
    assert_eq!(count_phrase(2, "day"), "2 days");
    assert_eq!(count_phrase(-1, "day"), "-1 days");
    assert_eq!(count_phrase(1, "days"), "1 day");
    assert_eq!(count_phrase(i64::MIN, "day"), "-9223372036854775808 days");
}

#[test]
fn runs_end_where_the_kind_of_character_changes() {
    let text = chars("ab \t\ncd\u{a0}e");
    assert_eq!(skip_solid(&text, 0), 2);
    assert_eq!(skip_solid(&text, 2), 2);
    assert_eq!(skip_blank(&text, 2), 5);
    assert_eq!(skip_blank(&text, 0), 0);
    assert_eq!(skip_solid(&text, 5), 7);
    assert_eq!(skip_blank(&text, 7), 8);
    assert_eq!(skip_solid(&text, 8), 9);
    assert_eq!(skip_solid(&text, 9), 9);
    assert_eq!(skip_blank(&text, 9), 9);
    assert_eq!(skip_line(&text, 0), 4);
    assert_eq!(skip_line(&text, 4), 4);
    assert_eq!(skip_line(&text, 5), 9);
    assert_eq!(skip_line(&Vec::new(), 0), 0);
}

#[test]
fn texts_are_cut_and_joined() {
    let text = to_chars("héllo wörld");
    assert_eq!(text, chars("héllo wörld"));
    assert_eq!(text_of(&text, 0, 5), "héllo");
    assert_eq!(text_of(&text, 6, 11), "wörld");
    assert_eq!(text_of(&text, 3, 3), "");
    let mut out = "<".to_string();
    push_chars(&mut out, &text, 4, 8);
    assert_eq!(out, "<o wö");
}

#[test]
fn white_space_is_trimmed_at_both_ends() {
    let bounds = |text: &str| {
        let text = chars(text);
        let (from, to) = trim_bounds(&text);
        text_of(&text, from, to)
    };
    assert_eq!(bounds("  a b \n"), "a b");
    assert_eq!(bounds("a"), "a");
    assert_eq!(bounds(""), "");
    assert_eq!(bounds(" \t\r\n"), "");
    assert_eq!(bounds("\u{2003}x\u{a0}"), "x");
    for text in ["", " ", "a", " a", "a ", "\n a \n b \n", "\u{feff}a"] {
        assert_eq!(bounds(text), text.trim());
    }
}

#[test]
fn lines_are_joined_without_the_first() {
    let body = |text: &str, from: usize, skip: usize| rejoin_lines(&chars(text), from, skip);
    assert_eq!(body("a\nb\nc", 0, 0), "a\nb\nc");
    assert_eq!(body("a\nb\nc\n", 0, 0), "a\nb\nc");
    assert_eq!(body("a\nb\nc\n\n", 0, 0), "a\nb\nc\n");
    assert_eq!(body("a\r\nb\r\nc\r", 0, 0), "a\nb\nc\r");
    assert_eq!(body("a\r\r\nb", 0, 0), "a\r\nb");
    assert_eq!(body("\n\na", 0, 0), "\n\na");
    assert_eq!(body("a\nb\nc", 0, 1), "b\nc");
    assert_eq!(body("a\nb\nc", 0, 2), "c");
    assert_eq!(body("a\nb\nc", 0, 3), "");
    assert_eq!(body("a\nb\nc", 0, 9), "");
    assert_eq!(body("a\nb\nc", 2, 1), "c");
    assert_eq!(body("a\nb\nc", 1, 1), "b\nc");
    assert_eq!(body("a\nb\nc", 5, 0), "");
    assert_eq!(body("", 0, 0), "");
    for text in ["", "\n", "a", "a\n", "\r\n", "a\r\n\r\nb\n\n", "x\ry\n\rz", "\n\n\n"] {
        for skip in 0..4 {
            let theirs: Vec<&str> = text.lines().skip(skip).collect();
            assert_eq!(body(text, 0, skip), theirs.join("\n"));
        }
    }
}

#[test]
fn quotes_are_escaped() {
    let escaped = |text: &str| {
        let mut out = String::new();
        push_escaped(&mut out, text);
        out
    };
    assert_eq!(escaped("plain"), "plain");
    assert_eq!(escaped("say \"hi\""), "say \\\"hi\\\"");
    assert_eq!(escaped("\""), "\\\"");
    assert_eq!(escaped("\\\""), "\\\\\"");
    assert_eq!(escaped(""), "");
    for text in ["", "\"\"\"", "a\"b", "'\"'"] {
        assert_eq!(escaped(text), text.replace('"', "\\\""));
    }
}

#[test]
fn prefixes_are_found() {
    assert!(starts_with(&chars("stabilize x"), &chars("stabilize")));
    assert!(starts_with(&chars("stabilize"), &chars("stabilize")));
    assert!(starts_with(&chars("x"), &chars("")));
    assert!(starts_with(&chars(""), &chars("")));
    assert!(!starts_with(&chars("stabiliz"), &chars("stabilize")));
    assert!(!starts_with(&chars("a stabilize"), &chars("stabilize")));
    assert!(!starts_with(&chars(""), &chars("s")));
}

#[test]
fn order_is_by_key_and_stable() {
    assert_eq!(order_by_key(&vec![3, 1, 2]), [1, 2, 0]);
    assert_eq!(order_by_key(&vec![2, 1, 2, 1, 2]), [1, 3, 0, 2, 4]);
    assert_eq!(order_by_key(&vec![i128::MAX, i128::MIN, 0, -1]), [1, 3, 2, 0]);
    assert_eq!(order_by_key(&vec![5]), [0]);
    assert_eq!(order_by_key(&Vec::new()), Vec::<usize>::new());
}
