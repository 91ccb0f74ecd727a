use rental_ledger::text::{
    lines, push_chars, push_joined, quote, split, to_chars, to_string, unquote,
};

fn chars(s: &str) -> Vec<char> {
    s.chars().collect()
}

fn strings(parts: &[Vec<char>]) -> Vec<String> {
    parts.iter().map(|p| p.iter().collect()).collect()
}

#[test]
fn characters_of_a_string_come_in_order() {
    assert_eq!(to_chars("a;b"), vec!['a', ';', 'b']);
    assert_eq!(to_chars(""), Vec::<char>::new());
    assert_eq!(to_chars("Descrição"), chars("Descrição"));
    assert_eq!(to_chars("Descrição").len(), 9);
}

#[test]
fn string_is_made_of_characters() {
    assert_eq!(to_string(&chars("crane job")), "crane job");
    assert_eq!(to_string(&[]), "");
    let mut out = String::from("ab");
    push_chars(&mut out, &chars("cd"));
    assert_eq!(out, "abcd");
}

#[test]
fn split_gives_one_piece_more_than_separators() {
    assert_eq!(strings(&split(&chars("a;b;c"), ';')), vec!["a", "b", "c"]);
    assert_eq!(strings(&split(&chars("abc"), ';')), vec!["abc"]);
    assert_eq!(strings(&split(&chars(""), ';')), vec![""]);
    assert_eq!(strings(&split(&chars(";"), ';')), vec!["", ""]);
    assert_eq!(strings(&split(&chars("a;;b;"), ';')), vec!["a", "", "b", ""]);
    assert_eq!(strings(&split(&chars(";a"), ';')), vec!["", "a"]);
}

#[test]
fn lines_end_at_line_feeds() {
    assert_eq!(strings(&lines(&chars("a\nb\n"))), vec!["a", "b"]);
    assert_eq!(strings(&lines(&chars("a\nb"))), vec!["a", "b"]);
    assert_eq!(strings(&lines(&chars("a\n\nb\n"))), vec!["a", "", "b"]);
    assert_eq!(strings(&lines(&chars("\n"))), vec![""]);
    assert_eq!(strings(&lines(&chars("\n\n"))), vec!["", ""]);
    assert_eq!(lines(&chars("")).len(), 0);
}

#[test]
fn carriage_return_before_a_line_feed_is_dropped() {
    assert_eq!(strings(&lines(&chars("a\r\nb\r\n"))), vec!["a", "b"]);
    assert_eq!(strings(&lines(&chars("a\r\r\nb"))), vec!["a\r", "b"]);
    assert_eq!(strings(&lines(&chars("a\rb\n"))), vec!["a\rb"]);
    assert_eq!(strings(&lines(&chars("a\nb\r"))), vec!["a", "b\r"]);
    assert_eq!(strings(&lines(&chars("\r\n"))), vec![""]);
}

#[test]
fn one_quote_is_taken_off_each_end() {
    assert_eq!(to_string(unquote(&chars("\"abc\""))), "abc");
    assert_eq!(to_string(unquote(&chars("abc"))), "abc");
    assert_eq!(to_string(unquote(&chars("\"abc"))), "abc");
    assert_eq!(to_string(unquote(&chars("abc\""))), "abc");
    assert_eq!(to_string(unquote(&chars("\"\"abc\"\""))), "\"abc\"");
    assert_eq!(to_string(unquote(&chars("a\"b"))), "a\"b");
    assert_eq!(to_string(unquote(&chars("\"\""))), "");
    assert_eq!(to_string(unquote(&chars("\""))), "");
    assert_eq!(to_string(unquote(&chars(""))), "");
    assert_eq!(to_string(unquote(&chars("\"\"\""))), "\"");
}

#[test]
fn quote_puts_one_quote_at_each_end() {
    assert_eq!(quote("abc"), "\"abc\"");
    assert_eq!(quote(""), "\"\"");
    assert_eq!(quote("\"a"), "\"\"a\"");
    assert_eq!(to_string(unquote(&chars(&quote("a;b")))), "a;b");
}

#[test]
fn parts_are_joined_with_one_separator_between_each_two() {
    let mut out = String::from(">");
    push_joined(&mut out, &vec![String::from("a"), String::from(""), String::from("c")], ';');
    assert_eq!(out, ">a;;c");
    let mut one = String::new();
    push_joined(&mut one, &vec![String::from("a")], ';');
    assert_eq!(one, "a");
    let mut none = String::from("x");
    push_joined(&mut none, &Vec::new(), ';');
    assert_eq!(none, "x");
}

#[test]
fn joined_parts_are_split_again() {
    let parts = vec![String::from("a"), String::from(""), String::from("c d")];
    let mut out = String::new();
    push_joined(&mut out, &parts, ';');
    assert_eq!(strings(&split(&chars(&out), ';')), parts);
}
