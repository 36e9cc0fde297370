use gemtext::lines::{line_len, split_lines, strip_cr};

fn chars(s: &str) -> Vec<char> {
    s.chars().collect()
}

fn strings(lines: Vec<&[char]>) -> Vec<String> {
    lines.into_iter().map(|l| l.iter().collect()).collect()
}

fn split(s: &str) -> Vec<String> {
    strings(split_lines(&chars(s)))
}

#[test]
fn line_len_stops_at_line_feed() {
    assert_eq!(line_len(&chars("")), 0);
    assert_eq!(line_len(&chars("abc")), 3);
    assert_eq!(line_len(&chars("ab\ncd\n")), 2);
    assert_eq!(line_len(&chars("\nab")), 0);
    assert_eq!(line_len(&chars("ab\r\n")), 3);
    assert_eq!(line_len(&chars("a\rb")), 3);
}

#[test]
fn strip_cr_takes_one_carriage_return() {
    assert_eq!(strip_cr(&chars("ab\r")), &chars("ab")[..]);
    assert_eq!(strip_cr(&chars("ab\r\r")), &chars("ab\r")[..]);
    assert_eq!(strip_cr(&chars("ab")), &chars("ab")[..]);
    assert_eq!(strip_cr(&chars("\rab")), &chars("\rab")[..]);
    assert_eq!(strip_cr(&chars("")), &chars("")[..]);
    assert_eq!(strip_cr(&chars("\r")), &chars("")[..]);
}

#[test]
fn split_lines_examples() {
    assert_eq!(split(""), Vec::<String>::new());
    assert_eq!(split("a"), vec!["a"]);
    assert_eq!(split("a\n"), vec!["a"]);
    assert_eq!(split("a\nb"), vec!["a", "b"]);
    assert_eq!(split("a\n\nb\n"), vec!["a", "", "b"]);
    assert_eq!(split("\n"), vec![""]);
    assert_eq!(split("\n\n"), vec!["", ""]);
    assert_eq!(split("a\r\nb\r\n"), vec!["a", "b"]);
    assert_eq!(split("\r\n"), vec![""]);
}

#[test]
fn split_lines_keeps_lone_carriage_returns() {
    assert_eq!(split("a\rb"), vec!["a\rb"]);
    assert_eq!(split("a\r"), vec!["a\r"]);
    assert_eq!(split("a\r\r\nb"), vec!["a\r", "b"]);
    assert_eq!(split("\r"), vec!["\r"]);
    assert_eq!(split("\r\r\n\r"), vec!["\r", "\r"]);
}

#[test]
fn split_lines_agrees_with_str() {
    let samples = [
        "",
        "\n",
        "\r",
        "\r\n",
        "\n\r",
        "a",
        "a\n",
        "a\r\n",
        "a\r",
        "a\nb",
        "a\r\nb\r\n",
        "a\n\nb\n\n",
        "a\r\r\nb\r",
        "foo\nbar\n\r\nbaz\r",
        "\u{e9}\n\u{4e16}\u{754c}\r\n\u{2028}x\u{85}y",
        "one line with spaces   ",
    ];
    for s in samples {
        let expected: Vec<String> = s.lines().map(|l| l.to_string()).collect();
        assert_eq!(split(s), expected, "{:?}", s);
    }
}
