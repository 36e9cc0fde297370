use gemtext::text::{chars_of, push_chars, string_of};

#[test]
fn chars_of_gives_each_character() {
    assert_eq!(chars_of(""), Vec::<char>::new());
    assert_eq!(chars_of("abc"), vec!['a', 'b', 'c']);
    assert_eq!(
        chars_of("h\u{e9}\u{4e16}\u{1f600}!"),
        vec!['h', '\u{e9}', '\u{4e16}', '\u{1f600}', '!']
    );
}

#[test]
fn string_of_holds_what_it_was_given() {
    assert_eq!(string_of(&[]), "");
    assert_eq!(string_of(&['a', 'b', 'c']), "abc");
    assert_eq!(
        string_of(&['h', '\u{e9}', '\u{4e16}', '\u{1f600}', '!']),
        "h\u{e9}\u{4e16}\u{1f600}!"
    );
}

#[test]
fn push_chars_appends_in_order() {
    let mut s = String::from("ab");
    push_chars(&mut s, &['c', 'd']);
    assert_eq!(s, "abcd");
    push_chars(&mut s, &[]);
    assert_eq!(s, "abcd");
    push_chars(&mut s, &['\u{e9}']);
    assert_eq!(s, "abcd\u{e9}");
}

#[test]
fn string_of_chars_of_is_the_text() {
    for s in ["", "plain", "=> url name", "\u{e9}\u{4e16}\u{754c}\r\n\t"] {
        assert_eq!(string_of(&chars_of(s)), s);
    }
}
