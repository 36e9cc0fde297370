use gemtext::whitespace::{
    is_whitespace, leading_whitespace, token_len, trailing_whitespace, trim, trim_end, trim_start,
};

fn chars(s: &str) -> Vec<char> {
    s.chars().collect()
}

fn string(s: &[char]) -> String {
    s.iter().collect()
}

const SAMPLES: [&str; 14] = [
    "",
    " ",
    "a",
    " a",
    "a ",
    "  a b  ",
    "\t\n\r a \u{b}\u{c}",
    "\u{a0}\u{1680}x\u{2000}\u{200a}",
    "\u{2028}\u{2029}\u{202f}\u{205f}\u{3000}",
    "\u{200b}a\u{feff}",
    "\u{180e} a",
    "a\u{85}b\u{85}",
    "   ",
    "\u{e9} \u{4e16}\u{754c} ",
];

#[test]
fn whitespace_is_the_unicode_property() {
    let mut count = 0;
    for n in 0..=0x10ffff_u32 {
        if let Some(c) = char::from_u32(n) {
            assert_eq!(is_whitespace(c), c.is_whitespace(), "U+{:04X}", n);
            if is_whitespace(c) {
                count += 1;
            }
        }
    }
    assert_eq!(count, 25);
}

#[test]
fn whitespace_examples() {
    assert!(is_whitespace(' '));
    assert!(is_whitespace('\t'));
    assert!(is_whitespace('\n'));
    assert!(is_whitespace('\r'));
    assert!(is_whitespace('\u{a0}'));
    assert!(is_whitespace('\u{3000}'));
    assert!(!is_whitespace('a'));
    assert!(!is_whitespace('\u{8}'));
    assert!(!is_whitespace('\u{e}'));
    assert!(!is_whitespace('\u{200b}'));
    assert!(!is_whitespace('\u{180e}'));
    assert!(!is_whitespace('\u{0}'));
}

#[test]
fn leading_and_trailing_counts() {
    assert_eq!(leading_whitespace(&chars("")), 0);
    assert_eq!(trailing_whitespace(&chars("")), 0);
    assert_eq!(leading_whitespace(&chars("  a b \t\t")), 2);
    assert_eq!(trailing_whitespace(&chars("  a b \t\t")), 3);
    assert_eq!(leading_whitespace(&chars("   ")), 3);
    assert_eq!(trailing_whitespace(&chars("   ")), 3);
    assert_eq!(leading_whitespace(&chars("a ")), 0);
    assert_eq!(trailing_whitespace(&chars(" a")), 0);
}

#[test]
fn token_len_stops_at_first_whitespace() {
    assert_eq!(token_len(&chars("")), 0);
    assert_eq!(token_len(&chars("abc")), 3);
    assert_eq!(token_len(&chars("ab c d")), 2);
    assert_eq!(token_len(&chars(" ab")), 0);
    assert_eq!(token_len(&chars("a\tb")), 1);
    assert_eq!(token_len(&chars("\u{e9}\u{e9}\u{a0}b")), 2);
}

#[test]
fn trim_examples() {
    assert_eq!(string(trim(&chars("  a b \t"))), "a b");
    assert_eq!(string(trim_start(&chars("  a b \t"))), "a b \t");
    assert_eq!(string(trim_end(&chars("  a b \t"))), "  a b");
    assert_eq!(string(trim(&chars(" \t "))), "");
    assert_eq!(string(trim_start(&chars(" \t "))), "");
    assert_eq!(string(trim_end(&chars(" \t "))), "");
    assert_eq!(string(trim(&chars(""))), "");
    assert_eq!(string(trim(&chars("x"))), "x");
}

#[test]
fn trim_agrees_with_str() {
    for s in SAMPLES {
        assert_eq!(string(trim(&chars(s))), s.trim(), "{:?}", s);
        assert_eq!(string(trim_start(&chars(s))), s.trim_start(), "{:?}", s);
        assert_eq!(string(trim_end(&chars(s))), s.trim_end(), "{:?}", s);
    }
}

#[test]
fn trim_twice_is_trim_once() {
    for s in SAMPLES {
        let once = trim(&chars(s)).to_vec();
        assert_eq!(trim(&once), &once[..]);
        if let (Some(first), Some(last)) = (once.first(), once.last()) {
            assert!(!is_whitespace(*first));
            assert!(!is_whitespace(*last));
        }
    }
}
