//! Texts, taken apart character by character.
use transcript_decoder::lookup::Lookup;
use transcript_decoder::order::{insert_sorted, is_before};
use transcript_decoder::pieces::{fields, join, lines, respace, split_once, word_last, words};
use transcript_decoder::scan::{
    contains, count_chars, find, first_chars, is_blank, same_letters, strip, strip_prefix_ascii_case,
    strip_prefixes, to_lower, to_upper, trim, trim_end, trim_start,
};
use transcript_decoder::text::{char_within, len_bytes, slice_to_string, chars_of, CharClass};

#[test]
fn characters_are_classified_as_unicode_does() {
    let samples = "aZ09 \t\u{a0}\u{3000}\u{e9}\u{c9}\u{3a9}\u{4e2d}\u{b2}_.\u{2028}\u{200b}";
    for c in samples.chars() {
        assert_eq!(char_within(CharClass::Space, c), c.is_whitespace(), "{c:?}");
        assert_eq!(char_within(CharClass::Alphabetic, c), c.is_alphabetic(), "{c:?}");
        assert_eq!(char_within(CharClass::Alphanumeric, c), c.is_alphanumeric(), "{c:?}");
        assert_eq!(char_within(CharClass::Lowercase, c), c.is_lowercase(), "{c:?}");
        assert_eq!(char_within(CharClass::Digit, c), c.is_ascii_digit(), "{c:?}");
        assert_eq!(
            char_within(CharClass::UppercaseLetter, c),
            c.is_alphabetic() && c.is_uppercase(),
            "{c:?}"
        );
    }
}

#[test]
fn white_space_is_that_of_unicode() {
    let text = "\u{a0}\u{2003} Q. Caf\u{e9}? \u{3000}\n";
    assert_eq!(trim(text), text.trim());
    assert_eq!(trim_start(text), text.trim_start());
    assert_eq!(trim_end(text), text.trim_end());
    assert!(is_blank(" \u{85}\t"));
    assert!(!is_blank("\u{200b}"));
}

#[test]
fn words_and_lines_are_those_of_std() {
    let text = "one  two\u{2003}three\r\nfour\n\n five\r\r\n";
    let expected: Vec<&str> = text.split_whitespace().collect();
    assert_eq!(words(text), expected);
    let expected: Vec<&str> = text.lines().collect();
    assert_eq!(lines(text), expected);
    let expected: Vec<&str> = "a,,b,".split(',').collect();
    assert_eq!(fields("a,,b,", ','), expected);
    assert_eq!(respace(" a \n b  c "), "a b c");
    assert_eq!(word_last("a b c ").as_deref(), Some("c"));
    assert_eq!(word_last("  "), None);
    assert_eq!(split_once("a: b: c", ':'), Some(("a", " b: c")));
    assert_eq!(split_once("abc", ':'), None);
    assert_eq!(join(&vec!["a".to_string(), "b".to_string()], ", "), "a, b");
}

#[test]
fn only_ascii_letters_change_case() {
    assert_eq!(to_upper("stra\u{df}e \u{e9}x"), "STRA\u{df}E \u{e9}X");
    assert_eq!(to_lower("\u{c9}T\u{c9}"), "\u{c9}t\u{c9}");
    assert!(same_letters("Redact", "rEDACT"));
    assert!(!same_letters("\u{e9}", "\u{c9}"));
    assert_eq!(strip_prefix_ascii_case("by MR. X:", "BY "), Some("MR. X:"));
    assert_eq!(strip_prefix_ascii_case("b\u{e9} x", "BY "), None);
}

#[test]
fn texts_are_searched() {
    assert_eq!(find("the record off the record", "off the"), Some(11));
    assert_eq!(find("abc", "d"), None);
    assert!(contains("abc", ""));
    assert_eq!(strip("::a:b:", CharClass::Is(':')), "a:b");
    assert_eq!(strip_prefixes("node_node_block_1", "node_"), "block_1");
    assert_eq!(count_chars("A1b2", CharClass::Digit), 2);
    assert_eq!(first_chars("\u{e9}a\u{e9}", 2), "\u{e9}a");
    assert_eq!(len_bytes("\u{e9}a\u{1f600}"), 7);
    assert_eq!(slice_to_string(&chars_of("\u{e9}abc"), 1, 3), "ab");
}

#[test]
fn texts_are_ordered_by_their_characters() {
    for a in ["", "A", "AB", "a", "\u{e9}", "\u{10000}", "\u{ffff}"] {
        for b in ["", "A", "AB", "a", "\u{e9}", "\u{10000}", "\u{ffff}"] {
            assert_eq!(is_before(a, b), a < b, "{a} {b}");
        }
    }
    let mut list = Vec::new();
    for text in ["b", "a", "c", "a"] {
        insert_sorted(&mut list, text.to_string());
    }
    assert_eq!(list, ["a", "b", "c"]);
}

#[test]
fn identifiers_are_looked_up() {
    let ids: Vec<String> = ["x", "y", "x"].iter().map(|id| id.to_string()).collect();
    let lookup = Lookup::new(&ids);
    assert_eq!(lookup.position("x"), Some(2));
    assert_eq!(lookup.position("y"), Some(1));
    assert_eq!(lookup.position("z"), None);
    assert_eq!(lookup.count("x"), 2);
    assert_eq!(lookup.count("z"), 0);
    assert_eq!(lookup.distinct(), 2);
}

#[test]
fn ascii_is_classified_by_its_letters_and_digits() {
    for byte in 0..128u8 {
        let c = char::from(byte);
        assert_eq!(char_within(CharClass::Alphabetic, c), byte.is_ascii_alphabetic(), "{c:?}");
        assert_eq!(char_within(CharClass::Alphanumeric, c), byte.is_ascii_alphanumeric(), "{c:?}");
        assert_eq!(char_within(CharClass::Uppercase, c), byte.is_ascii_uppercase(), "{c:?}");
        assert_eq!(char_within(CharClass::Lowercase, c), byte.is_ascii_lowercase(), "{c:?}");
    }
}
