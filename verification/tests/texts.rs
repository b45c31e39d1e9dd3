use dcautoquest::text::{
    ascii_alphanumeric, chars_of, decimal_text, join, same_text, split, strip, text_of, words,
    Class,
};

#[test]
fn white_space_is_the_unicode_property() {
    let white: Vec<u32> = (0..=0x10FFFFu32)
        .filter(|n| char::from_u32(*n).map_or(false, |c| Class::White.has(c)))
        .collect();
    let mut expected: Vec<u32> = vec![0x9, 0xA, 0xB, 0xC, 0xD, 0x20, 0x85, 0xA0, 0x1680];
    expected.extend(0x2000..=0x200A);
    expected.extend([0x2028, 0x2029, 0x202F, 0x205F, 0x3000]);
    assert_eq!(white, expected);
}

#[test]
fn classes_hold_their_characters() {
    assert!(Class::Dot.has('.') && !Class::Dot.has('/'));
    assert!(Class::Separator.has('/') && Class::Separator.has('\\'));
    assert!(!Class::Separator.has(':'));
    assert!(ascii_alphanumeric('Z') && ascii_alphanumeric('0') && ascii_alphanumeric('a'));
    assert!(!ascii_alphanumeric('_') && !ascii_alphanumeric('\u{e9}'));
}

#[test]
fn splitting_and_joining_undo_each_other() {
    let list = split("a/b\\\\c", Class::Separator);
    assert_eq!(list, ["a", "b", "", "c"]);
    assert_eq!(join(&list, "/"), "a/b//c");
    assert_eq!(split("a/b//c", Class::Separator), list);
    assert_eq!(split("", Class::Dot), [""]);
    assert_eq!(join(&Vec::new(), "/"), "");
}

#[test]
fn words_leave_no_empty_piece() {
    assert_eq!(words("  a \u{2003}bc\n"), ["a", "bc"]);
    assert!(words(" \t ").is_empty());
}

#[test]
fn stripping_stops_at_other_characters() {
    assert_eq!(strip("..a.b..", Class::Dot), "a.b");
    assert_eq!(strip("...", Class::Dot), "");
    assert_eq!(strip("\u{85} \u{e9} ", Class::White), "\u{e9}");
}

#[test]
fn numbers_are_written_in_decimal() {
    assert_eq!(decimal_text(0), "0");
    assert_eq!(decimal_text(10), "10");
    assert_eq!(decimal_text(1_234_567_890), "1234567890");
    assert_eq!(decimal_text(u128::MAX), "340282366920938463463374607431768211455");
}

#[test]
fn texts_are_taken_apart_by_characters() {
    let chars = chars_of("a\u{1f600}b");
    assert_eq!(chars, ['a', '\u{1f600}', 'b']);
    assert_eq!(text_of(&chars, 1, 3), "\u{1f600}b");
    assert!(same_text("ab", "ab") && !same_text("ab", "abc"));
}
