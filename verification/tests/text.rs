use passnag::text::{chars_of, parse_decimal, same_text};

#[test]
fn equal_texts_are_the_same() {
    assert!(same_text("", ""));
    assert!(same_text("correct horse", "correct horse"));
    assert!(same_text("pässwörd", "pässwörd"));
}

#[test]
fn different_texts_are_not_the_same() {
    assert!(!same_text("a", "b"));
    assert!(!same_text("abc", "ab"));
    assert!(!same_text("ab", "abc"));
    assert!(!same_text("", " "));
    assert!(!same_text("é", "e"));
}

#[test]
fn a_text_is_taken_apart_into_its_characters() {
    assert_eq!(chars_of(""), Vec::<char>::new());
    assert_eq!(chars_of("1d é"), vec!['1', 'd', ' ', 'é']);
}

#[test]
fn digits_write_a_number() {
    assert_eq!(parse_decimal(&['0']), Some(0));
    assert_eq!(parse_decimal(&['4', '2']), Some(42));
    assert_eq!(parse_decimal(&['0', '0', '7']), Some(7));
    assert_eq!(parse_decimal(&chars_of("18446744073709551615")), Some(u64::MAX));
}

#[test]
fn what_is_not_all_digits_writes_no_number() {
    assert_eq!(parse_decimal(&[]), None);
    assert_eq!(parse_decimal(&['+', '1']), None);
    assert_eq!(parse_decimal(&['1', ' ']), None);
    assert_eq!(parse_decimal(&['x']), None);
    assert_eq!(parse_decimal(&chars_of("18446744073709551616")), None);
}
