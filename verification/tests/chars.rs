use bitd::lexer::chars::all_of;
use bitd::lexer::chars::chars_of;
use bitd::lexer::chars::scan_run;
use bitd::lexer::chars::CharClass;
use bitd::lexer::number::value_of;

fn chars(text: &str) -> Vec<char> {
    text.chars().collect()
}

#[test]
fn classes_agree_with_std_on_every_character() {
    for code in 0..=0x10FFFFu32 {
        if let Some(c) = char::from_u32(code) {
            assert_eq!(CharClass::Digit.has(c), c.is_ascii_digit(), "{:?}", c);
            assert_eq!(CharClass::Letter.has(c), c.is_ascii_alphabetic(), "{:?}", c);
            assert_eq!(CharClass::Alphanumeric.has(c), c.is_ascii_alphanumeric(), "{:?}", c);
            assert_eq!(CharClass::Operator.has(c), "+-*/".contains(c), "{:?}", c);
            assert_eq!(CharClass::Whitespace.has(c), c.is_whitespace(), "{:?}", c);
            assert_eq!(CharClass::Visible.has(c), !c.is_whitespace(), "{:?}", c);
        }
    }
}

#[test]
fn chars_of_gives_the_characters_in_order() {
    assert_eq!(chars_of(""), Vec::<char>::new());
    assert_eq!(chars_of("2d6"), vec!['2', 'd', '6']);
    assert_eq!(chars_of("é\u{2003}1"), vec!['é', '\u{2003}', '1']);
}

#[test]
fn runs_are_measured_from_their_start() {
    let text = chars("123abc  x");
    assert_eq!(scan_run(&text, CharClass::Digit, 0), 3);
    assert_eq!(scan_run(&text, CharClass::Digit, 1), 2);
    assert_eq!(scan_run(&text, CharClass::Digit, 3), 0);
    assert_eq!(scan_run(&text, CharClass::Alphanumeric, 0), 6);
    assert_eq!(scan_run(&text, CharClass::Letter, 3), 3);
    assert_eq!(scan_run(&text, CharClass::Whitespace, 6), 2);
    assert_eq!(scan_run(&text, CharClass::Visible, 0), 6);
    assert_eq!(scan_run(&text, CharClass::Visible, 8), 1);
}

#[test]
fn no_run_begins_behind_the_end() {
    let text = chars("12");
    assert_eq!(scan_run(&text, CharClass::Digit, 2), 0);
    assert_eq!(scan_run(&text, CharClass::Digit, 3), 0);
    assert_eq!(scan_run(&text, CharClass::Digit, usize::MAX), 0);
    assert_eq!(scan_run(&[], CharClass::Visible, 0), 0);
}

#[test]
fn all_of_tests_every_character() {
    assert!(all_of(&chars("0123456789"), CharClass::Digit));
    assert!(!all_of(&chars("01234x6789"), CharClass::Digit));
    assert!(!all_of(&chars("0123456789 "), CharClass::Digit));
    assert!(all_of(&chars(""), CharClass::Digit));
    assert!(all_of(&chars("adv2"), CharClass::Alphanumeric));
}

#[test]
fn value_of_reads_base_ten() {
    assert_eq!(value_of(&chars("")), Some(0));
    assert_eq!(value_of(&chars("0")), Some(0));
    assert_eq!(value_of(&chars("9")), Some(9));
    assert_eq!(value_of(&chars("10")), Some(10));
    assert_eq!(value_of(&chars("1234567890")), Some(1234567890));
    assert_eq!(value_of(&chars("000000000000000000000000000000007")), Some(7));
    assert_eq!(value_of(&chars("18446744073709551615")), Some(u64::MAX));
}

#[test]
fn value_of_refuses_what_does_not_fit() {
    assert_eq!(value_of(&chars("18446744073709551616")), None);
    assert_eq!(value_of(&chars("18446744073709551620")), None);
    assert_eq!(value_of(&chars("28446744073709551615")), None);
    assert_eq!(value_of(&chars("100000000000000000000")), None);
}

#[test]
fn value_of_refuses_what_is_no_digit() {
    assert_eq!(value_of(&chars("12a")), None);
    assert_eq!(value_of(&chars("-1")), None);
    assert_eq!(value_of(&chars("+1")), None);
    assert_eq!(value_of(&chars("1 ")), None);
    assert_eq!(value_of(&chars("٣")), None);
}
