use quicksilver::error::DecodeError;
use quicksilver::number::{digit_char, digit_test, parse_int, push_int, push_nat};
use quicksilver::parser::{class_test, float_test, same_chars, CharClass};
use quicksilver::text::{chars_of, push_str, string_of, string_of_range};

fn text_of(i: i128) -> String {
    let mut out = Vec::new();
    push_int(&mut out, i);
    out.into_iter().collect()
}

#[test]
fn integers_are_written_in_decimal() {
    assert_eq!(text_of(0), "0");
    assert_eq!(text_of(7), "7");
    assert_eq!(text_of(10), "10");
    assert_eq!(text_of(-5), "-5");
    assert_eq!(text_of(789), "789");
    assert_eq!(text_of(i64::MIN as i128), "-9223372036854775808");
    assert_eq!(text_of(u64::MAX as i128), "18446744073709551615");
    let mut out = vec!['x'];
    push_nat(&mut out, 120);
    assert_eq!(out, vec!['x', '1', '2', '0']);
}

#[test]
fn digits() {
    assert_eq!(digit_char(0), '0');
    assert_eq!(digit_char(9), '9');
    assert!(digit_test('5'));
    assert!(!digit_test('a'));
    assert!(!digit_test('/'));
    assert!(!digit_test(':'));
}

#[test]
fn tokens_are_read_as_integers() {
    assert_eq!(parse_int(&chars_of("42"), true, -100, 100), Ok(42));
    assert_eq!(parse_int(&chars_of("-42"), true, -100, 100), Ok(-42));
    assert_eq!(parse_int(&chars_of("+42"), false, 0, 100), Ok(42));
    assert_eq!(parse_int(&chars_of("-0"), true, 0, 100), Ok(0));
    assert_eq!(parse_int(&chars_of("-0"), false, 0, 100), Err(DecodeError::Malformed));
    assert_eq!(parse_int(&chars_of(""), true, -100, 100), Err(DecodeError::Malformed));
    assert_eq!(parse_int(&chars_of("+"), true, -100, 100), Err(DecodeError::Malformed));
    assert_eq!(parse_int(&chars_of("4x"), true, -100, 100), Err(DecodeError::Malformed));
    assert_eq!(parse_int(&chars_of("101"), true, -100, 100), Err(DecodeError::OutOfRange));
    assert_eq!(parse_int(&chars_of("-101"), true, -100, 100), Err(DecodeError::OutOfRange));
    assert_eq!(
        parse_int(&chars_of("18446744073709551615"), false, 0, u64::MAX as i128),
        Ok(u64::MAX as i128)
    );
    assert_eq!(
        parse_int(&chars_of("18446744073709551616"), false, 0, u64::MAX as i128),
        Err(DecodeError::OutOfRange)
    );
    assert_eq!(
        parse_int(&chars_of("000000000000000000000000000000000000000001"), true, 0, 5),
        Ok(1)
    );
}

#[test]
fn every_integer_is_read_back() {
    for i in [0i128, 1, -1, 9, 10, 99, 100, -100, 2147483647, -2147483648] {
        let text: Vec<char> = text_of(i).chars().collect();
        assert_eq!(parse_int(&text, true, i64::MIN as i128, i64::MAX as i128), Ok(i));
    }
}

#[test]
fn strings_and_characters() {
    assert_eq!(chars_of("héllo"), vec!['h', 'é', 'l', 'l', 'o']);
    assert_eq!(string_of(&vec!['h', 'é', 'y']), "héy");
    assert_eq!(string_of(&Vec::new()), "");
    assert_eq!(string_of_range(&vec!['a', 'b', 'c', 'd'], 1, 3), "bc");
    let mut out = vec!['a'];
    push_str(&mut out, "bc");
    assert_eq!(out, vec!['a', 'b', 'c']);
    assert!(same_chars(&chars_of("abc"), &chars_of("abc")));
    assert!(!same_chars(&chars_of("abc"), &chars_of("abd")));
    assert!(!same_chars(&chars_of("abc"), &chars_of("ab")));
}

#[test]
fn character_classes() {
    assert!(class_test('-', CharClass::Int));
    assert!(!class_test('-', CharClass::Unsigned));
    assert!(class_test('+', CharClass::Unsigned));
    assert!(class_test('.', CharClass::Float));
    assert!(!class_test('.', CharClass::Int));
    assert!(class_test('x', CharClass::Plain));
    assert!(!class_test(',', CharClass::Plain));
    assert!(!class_test(']', CharClass::Plain));
    assert!(!class_test('}', CharClass::Plain));
    assert!(class_test(',', CharClass::Name));
    assert!(!class_test('"', CharClass::Name));
}

#[test]
fn decimal_numbers_with_a_fraction() {
    for good in ["5", "5.", ".5", "+5", "-5", "5.5", "123.45", "-0.25", "+.5"] {
        assert!(float_test(&chars_of(good)), "{}", good);
        assert!(good.parse::<f64>().is_ok());
    }
    for bad in ["", ".", "+", "-", "-.", "+.", "1.2.3", "1+2", "..1", "--1"] {
        assert!(!float_test(&chars_of(bad)), "{}", bad);
        assert!(bad.parse::<f64>().is_err());
    }
}
