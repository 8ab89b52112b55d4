use quicksilver::error::DecodeError;
use quicksilver::parser::{peek, peek_maybe, CharClass, JsonWalker};

fn rest(walker: &JsonWalker) -> String {
    walker.chars[walker.pos..].iter().collect()
}

#[test]
fn peek_shows_the_next_character_without_moving() {
    let walker = JsonWalker::new("ab");
    assert_eq!(peek(&walker), Ok('a'));
    assert_eq!(peek_maybe(&walker), Some('a'));
    assert_eq!(walker.pos, 0);
}

#[test]
fn peek_at_the_end_of_the_text() {
    let walker = JsonWalker::new("");
    assert_eq!(peek(&walker), Err(DecodeError::UnexpectedEnd));
    assert_eq!(peek_maybe(&walker), None);
}

#[test]
fn consume_char_reads_the_given_character() {
    let mut walker = JsonWalker::new("{x");
    assert_eq!(walker.consume_char('{'), Ok(()));
    assert_eq!(walker.pos, 1);
    assert_eq!(walker.consume_char('{'), Err(DecodeError::Malformed));
    assert_eq!(walker.pos, 1);
    assert_eq!(walker.consume_char('x'), Ok(()));
    assert_eq!(walker.consume_char('x'), Err(DecodeError::UnexpectedEnd));
}

#[test]
fn consume_either_reads_one_of_two() {
    let mut walker = JsonWalker::new("]}x");
    assert_eq!(walker.consume_either('}', ']'), Ok(()));
    assert_eq!(walker.consume_either('}', ']'), Ok(()));
    assert_eq!(walker.consume_either('}', ']'), Err(DecodeError::Malformed));
    assert_eq!(walker.pos, 2);
}

#[test]
fn consume_maybe_reads_only_what_is_there() {
    let mut walker = JsonWalker::new(",x");
    assert_eq!(walker.consume_maybe(','), Ok(()));
    assert_eq!(walker.pos, 1);
    assert_eq!(walker.consume_maybe(','), Ok(()));
    assert_eq!(walker.pos, 1);
    assert_eq!(walker.consume_char('x'), Ok(()));
    assert_eq!(walker.consume_maybe(','), Err(DecodeError::UnexpectedEnd));
}

#[test]
fn consume_int_reads_the_longest_run() {
    let mut walker = JsonWalker::new("-123,");
    assert_eq!(walker.consume_int(true, -1000, 1000), Ok(-123));
    assert_eq!(rest(&walker), ",");

    let mut walker = JsonWalker::new("+7");
    assert_eq!(walker.consume_int(false, 0, 10), Ok(7));
    assert_eq!(walker.pos, 2);

    let mut walker = JsonWalker::new("007}");
    assert_eq!(walker.consume_int(true, -10, 10), Ok(7));
    assert_eq!(rest(&walker), "}");
}

#[test]
fn consume_int_failures() {
    let mut walker = JsonWalker::new("");
    assert_eq!(walker.consume_int(true, -10, 10), Err(DecodeError::UnexpectedEnd));

    let mut walker = JsonWalker::new("x");
    assert_eq!(walker.consume_int(true, -10, 10), Err(DecodeError::Malformed));

    let mut walker = JsonWalker::new("-");
    assert_eq!(walker.consume_int(true, -10, 10), Err(DecodeError::Malformed));

    let mut walker = JsonWalker::new("1-2");
    assert_eq!(walker.consume_int(true, -10, 10), Err(DecodeError::Malformed));

    let mut walker = JsonWalker::new("-5");
    assert_eq!(walker.consume_int(false, 0, 10), Err(DecodeError::Malformed));

    let mut walker = JsonWalker::new("11");
    assert_eq!(walker.consume_int(true, -10, 10), Err(DecodeError::OutOfRange));

    let mut walker = JsonWalker::new("99999999999999999999999999999999999999999999");
    assert_eq!(
        walker.consume_int(true, i64::MIN as i128, i64::MAX as i128),
        Err(DecodeError::OutOfRange)
    );
}

#[test]
fn consume_i32_and_u32() {
    let mut walker = JsonWalker::new("-2147483648]");
    assert_eq!(walker.consume_i32(), Ok(i32::MIN));
    let mut walker = JsonWalker::new("2147483648");
    assert_eq!(walker.consume_i32(), Err(DecodeError::OutOfRange));

    let mut walker = JsonWalker::new("4294967295,");
    assert_eq!(walker.consume_u32(), Ok(u32::MAX));
    let mut walker = JsonWalker::new("4294967296");
    assert_eq!(walker.consume_u32(), Err(DecodeError::OutOfRange));
    // a minus sign is no part of an unsigned token
    let mut walker = JsonWalker::new("-1");
    assert_eq!(walker.consume_u32(), Err(DecodeError::Malformed));
    assert_eq!(walker.pos, 0);
}

#[test]
fn consume_float_reads_the_decimal_text() {
    let mut walker = JsonWalker::new("123.45,");
    assert_eq!(walker.consume_float(), Ok("123.45".to_string()));
    assert_eq!(rest(&walker), ",");

    let mut walker = JsonWalker::new("-.5");
    assert_eq!(walker.consume_float(), Ok("-.5".to_string()));

    let mut walker = JsonWalker::new("384}");
    assert_eq!(walker.consume_float(), Ok("384".to_string()));

    for bad in ["1.2.3", ".", "+", "-.", "1-2", "x"] {
        let mut walker = JsonWalker::new(bad);
        assert_eq!(walker.consume_float(), Err(DecodeError::Malformed));
    }
    let mut walker = JsonWalker::new("");
    assert_eq!(walker.consume_float(), Err(DecodeError::UnexpectedEnd));
}

#[test]
fn consume_field_reads_name_and_colon() {
    let mut walker = JsonWalker::new(r#""name":1"#);
    assert_eq!(walker.consume_field("name"), Ok(()));
    assert_eq!(rest(&walker), "1");

    let mut walker = JsonWalker::new(r#""name":1"#);
    assert_eq!(walker.consume_field("other"), Err(DecodeError::Malformed));

    let mut walker = JsonWalker::new(r#""name"1"#);
    assert_eq!(walker.consume_field("name"), Err(DecodeError::Malformed));

    let mut walker = JsonWalker::new(r#""name"#);
    assert_eq!(walker.consume_field("name"), Err(DecodeError::UnexpectedEnd));

    let mut walker = JsonWalker::new("name");
    assert_eq!(walker.consume_field("name"), Err(DecodeError::Malformed));
}

#[test]
fn consume_string_undoes_escapes() {
    let mut walker = JsonWalker::new(r#""Another \"Test\" String with \\backslashes\\","#);
    assert_eq!(
        walker.consume_string(),
        Ok("Another \"Test\" String with \\backslashes\\".to_string())
    );
    assert_eq!(rest(&walker), ",");

    let mut walker = JsonWalker::new(r#""""#);
    assert_eq!(walker.consume_string(), Ok(String::new()));

    let mut walker = JsonWalker::new(r#""\n""#);
    assert_eq!(walker.consume_string(), Ok("n".to_string()));

    let mut walker = JsonWalker::new(r#""grüße""#);
    assert_eq!(walker.consume_string(), Ok("grüße".to_string()));
}

#[test]
fn consume_string_failures() {
    let mut walker = JsonWalker::new(r#""open"#);
    assert_eq!(walker.consume_string(), Err(DecodeError::UnexpectedEnd));
    let mut walker = JsonWalker::new(r#""open\"#);
    assert_eq!(walker.consume_string(), Err(DecodeError::UnexpectedEnd));
    let mut walker = JsonWalker::new("x");
    assert_eq!(walker.consume_string(), Err(DecodeError::Malformed));
    let mut walker = JsonWalker::new("");
    assert_eq!(walker.consume_string(), Err(DecodeError::UnexpectedEnd));
}

#[test]
fn consume_bool_reads_up_to_a_delimiter() {
    let mut walker = JsonWalker::new("true,");
    assert_eq!(walker.consume_bool(), Ok(true));
    assert_eq!(rest(&walker), ",");
    let mut walker = JsonWalker::new("false}");
    assert_eq!(walker.consume_bool(), Ok(false));
    let mut walker = JsonWalker::new("true");
    assert_eq!(walker.consume_bool(), Ok(true));
    let mut walker = JsonWalker::new("True]");
    assert_eq!(walker.consume_bool(), Err(DecodeError::Malformed));
    let mut walker = JsonWalker::new("]");
    assert_eq!(walker.consume_bool(), Err(DecodeError::Malformed));
    let mut walker = JsonWalker::new("");
    assert_eq!(walker.consume_bool(), Err(DecodeError::UnexpectedEnd));
}

#[test]
fn consume_run_leaves_the_token_in_the_buffer() {
    let mut walker = JsonWalker::new("12ab");
    walker.consume_run(CharClass::Int);
    assert_eq!(walker.buffer, vec!['1', '2']);
    assert_eq!(walker.pos, 2);
    walker.consume_run(CharClass::Int);
    assert!(walker.buffer.is_empty());
    assert_eq!(walker.pos, 2);
    walker.consume_run(CharClass::Name);
    assert_eq!(walker.buffer, vec!['a', 'b']);
    assert_eq!(walker.pos, 4);
}
