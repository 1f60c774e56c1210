use raga::utils::{extract_digits, extract_ident, extract_whitespace, skip_whitespace, tag};

#[test]
fn extract_one_digit() {
    assert_eq!(extract_digits("1+2"), Ok(("+2", "1")))
}

#[test]
fn extract_multiple_digit() {
    assert_eq!(extract_digits("10-20"), Ok(("-20", "10")))
}

#[test]
fn do_not_extract_anything_from_empty_input() {
    assert_eq!(extract_digits(""), Err("expected digits".to_string()))
}

#[test]
fn do_not_extract_when_input_is_not_digit() {
    assert_eq!(extract_digits("abs"), Err("expected digits".to_string()))
}

#[test]
fn extract_digit_with_no_reminder() {
    assert_eq!(extract_digits("100"), Ok(("", "100")))
}

#[test]
fn extract_spaces() {
    assert_eq!(extract_whitespace("    1"), Ok(("1", "    ")))
}

#[test]
fn do_not_extract_spaces_when_input_does_not_have_space() {
    assert_eq!(extract_whitespace("1"), Err("expected a space".to_string()))
}

#[test]
fn extract_alphabetic_ident() {
    assert_eq!(extract_ident("absc break"), Ok((" break", "absc")))
}

#[test]
fn extract_alphanumeric_ident() {
    assert_eq!(extract_ident("absc1 break"), Ok((" break", "absc1")))
}

#[test]
fn extract_ident_start_with_number() {
    assert_eq!(
        extract_ident("123f"),
        Err("expected identifier".to_string())
    )
}

#[test]
fn tag_word() {
    assert_eq!(tag("let", "let a"), Ok(" a"))
}

#[test]
fn extract_ident_with_characters_beyond_ascii() {
    assert_eq!(extract_ident("caf\u{e9}1 break"), Ok((" break", "caf\u{e9}1")))
}

#[test]
fn extract_ident_stops_at_symbol_beyond_ascii() {
    assert_eq!(extract_ident("a\u{2192}b"), Ok(("\u{2192}b", "a")))
}

#[test]
fn skip_whitespace_takes_any_unicode_whitespace() {
    assert_eq!(skip_whitespace(" \t\n\u{a0}x"), ("x", " \t\n\u{a0}"))
}

#[test]
fn skip_whitespace_accepts_empty_match() {
    assert_eq!(skip_whitespace("x"), ("x", ""))
}
