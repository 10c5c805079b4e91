use slang_reflector::{unescape, UnescapeError};

#[test]
fn plain_literal_loses_its_quotes() {
    assert_eq!(unescape("\"hello\"").unwrap(), "hello");
    assert_eq!(unescape("\"\"").unwrap(), "");
}

#[test]
fn simple_escapes() {
    assert_eq!(unescape(r#""a\"b\n\t\r\\c""#).unwrap(), "a\"b\n\t\r\\c");
}

#[test]
fn unicode_escapes() {
    assert_eq!(unescape(r#""\u{41}\u{e9}""#).unwrap(), "A\u{e9}");
    assert_eq!(unescape(r#""\u{+1F600}""#).unwrap(), "\u{1F600}");
}

#[test]
fn missing_quotes() {
    assert_eq!(unescape("hello").unwrap_err(), UnescapeError::MissingQuotes);
    assert_eq!(unescape("\"").unwrap_err(), UnescapeError::MissingQuotes);
    assert_eq!(unescape("\"abc").unwrap_err(), UnescapeError::MissingQuotes);
}

#[test]
fn bad_unicode_escape() {
    assert_eq!(unescape(r#""\u41""#).unwrap_err(), UnescapeError::BadUnicodeEscape);
}

#[test]
fn invalid_hex() {
    assert_eq!(unescape(r#""\u{zz}""#).unwrap_err(), UnescapeError::InvalidHex);
    assert_eq!(unescape(r#""\u{}""#).unwrap_err(), UnescapeError::InvalidHex);
    assert_eq!(unescape(r#""\u{100000000}""#).unwrap_err(), UnescapeError::InvalidHex);
}

#[test]
fn invalid_codepoint() {
    assert_eq!(unescape(r#""\u{D800}""#).unwrap_err(), UnescapeError::InvalidCodepoint);
}

#[test]
fn unsupported_escape() {
    assert_eq!(unescape(r#""\x""#).unwrap_err(), UnescapeError::UnsupportedEscape('x'));
}

#[test]
fn escaped_final_quote_is_kept() {
    assert_eq!(unescape(r#""abc\""#).unwrap(), "abc\"");
}
