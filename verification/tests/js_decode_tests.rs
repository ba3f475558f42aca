use hq::js_decode::{decode_js_string, fix_mojibake, JsDecodeError};

#[test]
fn test_hex_escapes() {
    let input = r#"[\x22Salary\x22:\x2250000$\x22]"#;
    let expected = r#"["Salary":"50000$"]"#;
    assert_eq!(decode_js_string(input).unwrap(), expected);
}

#[test]
fn test_unicode_escapes() {
    let input = r#"Title\u2013Profil"#;
    let expected = "Title\u{2013}Profil";
    assert_eq!(decode_js_string(input).unwrap(), expected);
}

#[test]
fn test_double_unicode_escapes() {
    let input = r#"Title\\u2013Profil"#;
    let expected = "Title\u{2013}Profil";
    assert_eq!(decode_js_string(input).unwrap(), expected);
}

#[test]
fn test_invalid_escapes() {
    let input = r#"50000$\-80000$"#;
    let expected = "50000$-80000$";
    assert_eq!(decode_js_string(input).unwrap(), expected);
}

#[test]
fn test_combined() {
    let input = r#"[\x22Salary\x22:\x2250000$ \- 80000$\x22,\x22Langue\x22:[\x22Français\x22]]"#;
    let expected = "[\"Salary\":\"50000$ - 80000$\",\"Langue\":[\"Fran\u{e7}ais\"]]";
    assert_eq!(decode_js_string(input).unwrap(), expected);
}

#[test]
fn test_standard_escapes() {
    assert_eq!(decode_js_string(r#"a\nb\tc\rd"#).unwrap(), "a\nb\tc\rd");
    assert_eq!(decode_js_string(r#"\"quoted\" and \'single\'"#).unwrap(), "\"quoted\" and 'single'");
    assert_eq!(decode_js_string(r#"\b\f\v\0"#).unwrap(), "\u{8}\u{c}\u{b}\0");
    assert_eq!(decode_js_string(r#"path\/to"#).unwrap(), "path/to");
}

#[test]
fn test_trailing_backslash() {
    assert_eq!(decode_js_string("abc\\").unwrap(), "abc\\");
    assert_eq!(decode_js_string("a\\\\b").unwrap(), "a\\b");
}

#[test]
fn test_invalid_hex_escape_error() {
    assert_eq!(decode_js_string(r#"\xZZ"#).unwrap_err(), JsDecodeError::InvalidHexEscape);
}

#[test]
fn test_incomplete_hex_escape_error() {
    assert_eq!(decode_js_string(r#"\x1"#).unwrap_err(), JsDecodeError::IncompleteHexEscape);
    assert_eq!(decode_js_string(r#"\x"#).unwrap_err(), JsDecodeError::IncompleteHexEscape);
}

#[test]
fn test_invalid_unicode_escape_error() {
    assert_eq!(decode_js_string(r#"\uZZZZ"#).unwrap_err(), JsDecodeError::InvalidUnicodeEscape);
    assert_eq!(decode_js_string(r#"\\uZZZZ"#).unwrap_err(), JsDecodeError::InvalidUnicodeEscape);
}

#[test]
fn test_incomplete_unicode_escape_error() {
    assert_eq!(decode_js_string(r#"\u20"#).unwrap_err(), JsDecodeError::IncompleteUnicodeEscape);
    assert_eq!(decode_js_string(r#"\\u20"#).unwrap_err(), JsDecodeError::IncompleteUnicodeEscape);
}

#[test]
fn test_invalid_code_point_error() {
    assert_eq!(decode_js_string(r#"\uD800"#).unwrap_err(), JsDecodeError::InvalidCodePoint);
}

#[test]
fn test_hex_escape_matches_std_integer_parsing() {
    // u8::from_str_radix accepts a leading plus sign, so the decoder does too.
    assert_eq!(decode_js_string(r#"\x+5"#).unwrap(), "\u{5}");
    assert_eq!(decode_js_string(r#"\x-5"#).unwrap_err(), JsDecodeError::InvalidHexEscape);
}

#[test]
fn test_fix_mojibake_repairs_double_read() {
    // "\u{e9}" read byte-wise is 0xC3 0xA9, the UTF-8 encoding of e-acute.
    assert_eq!(fix_mojibake("\u{c3}\u{a9}"), "\u{e9}");
}

#[test]
fn test_fix_mojibake_keeps_invalid_input() {
    // A lone 0xE9 byte is not valid UTF-8, so the input stays as it is.
    assert_eq!(fix_mojibake("caf\u{e9}"), "caf\u{e9}");
}

#[test]
fn test_fix_mojibake_is_identity_on_ascii() {
    assert_eq!(fix_mojibake("plain ascii, nothing to do"), "plain ascii, nothing to do");
    assert_eq!(fix_mojibake(""), "");
}

#[test]
fn test_fix_mojibake_drops_wide_characters() {
    // Characters above 255 contribute no byte.
    assert_eq!(fix_mojibake("a\u{2013}b"), "ab");
}
