use hack86::json::{parse_bytes, parse_str, Dict, Error, Json};

#[test]
fn literals() {
    assert_eq!(parse_str("null"), Ok(Json::Null));
    assert_eq!(parse_str("true"), Ok(Json::Bool(true)));
    assert_eq!(parse_str("false"), Ok(Json::Bool(false)));
    assert_eq!(parse_str("  null  "), Ok(Json::Null));
}

#[test]
fn misspelled_literals() {
    assert_eq!(parse_str("nul"), Err((Error::NullExpected, 0)));
    assert_eq!(parse_str("truthy"), Err((Error::TrueExpected, 0)));
    assert_eq!(parse_str("fals"), Err((Error::FalseExpected, 0)));
    assert_eq!(parse_str("false0"), Err((Error::Garbage, 5)));
}

#[test]
fn plain_number() {
    assert_eq!(
        parse_str("42"),
        Ok(Json::Number { integer: 42, fraction: 0, precision: 0, exponent: 0 })
    );
}

#[test]
fn negative_number_with_fraction() {
    assert_eq!(
        parse_str("-3.14"),
        Ok(Json::Number { integer: -3, fraction: 14, precision: 2, exponent: 0 })
    );
}

#[test]
fn number_with_exponent() {
    assert_eq!(
        parse_str("1.5e3"),
        Ok(Json::Number { integer: 1, fraction: 5, precision: 1, exponent: 3 })
    );
}

#[test]
fn fraction_keeps_leading_zeroes_via_precision() {
    assert_eq!(
        parse_str("2.0075"),
        Ok(Json::Number { integer: 2, fraction: 75, precision: 4, exponent: 0 })
    );
}

#[test]
fn trailing_point_reads_as_empty_fraction() {
    assert_eq!(
        parse_str("7."),
        Ok(Json::Number { integer: 7, fraction: 0, precision: 0, exponent: 0 })
    );
}

#[test]
fn exponent_requires_digits() {
    assert_eq!(parse_str("1e"), Err((Error::ExponentRequired, 2)));
    assert_eq!(parse_str("1e-3"), Err((Error::ExponentRequired, 2)));
}

#[test]
fn oversized_number_is_rejected() {
    assert_eq!(
        parse_str("99999999999999999999"),
        Err((Error::NumberOutOfRange, 0))
    );
    assert_eq!(
        parse_str("9223372036854775807"),
        Ok(Json::Number { integer: i64::MAX, fraction: 0, precision: 0, exponent: 0 })
    );
}

#[test]
fn simple_string() {
    assert_eq!(parse_str("\"hello\""), Ok(Json::String(String::from("hello"))));
    assert_eq!(parse_str("\"\""), Ok(Json::String(String::new())));
}

#[test]
fn string_escapes() {
    assert_eq!(
        parse_str("\"a\\n\\t\\\\\\\"b\\/\""),
        Ok(Json::String(String::from("a\n\t\\\"b/")))
    );
    assert_eq!(
        parse_str("\"\\b\\f\""),
        Ok(Json::String(String::from("\u{0008}\u{000C}")))
    );
}

#[test]
fn unicode_escape_reads_as_question_mark() {
    assert_eq!(parse_str("\"\\u0041\""), Ok(Json::String(String::from("?"))));
    assert_eq!(parse_str("\"\\u00G1\""), Err((Error::HexCharExpected, 5)));
}

#[test]
fn unrecognised_escape() {
    assert_eq!(
        parse_str("\"\\x\""),
        Err((Error::UnrecognisedEscapeSequence(0x78), 2))
    );
}

#[test]
fn unterminated_string() {
    assert_eq!(parse_str("\"abc"), Err((Error::OutOfBounds, 4)));
}

#[test]
fn invalid_utf8_content() {
    assert_eq!(parse_bytes(&[0x22, 0xFF, 0x22]), Err((Error::UtfDecodingError, 2)));
}

#[test]
fn multibyte_utf8_content_survives() {
    let text = "\"caf\u{00E9}\"";
    assert_eq!(parse_str(text), Ok(Json::String(String::from("caf\u{00E9}"))));
}

#[test]
fn arrays() {
    assert_eq!(parse_str("[]"), Ok(Json::Array(vec![])));
    assert_eq!(parse_str("[ ]"), Ok(Json::Array(vec![])));
    assert_eq!(
        parse_str("[1, true, \"x\"]"),
        Ok(Json::Array(vec![
            Json::Number { integer: 1, fraction: 0, precision: 0, exponent: 0 },
            Json::Bool(true),
            Json::String(String::from("x")),
        ]))
    );
}

#[test]
fn nested_arrays() {
    assert_eq!(
        parse_str("[[null], []]"),
        Ok(Json::Array(vec![Json::Array(vec![Json::Null]), Json::Array(vec![])]))
    );
}

#[test]
fn trailing_comma_is_rejected() {
    assert_eq!(parse_str("[1,]"), Err((Error::InvalidValue, 3)));
}

#[test]
fn missing_bracket() {
    assert_eq!(
        parse_str("[1"),
        Err((Error::OutOfBounds, 2))
    );
}

#[test]
fn objects_keep_insertion_order() {
    let parsed = parse_str("{\"b\": 1, \"a\": 2}").unwrap();
    match parsed {
        Json::Object(dict) => {
            assert_eq!(dict.entries.len(), 2);
            assert_eq!(dict.entries[0].0, "b");
            assert_eq!(
                dict.entries[0].1,
                Json::Number { integer: 1, fraction: 0, precision: 0, exponent: 0 }
            );
            assert_eq!(dict.entries[1].0, "a");
        }
        other => panic!("unexpected value {:?}", other),
    }
}

#[test]
fn duplicate_keys_overwrite_in_place() {
    let parsed = parse_str("{\"a\": 1, \"a\": 2}").unwrap();
    match parsed {
        Json::Object(dict) => {
            assert_eq!(dict.entries.len(), 1);
            assert_eq!(dict.entries[0].0, "a");
            assert_eq!(
                dict.entries[0].1,
                Json::Number { integer: 2, fraction: 0, precision: 0, exponent: 0 }
            );
        }
        other => panic!("unexpected value {:?}", other),
    }
}

#[test]
fn empty_object() {
    let parsed = parse_str("{}").unwrap();
    match parsed {
        Json::Object(dict) => assert!(dict.entries.is_empty()),
        other => panic!("unexpected value {:?}", other),
    }
}

#[test]
fn object_missing_colon() {
    assert_eq!(
        parse_str("{\"a\" 1}"),
        Err((Error::CharMismatch { expected: 0x3A, actual: 0x31 }, 5))
    );
}

#[test]
fn nested_document() {
    let parsed = parse_str(" { \"k\" : [ true , null ] , \"n\" : -2.5 } ").unwrap();
    match parsed {
        Json::Object(dict) => {
            assert_eq!(dict.entries.len(), 2);
            assert_eq!(dict.entries[0].0, "k");
            assert_eq!(
                dict.entries[0].1,
                Json::Array(vec![Json::Bool(true), Json::Null])
            );
            assert_eq!(
                dict.entries[1].1,
                Json::Number { integer: -2, fraction: 5, precision: 1, exponent: 0 }
            );
        }
        other => panic!("unexpected value {:?}", other),
    }
}

#[test]
fn empty_input() {
    assert_eq!(parse_str(""), Err((Error::EmptyString, 0)));
    assert_eq!(parse_str("   "), Err((Error::EmptyString, 0)));
}

#[test]
fn trailing_garbage() {
    assert_eq!(parse_str("1 x"), Err((Error::Garbage, 2)));
}

#[test]
fn dict_insert_replaces_and_appends() {
    let mut dict = Dict::new();
    dict.insert(String::from("x"), Json::Null);
    dict.insert(String::from("y"), Json::Bool(true));
    dict.insert(String::from("x"), Json::Bool(false));
    assert_eq!(dict.entries.len(), 2);
    assert_eq!(dict.entries[0].0, "x");
    assert_eq!(dict.entries[0].1, Json::Bool(false));
    assert_eq!(dict.entries[1].0, "y");
}
