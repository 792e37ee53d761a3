use rtranslate::{
    check_exit, decode_body, fetch_result, parse_translation, request_url,
    translation_from_body, url_encode, TranslateError,
};

#[test]
fn test_url_encode_basic() {
    assert_eq!(url_encode("Hello world!"), "Hello%20world%21");
}

#[test]
fn test_parse_translation_valid() {
    let json = r#"[[["Xin chào","Hello",null,null,3,null,null,[[]]]],null,"en"]"#;
    let result = parse_translation(json).unwrap();
    assert_eq!(result, "Xin chào");
}

#[test]
fn test_parse_translation_invalid() {
    let json = "INVALID";
    assert!(parse_translation(json).is_err());
}

#[test]
fn url_encode_keeps_unreserved_bytes() {
    assert_eq!(url_encode("AZaz09-_.~"), "AZaz09-_.~");
    assert_eq!(url_encode(""), "");
}

#[test]
fn url_encode_escapes_each_utf8_byte() {
    assert_eq!(url_encode("é"), "%C3%A9");
    assert_eq!(url_encode("a+b/c"), "a%2Bb%2Fc");
    assert_eq!(url_encode("\n"), "%0A");
}

#[test]
fn request_url_joins_languages_and_encoded_text() {
    assert_eq!(
        request_url("Good morning", "auto", "vi"),
        "https://translate.googleapis.com/translate_a/single?client=gtx&sl=auto&tl=vi&dt=t&q=Good%20morning"
    );
}

#[test]
fn parse_translation_blank_text_is_empty_response() {
    let r = parse_translation("[[[\"  \",\"Hello\"]]]");
    assert!(matches!(r, Err(TranslateError::EmptyResponse)));
    let r = parse_translation("[[[\"\",\"Hello\"]]]");
    assert!(matches!(r, Err(TranslateError::EmptyResponse)));
}

#[test]
fn parse_translation_takes_first_segment() {
    let r = parse_translation("x[[[\"one\"]],[[[\"two\"]]]");
    assert_eq!(r.unwrap(), "one");
}

#[test]
fn parse_translation_without_closing_quote_quotes_body() {
    match parse_translation("[[[\"open") {
        Err(TranslateError::ParseError(m)) => {
            assert_eq!(m, "Unexpected response format: [[[\"open")
        }
        other => panic!("unexpected {:?}", other),
    }
}

fn parse_error_message(body: &str) -> String {
    match parse_translation(body) {
        Err(TranslateError::ParseError(m)) => m,
        other => panic!("unexpected {:?}", other),
    }
}

#[test]
fn parse_translation_error_excerpt_counts_bytes() {
    let body = format!("é{}", "x".repeat(119));
    assert_eq!(
        parse_error_message(&body),
        format!("Unexpected response format: é{}", "x".repeat(118))
    );
    let body = format!("{}é", "x".repeat(119));
    assert_eq!(
        parse_error_message(&body),
        format!("Unexpected response format: {}", "x".repeat(119))
    );
    let body = "é".repeat(61);
    assert_eq!(
        parse_error_message(&body),
        format!("Unexpected response format: {}", "é".repeat(60))
    );
    let body = format!("{}€", "x".repeat(117));
    assert_eq!(
        parse_error_message(&body),
        format!("Unexpected response format: {}€", "x".repeat(117))
    );
}

#[test]
fn parse_translation_error_quotes_at_most_120_bytes() {
    let body = "x".repeat(200);
    match parse_translation(&body) {
        Err(TranslateError::ParseError(m)) => {
            assert_eq!(m, format!("Unexpected response format: {}", "x".repeat(120)))
        }
        other => panic!("unexpected {:?}", other),
    }
}

#[test]
fn body_blank_is_empty_response() {
    assert!(matches!(translation_from_body(""), Err(TranslateError::EmptyResponse)));
    assert!(matches!(translation_from_body(" \n\t"), Err(TranslateError::EmptyResponse)));
}

#[test]
fn body_rate_limit_signs() {
    assert!(matches!(
        translation_from_body("<html><body>blocked</body></html>"),
        Err(TranslateError::RateLimited)
    ));
    assert!(matches!(translation_from_body("Error 503"), Err(TranslateError::RateLimited)));
    assert!(matches!(translation_from_body("[]"), Err(TranslateError::RateLimited)));
}

#[test]
fn body_with_translation_is_parsed() {
    let r = translation_from_body("[[[\"Bonjour\",\"Hello\",null]],null,\"en\"]");
    assert_eq!(r.unwrap(), "Bonjour");
    assert!(matches!(translation_from_body("[ ]"), Err(TranslateError::ParseError(_))));
}

#[test]
fn check_exit_reports_code() {
    assert!(check_exit(true, Some(0)).is_ok());
    match check_exit(false, Some(6)) {
        Err(TranslateError::CommandFailed(m)) => assert_eq!(m, "curl exited with: Some(6)"),
        other => panic!("unexpected {:?}", other),
    }
    match check_exit(false, None) {
        Err(TranslateError::CommandFailed(m)) => assert_eq!(m, "curl exited with: None"),
        other => panic!("unexpected {:?}", other),
    }
    match check_exit(false, Some(-2147483648)) {
        Err(TranslateError::CommandFailed(m)) => {
            assert_eq!(m, "curl exited with: Some(-2147483648)")
        }
        other => panic!("unexpected {:?}", other),
    }
    match check_exit(false, Some(127)) {
        Err(TranslateError::CommandFailed(m)) => assert_eq!(m, "curl exited with: Some(127)"),
        other => panic!("unexpected {:?}", other),
    }
}

#[test]
fn decode_body_checks_utf8() {
    assert_eq!(decode_body(vec![0x68, 0xc3, 0xa9]).unwrap(), "hé");
    assert!(matches!(decode_body(vec![0xff, 0x41]), Err(TranslateError::Utf8Error(_))));
}

#[test]
fn fetch_result_combines_steps() {
    let ok = fetch_result(true, Some(0), b"[[[\"Hola\",\"Hello\"]]]".to_vec());
    assert_eq!(ok.unwrap(), "Hola");
    assert!(matches!(
        fetch_result(false, Some(7), b"[[[\"Hola\"".to_vec()),
        Err(TranslateError::CommandFailed(_))
    ));
    assert!(matches!(fetch_result(true, Some(0), vec![0xc3]), Err(TranslateError::Utf8Error(_))));
    assert!(matches!(fetch_result(true, Some(0), b"   ".to_vec()), Err(TranslateError::EmptyResponse)));
}

#[test]
fn error_messages() {
    assert_eq!(
        TranslateError::CommandFailed("boom".to_string()).message(),
        "Command failed: boom"
    );
    assert_eq!(TranslateError::Utf8Error("bad".to_string()).message(), "UTF-8 decode failed: bad");
    assert_eq!(TranslateError::ParseError("x".to_string()).message(), "Parse error: x");
    assert_eq!(TranslateError::EmptyResponse.message(), "Empty response from server");
    assert_eq!(TranslateError::RateLimited.message(), "Rate limited by Google Translate");
}
