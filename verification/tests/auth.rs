use axum::http::{HeaderMap, HeaderValue};
use sharex_upload::auth::{authorize, check_auth, decode_header, AuthError, AUTH_HEADER};
use sharex_upload::response::Status;
use sharex_upload::tokens::get_tokens;

fn headers_with(name: &'static str, value: &'static str) -> HeaderMap {
    let mut headers = HeaderMap::new();
    headers.insert(name, HeaderValue::from_static(value));
    headers
}

#[test]
fn auth_header_is_api_key() {
    assert_eq!(AUTH_HEADER, "api_key");
}

#[test]
fn check_auth_admits_every_configured_token() {
    let tokens = get_tokens("abc123,second,third token");
    assert_eq!(check_auth(&headers_with("api_key", "abc123"), &tokens), Ok(()));
    assert_eq!(check_auth(&headers_with("api_key", "second"), &tokens), Ok(()));
    assert_eq!(check_auth(&headers_with("api_key", "third token"), &tokens), Ok(()));
}

#[test]
fn check_auth_refuses_an_unknown_token() {
    let tokens = get_tokens("abc123");
    let verdict = check_auth(&headers_with("api_key", "wrong-token"), &tokens);
    assert_eq!(verdict, Err(AuthError::UnknownToken));
    assert_eq!(check_auth(&headers_with("api_key", "ABC123"), &tokens), Err(AuthError::UnknownToken));
    assert_eq!(check_auth(&headers_with("api_key", "abc123 "), &tokens), Err(AuthError::UnknownToken));
    assert_eq!(check_auth(&headers_with("api_key", "abc12"), &tokens), Err(AuthError::UnknownToken));
}

#[test]
fn check_auth_refuses_a_request_without_the_header() {
    let tokens = get_tokens("abc123");
    assert_eq!(check_auth(&HeaderMap::new(), &tokens), Err(AuthError::MissingHeader));
    let other = headers_with("authorization", "abc123");
    assert_eq!(check_auth(&other, &tokens), Err(AuthError::MissingHeader));
}

#[test]
fn check_auth_refuses_a_header_that_is_no_text() {
    let tokens = get_tokens("abc123");
    let mut headers = HeaderMap::new();
    headers.insert("api_key", HeaderValue::from_bytes(b"abc123\xfa").unwrap());
    assert_eq!(check_auth(&headers, &tokens), Err(AuthError::UndecodableHeader));
}

#[test]
fn check_auth_reads_the_first_value_of_the_header() {
    let tokens = get_tokens("abc123");
    let mut good_first = HeaderMap::new();
    good_first.append("api_key", HeaderValue::from_static("abc123"));
    good_first.append("api_key", HeaderValue::from_static("wrong-token"));
    assert_eq!(check_auth(&good_first, &tokens), Ok(()));

    let mut bad_first = HeaderMap::new();
    bad_first.append("api_key", HeaderValue::from_static("wrong-token"));
    bad_first.append("api_key", HeaderValue::from_static("abc123"));
    assert_eq!(check_auth(&bad_first, &tokens), Err(AuthError::UnknownToken));
}

#[test]
fn check_auth_with_empty_configuration_refuses_everything() {
    let tokens = get_tokens("");
    assert_eq!(check_auth(&headers_with("api_key", ""), &tokens), Err(AuthError::UnknownToken));
    assert_eq!(check_auth(&headers_with("api_key", "abc123"), &tokens), Err(AuthError::UnknownToken));
    assert_eq!(check_auth(&HeaderMap::new(), &tokens), Err(AuthError::MissingHeader));
}

#[test]
fn authorize_judges_the_raw_header_value() {
    let tokens = get_tokens("abc123,with\ttab");
    assert_eq!(authorize(Some(b"abc123".as_slice()), &tokens), Ok(()));
    assert_eq!(authorize(Some(b"with\ttab".as_slice()), &tokens), Ok(()));
    assert_eq!(authorize(Some(b"nope".as_slice()), &tokens), Err(AuthError::UnknownToken));
    assert_eq!(authorize(Some(b"".as_slice()), &tokens), Err(AuthError::UnknownToken));
    assert_eq!(authorize(Some(b"abc123\n".as_slice()), &tokens), Err(AuthError::UndecodableHeader));
    assert_eq!(authorize(Some(b"\xffabc123".as_slice()), &tokens), Err(AuthError::UndecodableHeader));
    assert_eq!(authorize(None, &tokens), Err(AuthError::MissingHeader));
}

#[test]
fn authorize_admits_the_empty_token_only_where_it_is_configured() {
    let with_empty_field = get_tokens("abc123,");
    assert_eq!(authorize(Some(b"".as_slice()), &with_empty_field), Ok(()));
    let without = get_tokens("abc123");
    assert_eq!(authorize(Some(b"".as_slice()), &without), Err(AuthError::UnknownToken));
}

#[test]
fn a_token_that_no_header_can_carry_is_never_admitted() {
    let tokens = get_tokens("pässword");
    let utf8 = "pässword".as_bytes();
    assert_eq!(authorize(Some(utf8), &tokens), Err(AuthError::UndecodableHeader));
    let latin1 = b"p\xe4ssword";
    assert_eq!(authorize(Some(latin1.as_slice()), &tokens), Err(AuthError::UndecodableHeader));
}

#[test]
fn decode_header_accepts_visible_ascii_and_tab() {
    assert_eq!(decode_header(b"abc123"), Some("abc123".to_string()));
    assert_eq!(decode_header(b""), Some(String::new()));
    assert_eq!(decode_header(b" ~\t!"), Some(" ~\t!".to_string()));
    let mut all = Vec::new();
    for b in 32u8..127u8 {
        all.push(b);
    }
    let text = decode_header(&all).unwrap();
    assert_eq!(text.len(), 95);
    assert_eq!(text.as_bytes(), all.as_slice());
}

#[test]
fn decode_header_refuses_every_other_byte() {
    for b in 0u8..=255u8 {
        let visible = (32..127).contains(&b) || b == 9;
        let decoded = decode_header(&[b'a', b, b'z']);
        assert_eq!(decoded.is_some(), visible);
    }
    assert_eq!(decode_header(&[0x7f]), None);
    assert_eq!(decode_header(&[0x1f]), None);
    assert_eq!(decode_header(&[0x80]), None);
    assert_eq!(decode_header(&[0x00]), None);
}

#[test]
fn every_refusal_is_unauthorized() {
    assert_eq!(AuthError::MissingHeader.status(), Status::Unauthorized);
    assert_eq!(AuthError::UndecodableHeader.status(), Status::Unauthorized);
    assert_eq!(AuthError::UnknownToken.status(), Status::Unauthorized);
    assert_eq!(AuthError::UnknownToken.status().code(), 401);
}

#[test]
fn only_an_undecodable_header_is_logged() {
    assert!(AuthError::UndecodableHeader.is_logged());
    assert!(!AuthError::MissingHeader.is_logged());
    assert!(!AuthError::UnknownToken.is_logged());
}

#[test]
fn decode_header_agrees_with_the_header_value() {
    for b in 0u8..=255u8 {
        let bytes = [b'k', b, b'y'];
        if let Ok(value) = HeaderValue::from_bytes(&bytes) {
            let expected = value.to_str().ok().map(|text| text.to_string());
            assert_eq!(decode_header(&bytes), expected);
            let tokens = get_tokens("k y,k\ty,kAy");
            let mut headers = HeaderMap::new();
            headers.insert("api_key", value);
            assert_eq!(check_auth(&headers, &tokens), authorize(Some(bytes.as_slice()), &tokens));
        }
    }
}

#[test]
fn check_auth_finds_the_header_whatever_its_case_on_the_wire() {
    let tokens = get_tokens("abc123");
    let mut headers = HeaderMap::new();
    let name = axum::http::header::HeaderName::from_bytes(b"API_Key").unwrap();
    headers.insert(name, HeaderValue::from_static("abc123"));
    assert_eq!(check_auth(&headers, &tokens), Ok(()));
}
