use pokecache::docs::{AutoTagAddon, JwtGrantsAddon};
use pokecache::jwt::{parse_bearer_header, JwtDecodeErrors};

#[test]
fn bearer_header_yields_token() {
    let token = parse_bearer_header(b"Bearer aaa.bbb.ccc").unwrap();
    assert_eq!(token, b"aaa.bbb.ccc".to_vec());
}

#[test]
fn bearer_header_with_empty_token_yields_empty() {
    let token = parse_bearer_header(b"Bearer ").unwrap();
    assert!(token.is_empty());
}

#[test]
fn header_with_invisible_byte_is_invalid_ascii() {
    let r = parse_bearer_header(b"Bearer a\x07b");
    assert!(matches!(r, Err(JwtDecodeErrors::InvalidAuthHeader)));
    let r2 = parse_bearer_header("Bearer ä".as_bytes());
    assert!(matches!(r2, Err(JwtDecodeErrors::InvalidAuthHeader)));
}

#[test]
fn header_without_bearer_scheme_is_invalid() {
    assert!(matches!(parse_bearer_header(b"Token abc"), Err(JwtDecodeErrors::InvalidJWTHeader)));
    assert!(matches!(parse_bearer_header(b"Bear"), Err(JwtDecodeErrors::InvalidJWTHeader)));
    assert!(matches!(parse_bearer_header(b"bearer abc"), Err(JwtDecodeErrors::InvalidJWTHeader)));
}

#[test]
fn decode_error_messages() {
    assert_eq!(
        JwtDecodeErrors::InvalidAuthHeader.to_error_string(),
        "Invalid authorization header - header contains invalid ASCII characters"
    );
    assert_eq!(
        JwtDecodeErrors::InvalidJWTHeader.to_error_string(),
        "Invalid authorization header - header need to have this format 'Bearer HEADER.PAYLOAD.SIGNATURE' where all three parts need to be base64 encoded and separated by a dot"
    );
    assert_eq!(
        JwtDecodeErrors::InvalidJWTToken("bad signature".to_string()).to_error_string(),
        "Invalid JWT token - an error occurred when decoding token: bad signature"
    );
}

#[test]
fn retag_drops_code_path_tags_and_appends_catch_all() {
    let tags = vec![
        "crate::paths::pokemon".to_string(),
        "pets".to_string(),
        "crate::other".to_string(),
        "tools".to_string(),
    ];
    let out = AutoTagAddon::retag(tags);
    assert_eq!(out, vec!["pets".to_string(), "tools".to_string(), "All routes".to_string()]);
}

#[test]
fn retag_of_nothing_is_the_catch_all_alone() {
    assert_eq!(AutoTagAddon::retag(vec![]), vec!["All routes".to_string()]);
}

#[test]
fn merge_description_cases() {
    assert_eq!(JwtGrantsAddon::merge_description(None, "add"), "add");
    assert_eq!(JwtGrantsAddon::merge_description(Some(String::new()), "add"), "add");
    assert_eq!(
        JwtGrantsAddon::merge_description(Some("existing".to_string()), "add"),
        "existing<br><br>add"
    );
}

#[test]
fn merge_response_description_joins_with_or() {
    assert_eq!(JwtGrantsAddon::merge_response_description(None, "Missing header"), "Missing header");
    assert_eq!(
        JwtGrantsAddon::merge_response_description(
            Some("Missing header".to_string()),
            "Insufficient permissions"
        ),
        "Missing header<br>or<br>Insufficient permissions"
    );
}

#[test]
fn required_grants_text_lists_each_requirement() {
    let groups =
        vec![vec![], vec!["svc::a".to_string()], vec!["svc::b".to_string(), "svc::c".to_string()]];
    let text = JwtGrantsAddon::required_grants_text(&groups);
    assert_eq!(text, "<pre>Required grants:\n\tNone\n\tsvc::a\n\tsvc::b, svc::c</pre>");
}

#[test]
fn required_grants_text_of_no_requirements() {
    let text = JwtGrantsAddon::required_grants_text(&vec![]);
    assert_eq!(text, "<pre>Required grants:</pre>");
}
