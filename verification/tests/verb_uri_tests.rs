use http_parser::parser::{HttpParseError, Verb};
use http_parser::uri::Uri;

#[test]
fn verbs_parse_in_any_casing() {
    assert_eq!(Verb::from_str("GET").unwrap(), Verb::Get);
    assert_eq!(Verb::from_str("get").unwrap(), Verb::Get);
    assert_eq!(Verb::from_str("GeT").unwrap(), Verb::Get);
    assert_eq!(Verb::from_str("pOsT").unwrap(), Verb::Post);
    assert_eq!(Verb::from_str("Put").unwrap(), Verb::Put);
    assert_eq!(Verb::from_str("pAtCh").unwrap(), Verb::Patch);
    assert_eq!(Verb::from_str("DELETE").unwrap(), Verb::Delete);
    assert_eq!(Verb::from_str(" delete ").unwrap(), Verb::Delete);
}

#[test]
fn unrecognized_verb_tokens_fail() {
    assert_eq!(
        Verb::from_str("FETCH").unwrap_err(),
        HttpParseError::InvalidHttpMethod
    );
    assert_eq!(
        Verb::from_str("").unwrap_err(),
        HttpParseError::InvalidHttpMethod
    );
    assert_eq!(
        Verb::from_str("GETT").unwrap_err(),
        HttpParseError::InvalidHttpMethod
    );
}

#[test]
fn verb_display_strings() {
    assert_eq!(Verb::Get.to_string(), String::from("GET"));
    assert_eq!(Verb::Post.to_string(), String::from("POST"));
    assert_eq!(Verb::Put.to_string(), String::from("PUT"));
    assert_eq!(Verb::Patch.to_string(), String::from("PATCH"));
    assert_eq!(Verb::Delete.to_string(), String::from("DELETE"));
}

#[test]
fn verb_round_trip() {
    let verbs = vec![Verb::Get, Verb::Post, Verb::Put, Verb::Patch, Verb::Delete];
    for v in verbs {
        let shown = v.to_string();
        assert_eq!(Verb::from_str(shown.as_str()).unwrap(), v);
    }
}

#[test]
fn uri_without_query() {
    let u = Uri::from_str("/api/users").unwrap();
    assert_eq!(u.path, String::from("/api/users"));
    assert_eq!(u.query, None);
}

#[test]
fn uri_is_trimmed() {
    let u = Uri::from_str("  /api/users\t").unwrap();
    assert_eq!(u.path, String::from("/api/users"));
    assert_eq!(u.query, None);
}

#[test]
fn uri_with_query() {
    let u = Uri::from_str("/a?x=1").unwrap();
    assert_eq!(u.path, String::from("/a"));
    assert_eq!(u.query, Some(String::from("x=1")));
}

#[test]
fn uri_with_empty_query_fails() {
    assert!(Uri::from_str("/a?").is_err());
}

#[test]
fn uri_with_two_question_marks_fails() {
    assert!(Uri::from_str("/a?b?c").is_err());
}

#[test]
fn empty_uri_token_is_an_empty_path() {
    let u = Uri::from_str("").unwrap();
    assert_eq!(u.path, String::from(""));
    assert_eq!(u.query, None);
}
