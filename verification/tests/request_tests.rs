use http_parser::parser::{Header, HttpParseError, HttpRequest, Verb};
use http_parser::uri::Uri;

#[test]
fn parse_only_request_line_httprequest() {
    let requests = vec![
        HttpRequest::from_str("gEt /api/users HTtP/1.1").unwrap(),
        HttpRequest::from_str("gEt /api/gigis HTtP/1.2").unwrap(),
        HttpRequest::from_str("gEt /api/users HTtP/1.3").unwrap(),
        HttpRequest::from_str("gEt / HTtP/1.4").unwrap(),
        HttpRequest::from_str("gEt //users HTtP/1.5").unwrap(),
    ];
    assert_eq!(requests[0].verb(), Verb::Get);
    assert_eq!(requests[0].url(), Uri::from_str(" /api/users").unwrap());
    assert_eq!(requests[1].verb(), Verb::Get);
    assert_eq!(requests[1].protocol(), String::from("http/1.2"));
}

#[test]
fn request_line_and_host_header() {
    let req = HttpRequest::from_str("GET /api/users HTTP/1.1\r\nHost: localhost").unwrap();
    assert_eq!(req.verb(), Verb::Get);
    assert_eq!(req.url().path, String::from("/api/users"));
    assert_eq!(req.url().query, None);
    assert_eq!(req.protocol(), String::from("http/1.1"));
    assert_eq!(req.get_headers().len(), 1);
    assert_eq!(
        req.get_header(0),
        Some(&Header::Host(String::from("localhost")))
    );
}

#[test]
fn trailing_line_terminator_is_an_empty_header_line() {
    // The text after the last "\r\n" is a header line of its own; an empty
    // one has no colon and is rejected.
    let r = HttpRequest::from_str("GET /api/users HTTP/1.1\r\nHost: localhost\r\n");
    assert_eq!(r.unwrap_err(), HttpParseError::InvalidHeader);
}

#[test]
fn request_line_alone_has_no_headers() {
    let req = HttpRequest::from_str("PUT /p HTTP/1.0").unwrap();
    assert_eq!(req.verb(), Verb::Put);
    assert_eq!(req.get_headers().len(), 0);
    assert_eq!(req.get_header(0), None);
}

#[test]
fn post_with_query_target() {
    let req = HttpRequest::from_str("POST /a?x=1 HTTP/1.1").unwrap();
    assert_eq!(req.verb(), Verb::Post);
    assert_eq!(req.url().path, String::from("/a"));
    assert_eq!(req.url().query, Some(String::from("x=1")));
}

#[test]
fn header_count_matches_line_count() {
    let req = HttpRequest::from_str(
        "GET / HTTP/1.1\r\nX-Custom-Debug: abc\r\nAccept: text/html",
    )
    .unwrap();
    assert_eq!(req.get_headers().len(), 2);
    assert_eq!(
        req.get_header(0),
        Some(&Header::OtherHeader(
            String::from("X-Custom-Debug"),
            String::from("abc")
        ))
    );
    assert_eq!(
        req.get_header(1),
        Some(&Header::Accept(String::from("text/html")))
    );
}

#[test]
fn all_well_known_headers_classified() {
    let req = HttpRequest::from_str(
        "GET / HTTP/1.1\r\nHost: h\r\nAccept: a\r\nAuthorization: t\r\nReferer: r\r\nUser-Agent: u\r\nContent-Type: c\r\nContent-Length: 5",
    )
    .unwrap();
    let headers = req.get_headers();
    assert_eq!(headers.len(), 7);
    assert_eq!(headers[0], Header::Host(String::from("h")));
    assert_eq!(headers[1], Header::Accept(String::from("a")));
    assert_eq!(headers[2], Header::Authorization(String::from("t")));
    assert_eq!(headers[3], Header::Referer(String::from("r")));
    assert_eq!(headers[4], Header::UserAgent(String::from("u")));
    assert_eq!(headers[5], Header::ContentType(String::from("c")));
    assert_eq!(headers[6], Header::ContentLength(5));
}

#[test]
fn duplicate_headers_kept_in_order() {
    let req = HttpRequest::from_str("GET / HTTP/1.1\r\nHost: a\r\nHost: b").unwrap();
    assert_eq!(req.get_headers().len(), 2);
    assert_eq!(req.get_header(0), Some(&Header::Host(String::from("a"))));
    assert_eq!(req.get_header(1), Some(&Header::Host(String::from("b"))));
}

#[test]
fn content_length_parses_value() {
    let req = HttpRequest::from_str("GET / HTTP/1.1\r\ncontent-length: 27").unwrap();
    assert_eq!(req.get_header(0), Some(&Header::ContentLength(27)));
    let req = HttpRequest::from_str("GET / HTTP/1.1\r\nContent-Length: 0").unwrap();
    assert_eq!(req.get_header(0), Some(&Header::ContentLength(0)));
    let req = HttpRequest::from_str("GET / HTTP/1.1\r\ncontent-length:  42 ").unwrap();
    assert_eq!(req.get_header(0), Some(&Header::ContentLength(42)));
}

#[test]
fn content_length_rejects_non_numeric() {
    let r = HttpRequest::from_str("GET / HTTP/1.1\r\ncontent-length: abc");
    assert_eq!(r.unwrap_err(), HttpParseError::NonNumericContentLength);
    let r = HttpRequest::from_str("GET / HTTP/1.1\r\ncontent-length: ");
    assert_eq!(r.unwrap_err(), HttpParseError::NonNumericContentLength);
    let r = HttpRequest::from_str("GET / HTTP/1.1\r\ncontent-length: +5");
    assert_eq!(r.unwrap_err(), HttpParseError::NonNumericContentLength);
    let r = HttpRequest::from_str(
        "GET / HTTP/1.1\r\ncontent-length: 99999999999999999999999999999999",
    );
    assert_eq!(r.unwrap_err(), HttpParseError::NonNumericContentLength);
}

#[test]
fn header_value_with_colon_is_rejected() {
    let r = HttpRequest::from_str("GET / HTTP/1.1\r\nX: a:b");
    assert_eq!(r.unwrap_err(), HttpParseError::InvalidHeader);
}

#[test]
fn four_token_request_line_is_rejected() {
    let r = HttpRequest::from_str("GET /a /b HTTP/1.1");
    assert_eq!(r.unwrap_err(), HttpParseError::InvalidRequest);
}

#[test]
fn too_few_tokens_rejected() {
    assert_eq!(
        HttpRequest::from_str("").unwrap_err(),
        HttpParseError::InvalidRequest
    );
    assert_eq!(
        HttpRequest::from_str("GET /a").unwrap_err(),
        HttpParseError::InvalidRequest
    );
}

#[test]
fn unknown_verb_rejected() {
    let r = HttpRequest::from_str("FETCH / HTTP/1.1");
    assert_eq!(r.unwrap_err(), HttpParseError::InvalidHttpMethod);
}

#[test]
fn bad_target_rejected() {
    assert_eq!(
        HttpRequest::from_str("GET /a?b?c HTTP/1.1").unwrap_err(),
        HttpParseError::InvalidUri
    );
    assert_eq!(
        HttpRequest::from_str("GET /a? HTTP/1.1").unwrap_err(),
        HttpParseError::InvalidUri
    );
}

#[test]
fn request_line_accessors() {
    let req = HttpRequest::from_str("GEt / HTTp/1.0\r\nHost: localhost").unwrap();
    let line = req.get_request_line();
    assert_eq!(*line.verb(), Verb::Get);
    assert_eq!(line.protocol(), "http/1.0");
    assert_eq!(*line.url(), Uri::from_str("/").unwrap());
    assert_eq!(req.get_headers().len(), 1);
}

#[test]
fn assembling_a_request_by_hand() {
    let parsed = HttpRequest::from_str("GET /x HTTP/1.1").unwrap();
    let line = parsed.get_request_line().clone();
    let req = HttpRequest::new(line, vec![Header::Host(String::from("h"))]);
    assert_eq!(req.get_headers().len(), 1);
    assert_eq!(req.get_header(0), Some(&Header::Host(String::from("h"))));
    assert_eq!(*req.get_request_line().verb(), Verb::Get);
    assert_eq!(req.get_request_line().protocol(), "http/1.1");
}

#[test]
fn error_messages() {
    assert_eq!(HttpParseError::InvalidRequest.message(), "Invalid request");
    assert_eq!(HttpParseError::InvalidUri.message(), "Invalid URL");
    assert_eq!(
        HttpParseError::NonNumericContentLength.message(),
        "Non numeric content length"
    );
}
