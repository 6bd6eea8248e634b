use planning_poker::http::{parse_http_response, response_complete, HttpParseError};

#[test]
fn a_response_is_complete_once_the_headers_end() {
    assert!(!response_complete("HTTP/1.1 200 OK\r\n"));
    assert!(!response_complete("HTTP/1.1 200 OK\r\nContent-Length: 2\r\n"));
    assert!(response_complete("HTTP/1.1 200 OK\r\n\r\n"));
    assert!(response_complete("HTTP/1.1 200 OK\r\nX: y\r\n\r\nbo"));
}

#[test]
fn parses_status_and_body() {
    let response = "HTTP/1.1 200 OK\r\nContent-Type: text/plain\r\n\r\nhello world";
    let (code, body) = parse_http_response(response).unwrap();
    assert_eq!(code, 200);
    assert_eq!(body, b"hello world");
}

#[test]
fn body_keeps_its_own_line_breaks() {
    let response = "HTTP/1.1 201 Created\r\nX: y\r\n\r\nline one\r\nline two";
    let (code, body) = parse_http_response(response).unwrap();
    assert_eq!(code, 201);
    assert_eq!(body, b"line one\r\nline two");
}

#[test]
fn missing_header_end_means_empty_body() {
    let (code, body) = parse_http_response("HTTP/1.1 404 Not Found\r\nX: y").unwrap();
    assert_eq!(code, 404);
    assert_eq!(body, b"");
}

#[test]
fn status_line_without_a_code_field_is_invalid() {
    assert_eq!(
        parse_http_response("garbage"),
        Err(HttpParseError::InvalidStatusLine)
    );
    assert_eq!(parse_http_response(""), Err(HttpParseError::InvalidStatusLine));
}

#[test]
fn non_numeric_code_is_invalid() {
    assert_eq!(
        parse_http_response("HTTP/1.1 abc OK\r\n\r\n"),
        Err(HttpParseError::InvalidStatusCode)
    );
}

#[test]
fn code_too_large_for_u16_is_invalid() {
    assert_eq!(
        parse_http_response("HTTP/1.1 999999 Huge\r\n\r\n"),
        Err(HttpParseError::InvalidStatusCode)
    );
}

#[test]
fn plus_signed_code_parses_as_u16_does() {
    let (code, _) = parse_http_response("HTTP/1.1 +302 Found\r\n\r\n").unwrap();
    assert_eq!(code, 302);
}

#[test]
fn extra_blank_lines_before_content_are_dropped() {
    let (code, body) = parse_http_response("HTTP/1.1 200 OK\r\n\r\n\r\nbody").unwrap();
    assert_eq!(code, 200);
    assert_eq!(body, b"body");
}
