//! The HTTP message model: request-line parsing, header parsing, and
//! response serialization.
use serveros::headers::ContentType;
use serveros::headers::Headers;
use serveros::headers::mime_type;
use serveros::http_headers::HttpHeaders;
use serveros::method::HttpMethod;
use serveros::method::HttpVersion;
use serveros::response::HttpResponse;
use serveros::response::with_crlf;
use serveros::status::HttpStatus;

#[test]
fn parse_request_line_get() {
    let parsed = HttpHeaders::parse_http("GET /index.html HTTP/1.1".to_string()).unwrap();
    assert!(matches!(parsed.0, HttpMethod::GET));
    assert!(matches!(parsed.1, HttpVersion::HTTP1_1));
    assert_eq!(parsed.2, "/index.html");
}

#[test]
fn parse_request_line_every_known_method() {
    let methods = [
        ("POST", HttpMethod::POST),
        ("PUT", HttpMethod::PUT),
        ("DELETE", HttpMethod::DELETE),
        ("HEAD", HttpMethod::HEAD),
        ("OPTIONS", HttpMethod::OPTIONS),
        ("TRACE", HttpMethod::TRACE),
        ("CONNECT", HttpMethod::CONNECT),
        ("PATCH", HttpMethod::PATCH),
    ];
    for (name, expected) in methods {
        let line = format!("{} / HTTP/1.0", name);
        let parsed = HttpHeaders::parse_http(line).unwrap();
        assert_eq!(
            std::mem::discriminant(&parsed.0),
            std::mem::discriminant(&expected)
        );
        assert!(matches!(parsed.1, HttpVersion::HTTP1_0));
    }
}

#[test]
fn parse_request_line_is_case_insensitive() {
    let parsed = HttpHeaders::parse_http("get / HTTP/2.0".to_string()).unwrap();
    assert!(matches!(parsed.0, HttpMethod::GET));
    assert!(matches!(parsed.1, HttpVersion::HTTP2_0));
}

#[test]
fn unknown_method_round_trips_uppercased() {
    let method = HttpHeaders::method_from_string("brew");
    match &method {
        HttpMethod::Name(name) => assert_eq!(name, "BREW"),
        other => panic!("expected a named method, got {:?}", other),
    }
    let head = HttpHeaders {
        method,
        version: HttpVersion::HTTP1_1,
        uri: "/".to_string(),
        raw: Headers::empty(),
    };
    assert_eq!(head.method_string(), "BREW");
}

#[test]
fn unknown_version_round_trips_verbatim() {
    let version = HttpHeaders::version_from_string("HTTP/9.9");
    match &version {
        HttpVersion::Name(name) => assert_eq!(name, "HTTP/9.9"),
        other => panic!("expected a named version, got {:?}", other),
    }
    let head = HttpHeaders {
        method: HttpMethod::GET,
        version,
        uri: "/".to_string(),
        raw: Headers::empty(),
    };
    assert_eq!(head.version_string(), "HTTP/9.9");
}

#[test]
fn short_request_line_is_malformed() {
    assert!(HttpHeaders::parse_http("GET /".to_string()).is_err());
    assert!(HttpHeaders::parse_http("".to_string()).is_err());
}

#[test]
fn from_on_empty_input_yields_no_headers() {
    let lines: Vec<String> = Vec::new();
    assert!(HttpHeaders::from(&lines).is_none());
    let fallback = HttpHeaders::from_or_default(&lines);
    assert!(matches!(fallback.method, HttpMethod::GET));
    assert_eq!(fallback.uri_string(), "/");
    assert_eq!(fallback.get("Host"), None);
}

#[test]
fn from_on_short_request_line_yields_no_headers() {
    let lines = vec!["GET /".to_string(), "Host: here".to_string()];
    assert!(HttpHeaders::from(&lines).is_none());
    let fallback = HttpHeaders::from_or_default(&lines);
    assert!(matches!(fallback.version, HttpVersion::HTTP2_0));
    assert_eq!(fallback.get("Host"), None);
}

#[test]
fn from_parses_request_line_and_headers() {
    let lines = vec![
        "GET /index.html HTTP/1.1".to_string(),
        "Host: localhost\r\n".to_string(),
        "Accept: text/html\r\n".to_string(),
        "not a header".to_string(),
    ];
    let head = HttpHeaders::from(&lines).unwrap();
    assert!(matches!(head.method, HttpMethod::GET));
    assert_eq!(head.uri_string(), "/index.html");
    assert_eq!(head.get("Host"), Some("localhost".to_string()));
    assert_eq!(head.get("Accept"), Some("text/html".to_string()));
    assert_eq!(head.get("not a header"), None);
}

#[test]
fn parse_header_splits_at_first_colon_and_trims() {
    let parsed = HttpHeaders::parse_header(" Host : example:8080 \r\n").unwrap();
    assert_eq!(parsed.0, "Host");
    assert_eq!(parsed.1, "example:8080");
    assert!(HttpHeaders::parse_header("no colon here").is_none());
}

#[test]
fn header_map_is_case_sensitive_and_overwrites() {
    let mut head = HttpHeaders::new();
    head.set("Content-Type", "text/html");
    head.set("content-type", "text/plain");
    assert_eq!(head.get("Content-Type"), Some("text/html".to_string()));
    assert_eq!(head.get("content-type"), Some("text/plain".to_string()));
    head.set("Content-Type", "application/json");
    assert_eq!(head.get("Content-Type"), Some("application/json".to_string()));
}

#[test]
fn headers_write_emits_every_pair() {
    let mut headers = Headers::new();
    headers.set("X-One".to_string(), "1".to_string());
    let text = headers.write();
    assert!(text.starts_with("HTTP 1.1 200 OK\r\n"));
    assert!(text.contains("Content-Type: text/plain; charset=utf-8\r\n"));
    assert!(text.contains("X-One: 1\r\n"));
}

#[test]
fn headers_get_and_content_helpers() {
    let mut headers = Headers::new();
    headers.set_content_type(ContentType::JSON);
    headers.set_content_length(42);
    assert_eq!(
        headers.get("Content-Type".to_string()),
        Some("application/json".to_string())
    );
    assert_eq!(
        headers.get("Content-Length".to_string()),
        Some("42".to_string())
    );
    assert_eq!(headers.get("Missing".to_string()), None);
}

#[test]
fn status_codes_and_messages() {
    assert_eq!(HttpStatus::OK.code(), 200);
    assert_eq!(HttpStatus::OK.message(), "OK");
    assert_eq!(HttpStatus::NotFound.code(), 404);
    assert_eq!(HttpStatus::NotFound.message(), "Not Found");
    assert_eq!(HttpStatus::ServiceUnavailable.code(), 503);
    let custom = HttpStatus::Status(799, "Teapot Adjacent".to_string());
    assert_eq!(custom.code(), 799);
    assert_eq!(custom.message(), "Teapot Adjacent");
}

#[test]
fn with_crlf_appends_line_ending() {
    assert_eq!(with_crlf("abc"), "abc\r\n");
    assert_eq!(HttpResponse::with_crlf(""), "\r\n");
}

#[test]
fn response_headers_hold_status_line_and_blank_line() {
    let mut response = HttpResponse::new();
    response.set_version(HttpVersion::HTTP1_1);
    response.set_status(HttpStatus::NotFound);
    let head = response.response_headers();
    assert!(head.starts_with("HTTP/1.1 404 Not Found\r\n"));
    assert!(head.ends_with("\r\n\r\n"));
}

#[test]
fn prepare_emits_head_then_body() {
    let mut response = HttpResponse::new();
    response.set_version(HttpVersion::HTTP1_1);
    response.set_body(b"hello".to_vec(), "text/plain; charset=utf-8");
    let bytes = response.prepare();
    let text = String::from_utf8(bytes).unwrap();
    assert!(text.starts_with("HTTP/1.1 200 OK\r\n"));
    assert!(text.contains("Content-Length: 5\r\n"));
    assert!(text.contains("Content-Type: text/plain; charset=utf-8\r\n"));
    assert!(text.ends_with("\r\n\r\nhello"));
}

#[test]
fn prepare_twice_consumes_the_body() {
    let mut response = HttpResponse::new();
    response.set_version(HttpVersion::HTTP1_1);
    response.set_body(b"payload".to_vec(), "text/plain; charset=utf-8");
    let first = response.prepare();
    let second = response.prepare();
    let first_text = String::from_utf8(first.clone()).unwrap();
    let second_text = String::from_utf8(second.clone()).unwrap();
    assert!(first_text.ends_with("payload"));
    // the head is emitted again, the body is not
    assert!(second_text.starts_with("HTTP/1.1 200 OK\r\n"));
    assert!(second_text.ends_with("\r\n\r\n"));
    assert_eq!(first.len(), second.len() + "payload".len());
}

#[test]
fn start_event_stream_sets_the_stream_head() {
    let mut response = HttpResponse::new();
    response.set_version(HttpVersion::HTTP1_1);
    let flag = response.start_event_stream().unwrap();
    assert!(matches!(flag, serveros::server::Flag::EventStream));
    let bytes = response.prepare();
    let text = String::from_utf8(bytes).unwrap();
    assert!(text.starts_with("HTTP/1.1 200 OK\r\n"));
    assert!(text.contains("Content-Type: text/event-stream\r\n"));
    assert!(text.contains("Cache-Control: no-cache\r\n"));
    assert!(text.contains("Connection: keep-alive\r\n"));
    assert!(text.ends_with("\r\n\r\ndata: connected!\n\n"));
}

#[test]
fn content_headers_match_the_body() {
    let mut response = HttpResponse::new();
    response.set_body(b"12345678".to_vec(), "image/png");
    assert_eq!(
        response.headers.get("Content-Length"),
        Some("8".to_string())
    );
    assert_eq!(response.headers.get("Content-Type"), Some("image/png".to_string()));
}

#[test]
fn mime_type_reads_the_extension() {
    assert!(matches!(mime_type(&"a.html".to_string()), ContentType::HTML));
    assert!(matches!(mime_type(&"a.css".to_string()), ContentType::CSS));
    assert!(matches!(mime_type(&"a.png".to_string()), ContentType::PNG));
    assert!(matches!(mime_type(&"a.json".to_string()), ContentType::JSON));
    assert!(matches!(mime_type(&"a.txt".to_string()), ContentType::TEXT));
    assert!(matches!(mime_type(&"a.gif".to_string()), ContentType::HTML));
}
