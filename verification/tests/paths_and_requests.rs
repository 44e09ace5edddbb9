//! Path sanitizing, query parsing, the flat request map, and the
//! configuration.
use serveros::config::Config;
use serveros::config::server;
use serveros::headers::Headers;
use serveros::path::Path;
use serveros::path::is_valid_path;
use serveros::path::parse_query;
use serveros::path::public_path;
use serveros::path::sanitize_path;
use serveros::path::split_path_and_params;
use serveros::request::Request;
use serveros::request::read_line_http;
use serveros::request::read_line_into;
use serveros::text::is_token;
use serveros::text::u64_to_string;

#[test]
fn split_path_and_params_cuts_at_the_first_question_mark() {
    let (path, query) = split_path_and_params("/a/b?x=1&y=2");
    assert_eq!(path, "/a/b");
    assert_eq!(query, Some("x=1&y=2".to_string()));
    let (path, query) = split_path_and_params("/plain");
    assert_eq!(path, "/plain");
    assert_eq!(query, None);
}

#[test]
fn valid_path_segments() {
    assert!(is_valid_path("abc-DEF_09"));
    assert!(!is_valid_path(""));
    assert!(!is_valid_path("a.b"));
    assert!(!is_valid_path("a/b"));
}

#[test]
fn sanitize_drops_invalid_segments_and_lowers() {
    assert_eq!(sanitize_path("/Ab/C-d"), "ab/c-d");
    assert_eq!(sanitize_path("a//b"), "a/b");
    assert_eq!(sanitize_path("/.."), "/");
    assert_eq!(sanitize_path(""), "/");
    assert_eq!(sanitize_path("///"), "/");
}

#[test]
fn parse_query_reads_pairs_and_skips_junk() {
    let params = parse_query(Some("x=1&y=2&junk&x=3")).unwrap();
    assert_eq!(params.get("x".to_string()), Some("3".to_string()));
    assert_eq!(params.get("y".to_string()), Some("2".to_string()));
    assert_eq!(params.get("junk".to_string()), None);
    assert!(parse_query(Some("")).is_none());
    assert!(parse_query(None).is_none());
}

#[test]
fn path_from_and_to_string() {
    let path = Path::from("/Docs/Readme?lang=en");
    assert_eq!(path.path, "docs/readme");
    assert_eq!(path.to_string(), "docs/readme?lang=en");
    let bare = Path::from("/One/Two");
    assert_eq!(bare.to_string(), "one/two");
}

#[test]
fn public_path_filters_escaping_segments() {
    // a leading slash leaves an empty first segment, as the splitter of
    // the path has always produced
    assert_eq!(public_path("/index.html"), "./src/public//index.html");
    assert_eq!(public_path("../../etc/passwd"), "./src/public/etc/passwd");
    assert_eq!(public_path("~/./a"), "./src/public/a");
}

#[test]
fn request_map_reads_the_head() {
    let lines = vec![
        "GET /page HTTP/1.1\r\n".to_string(),
        "Host: localhost\r\n".to_string(),
    ];
    let request = Request::from_lines(&lines);
    assert_eq!(request.method(), Some("GET".to_string()));
    assert_eq!(request.url(), Some("/page".to_string()));
    assert_eq!(request.http_version(), Some("HTTP/1.1\r\n".to_string()));
}

#[test]
fn request_url_maps_root_to_the_index_document() {
    let lines = vec!["GET / HTTP/1.1".to_string()];
    let request = Request::from_lines(&lines);
    assert_eq!(request.url(), Some("/index.html".to_string()));
}

#[test]
fn request_without_a_request_line_has_no_fields() {
    let request = Request::from_lines(&Vec::new());
    assert_eq!(request.url(), None);
    assert_eq!(request.method(), None);
    assert_eq!(request.http_version(), None);
}

#[test]
fn line_readers_fill_a_map() {
    let mut map = Headers::empty();
    read_line_http(&mut map, &"POST /x HTTP/1.0".to_string());
    read_line_into(&mut map, &" Accept : */* \r\n".to_string());
    let request = Request::new(map);
    assert_eq!(request.method(), Some("POST".to_string()));
    assert_eq!(request.url(), Some("/x".to_string()));
}

#[test]
fn config_address_is_host_and_port() {
    let config = Config { host: "0.0.0.0".to_string(), port: 9000 };
    assert_eq!(config.address(), "0.0.0.0:9000");
    let default = server();
    assert_eq!(default.address(), "localhost:8080");
    assert_eq!(default.port, 8080);
}

#[test]
fn decimal_rendering() {
    assert_eq!(u64_to_string(0), "0");
    assert_eq!(u64_to_string(65535), "65535");
    assert_eq!(u64_to_string(u64::MAX), "18446744073709551615");
}

#[test]
fn flag_tokens_start_with_a_dash() {
    assert!(is_token("--port"));
    assert!(is_token("-p"));
    assert!(!is_token("8080"));
    assert!(!is_token(""));
}
