use rust_url_shortener::request::ParsedRequest;
use rust_url_shortener::router::get_req_header;

#[test]
fn test_get_req_header() {
    let example_req = r#"
            POST /new HTTP/1.1
            Host: localhost:8080
            User-Agent: curl/7.83.1
            Accept: */*
            Cookie: sessionkolacic=abcdef
            X-SERJ-TOKEN: blabla
            Content-Length: 20
            Content-Type: application/x-www-form-urlencoded

            url=http://www.st.rs
        "#;
    let got_header_value = get_req_header("X-SERJ-TOKEN", example_req);
    assert_eq!(got_header_value, "blabla");
    let got_header_value = get_req_header("Cookie", example_req);
    assert_eq!(got_header_value, "sessionkolacic=abcdef");
    let got_header_value = get_req_header("Content-Type", example_req);
    assert_eq!(got_header_value, "application/x-www-form-urlencoded");

    let example_req = r#"
            POST /new HTTP/1.1
            Host: localhost:8080
            Content-Length: 20
            Content-Type: application/json
            User-Agent: curl/7.83.1
            Accept: */*
            Cookie: sessionkolacic=abcdef

            url=http://www.st.rs
        "#;
    let got_header_value = get_req_header("X-SERJ-TOKEN", example_req);
    assert_eq!(got_header_value, "");
    let got_header_value = get_req_header("Content-Type", example_req);
    assert_eq!(got_header_value, "application/json");
}

#[test]
fn test_get_req_header_skips_double_colon_lines() {
    // "Host: localhost:8080" splits into three pieces, so it is no match.
    let req = "GET / HTTP/1.1\r\nHost: localhost:8080\r\n\r\nx";
    assert_eq!(get_req_header("Host", req), "");
}

#[test]
fn test_parse_request_full() {
    let req = "POST /new HTTP/1.1\r\nContent-Type: application/json\r\nX-SERJ-TOKEN: tok\r\n\r\nurl=http://a.b";
    let parsed = ParsedRequest::parse(req).unwrap();
    assert_eq!(parsed.method, "POST");
    assert_eq!(parsed.path, "/new");
    assert_eq!(parsed.body, "url=http://a.b");
    // the body line carries exactly one ':' too, so it counts as a header
    assert_eq!(parsed.headers.len(), 3);
    assert_eq!(parsed.headers[0].0, "Content-Type");
    assert_eq!(parsed.headers[0].1, "application/json");
    assert_eq!(parsed.headers[1].0, "X-SERJ-TOKEN");
    assert_eq!(parsed.headers[1].1, "tok");
    assert_eq!(parsed.headers[2].0, "url=http");
    assert_eq!(parsed.headers[2].1, "//a.b");
}

#[test]
fn test_parse_request_trims_null_padding() {
    let req = "GET /ping HTTP/1.1\u{0}\u{0}\u{0}";
    let parsed = ParsedRequest::parse(req).unwrap();
    assert_eq!(parsed.method, "GET");
    assert_eq!(parsed.path, "/ping");
}

#[test]
fn test_parse_request_malformed() {
    assert!(ParsedRequest::parse("").is_err());
    assert!(ParsedRequest::parse("\u{0}\u{0}").is_err());
    assert!(ParsedRequest::parse("GET").is_err());
}

#[test]
fn test_get_req_header_trims_value() {
    let req = "GET / HTTP/1.1\nX-SERJ-TOKEN:   padded value  \nEnd: x";
    assert_eq!(get_req_header("X-SERJ-TOKEN", req), "padded value");
}
