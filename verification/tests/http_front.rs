use sentry::http::{
    get_query_param, header_value, parse_request, parse_response, serialize_request,
    serialize_response, Header, Request, Response,
};

fn simple_head() -> String {
    String::from("GET /test? HTTP/1.1\r\nHost: test.test\r\nReferer: http://p.example/\r\n\r\n")
}

#[test]
fn parse_request_reads_method_target_headers() {
    let head = simple_head();
    let req = parse_request(head.as_str()).unwrap();
    assert_eq!(req.method.as_str(), "GET");
    assert_eq!(req.target.as_str(), "/test?");
    assert_eq!(req.headers.len(), 2);
    assert_eq!(req.headers[0].name.as_str(), "Host");
    assert_eq!(req.headers[0].value.as_str(), "test.test");
    assert_eq!(req.headers[1].name.as_str(), "Referer");
    assert_eq!(req.headers[1].value.as_str(), "http://p.example/");
}

#[test]
fn parse_request_trims_header_whitespace() {
    let req = parse_request("GET / HTTP/1.1\r\nHost:   spaced.example \t\r\n\r\n").unwrap();
    assert_eq!(req.headers[0].value.as_str(), "spaced.example");
}

#[test]
fn parse_request_rejects_malformed_heads() {
    assert!(parse_request("").is_none());
    assert!(parse_request("GET /\r\n\r\n").is_none());
    assert!(parse_request("GET / HTTP/2\r\n\r\n").is_none());
    assert!(parse_request("GET / HTTP/1.1\r\nNoColonHere\r\n\r\n").is_none());
    assert!(parse_request("GET / HTTP/1.1\r\n: empty name\r\n\r\n").is_none());
    assert!(parse_request("GET / HTTP/1.1\r\nHost: x\r\n\r\ntrailing").is_none());
    assert!(parse_request("GET / HTTP/1.1\r\nHost: x\r\n").is_none());
}

#[test]
fn parse_request_accepts_http10() {
    let req = parse_request("GET / HTTP/1.0\r\n\r\n").unwrap();
    assert_eq!(req.method.as_str(), "GET");
    assert!(req.headers.is_empty());
}

#[test]
fn header_lookup_ignores_ascii_case() {
    let head = simple_head();
    let req = parse_request(head.as_str()).unwrap();
    assert_eq!(header_value(&req.headers, "hOST").unwrap().as_str(), "test.test");
    assert!(header_value(&req.headers, "Cookie").is_none());
}

#[test]
fn query_param_lookup() {
    assert_eq!(get_query_param("/?secret=abc", "secret").unwrap().as_str(), "abc");
    assert_eq!(
        get_query_param("/path?a=1&secret=xyz&b=2", "secret").unwrap().as_str(),
        "xyz"
    );
    assert_eq!(get_query_param("/?secret=", "secret").unwrap().as_str(), "");
    assert!(get_query_param("/", "secret").is_none());
    assert!(get_query_param("/?secreta=1", "secret").is_none());
    assert!(get_query_param("/?secret", "secret").is_none());
}

#[test]
fn responses_serialize_exactly() {
    let r = Response {
        status: 302,
        reason: String::from("Found"),
        headers: vec![
            Header { name: String::from("Location"), value: String::from("http://x/") },
            Header { name: String::from("Connection"), value: String::from("close") },
        ],
        body: String::new(),
    };
    assert_eq!(
        serialize_response(&r).as_str(),
        "HTTP/1.1 302 Found\r\nLocation: http://x/\r\nConnection: close\r\n\r\n"
    );
}

#[test]
fn requests_serialize_exactly() {
    let r = Request {
        method: String::from("GET"),
        target: String::from("/sentry/accept"),
        headers: vec![Header { name: String::from("Host"), value: String::from("p.example") }],
    };
    assert_eq!(
        serialize_request(&r).as_str(),
        "GET /sentry/accept HTTP/1.1\r\nHost: p.example\r\n\r\n"
    );
}

#[test]
fn parse_response_reads_status_headers_body() {
    let text = "HTTP/1.1 200 OK\r\nContent-Type: text/plain\r\n\r\nportal-content\nsecretline";
    let resp = parse_response(text).unwrap();
    assert_eq!(resp.status, 200);
    assert_eq!(resp.reason.as_str(), "OK");
    assert_eq!(
        header_value(&resp.headers, "Content-Type").unwrap().as_str(),
        "text/plain"
    );
    assert_eq!(resp.body.as_str(), "portal-content\nsecretline");

    let no_headers = parse_response("HTTP/1.0 404 Not Found\r\n\r\n").unwrap();
    assert_eq!(no_headers.status, 404);
    assert_eq!(no_headers.reason.as_str(), "Not Found");
    assert!(no_headers.headers.is_empty());
    assert_eq!(no_headers.body.as_str(), "");

    assert!(parse_response("HTTP/1.1 20x OK\r\n\r\n").is_none());
    assert!(parse_response("HTTP/1.1 200\r\n\r\n").is_none());
    assert!(parse_response("junk").is_none());
}

#[test]
fn parse_then_serialize_round_trips_a_canonical_head() {
    let text = "GET /a?b=c HTTP/1.1\r\nHost: h.example\r\nAccept: all\r\n\r\n";
    let req = parse_request(text).unwrap();
    assert_eq!(serialize_request(&req).as_str(), text);
}
