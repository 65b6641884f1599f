use http_libs::connection::{dispatch, handle_route, respond, Dispatch};
use http_libs::message::{Headers, HttpError, HttpMethod, Request, Response};
use http_libs::parser::{parse_request, request_from_head, HeadScan, ParseError, MAX_HEADERS, READ_CAPACITY};
use http_libs::router::Router;
use http_libs::serializer::{append_decimal, error_line, serialize_response};
use http_libs::server::{ConfigError, IpAddress, ServerBuilder, SocketAddress};

type Handler = fn(Request) -> Result<Response, HttpError>;

fn headers_of(pairs: &[(&str, &str)]) -> Headers {
    let mut h = Headers::new();
    for (k, v) in pairs {
        h.insert(k.to_string(), v.to_string());
    }
    h
}

fn html_handler(_req: Request) -> Result<Response, HttpError> {
    Ok(Response {
        version: "HTTP/1.1".to_string(),
        status_code: 200,
        status_message: "OK".to_string(),
        headers: headers_of(&[("Content-Type", "text/html")]),
        body: Some("<html><body><h1>Hello, world!</h1></body></html>".to_string()),
    })
}

fn echo_handler(req: Request) -> Result<Response, HttpError> {
    Ok(Response {
        version: "HTTP/1.1".to_string(),
        status_code: 201,
        status_message: "Created".to_string(),
        headers: Headers::new(),
        body: req.body,
    })
}

fn failing_handler(_req: Request) -> Result<Response, HttpError> {
    Err(HttpError { status_code: 503, message: "Service Unavailable".to_string() })
}

fn local_address() -> SocketAddress {
    SocketAddress { ip: IpAddress::V4([127, 0, 0, 1]), port: 8080 }
}

fn run_connection(routes: &Router<Handler>, raw: &[u8]) -> Option<String> {
    match dispatch(routes, raw) {
        Dispatch::Invoke(h, req) => Some(respond(&h(req))),
        Dispatch::Reply(s) => Some(s),
        Dispatch::Close(_) => None,
    }
}

#[test]
fn parses_request_line_and_headers() {
    let req = parse_request(b"GET /index.html HTTP/1.1\r\nHost: x\r\nAccept: */*\r\n\r\n").unwrap();
    assert_eq!(req.method, HttpMethod::GET);
    assert_eq!(req.uri, "/index.html");
    assert_eq!(req.version, "HTTP/1.1");
    assert_eq!(req.headers.len(), 2);
    assert_eq!(req.headers.get("Host").unwrap(), "x");
    assert_eq!(req.headers.get("Accept").unwrap(), "*/*");
    assert!(req.headers.get("host").is_none());
    assert!(req.body.is_none());
}

#[test]
fn keeps_version_one_zero() {
    let req = parse_request(b"PUT /a HTTP/1.0\r\n\r\n").unwrap();
    assert_eq!(req.method, HttpMethod::PUT);
    assert_eq!(req.version, "HTTP/1.0");
}

#[test]
fn takes_bytes_after_head_as_body() {
    let req = parse_request(b"POST /api HTTP/1.1\r\nContent-Length: 100\r\n\r\n{\"a\":1}").unwrap();
    assert_eq!(req.method, HttpMethod::POST);
    assert_eq!(req.body.as_deref(), Some("{\"a\":1}"));
}

#[test]
fn other_verbs_are_kept_verbatim() {
    let req = parse_request(b"PATCH /x HTTP/1.1\r\n\r\n").unwrap();
    assert_eq!(req.method, HttpMethod::OTHER("PATCH".to_string()));
    let req = parse_request(b"get /x HTTP/1.1\r\n\r\n").unwrap();
    assert_eq!(req.method, HttpMethod::OTHER("get".to_string()));
    let req = parse_request(b"DELETE /x HTTP/1.1\r\n\r\n").unwrap();
    assert_eq!(req.method, HttpMethod::DELETE);
}

#[test]
fn later_header_field_replaces_earlier() {
    let req = parse_request(b"GET / HTTP/1.1\r\nX-A: 1\r\nX-B: 2\r\nX-A: 3\r\n\r\n").unwrap();
    assert_eq!(req.headers.len(), 2);
    assert_eq!(req.headers.get("X-A").unwrap(), "3");
    assert_eq!(req.headers.get("X-B").unwrap(), "2");
}

#[test]
fn truncated_head_is_incomplete() {
    let e = parse_request(b"GET / HTTP/1.1\r\nHost: x\r\n").unwrap_err();
    assert_eq!(e, ParseError::IncompleteRequest);
    assert_eq!(parse_request(b"").unwrap_err(), ParseError::IncompleteRequest);
}

#[test]
fn head_longer_than_one_read_is_incomplete() {
    let mut raw = b"GET / HTTP/1.1\r\nX-Long: ".to_vec();
    raw.extend(std::iter::repeat(b'a').take(2000));
    raw.extend_from_slice(b"\r\n\r\n");
    let read = &raw[..READ_CAPACITY];
    assert_eq!(parse_request(read).unwrap_err(), ParseError::IncompleteRequest);
}

#[test]
fn seventeen_headers_are_too_many() {
    let mut raw = b"GET / HTTP/1.1\r\n".to_vec();
    for i in 0..(MAX_HEADERS + 1) {
        raw.extend_from_slice(format!("H{}: v\r\n", i).as_bytes());
    }
    raw.extend_from_slice(b"\r\n");
    assert_eq!(parse_request(&raw).unwrap_err(), ParseError::TooManyHeaders);
}

#[test]
fn sixteen_headers_fit() {
    let mut raw = b"GET / HTTP/1.1\r\n".to_vec();
    for i in 0..MAX_HEADERS {
        raw.extend_from_slice(format!("H{}: v\r\n", i).as_bytes());
    }
    raw.extend_from_slice(b"\r\n");
    assert_eq!(parse_request(&raw).unwrap().headers.len(), MAX_HEADERS);
}

#[test]
fn broken_request_line_is_invalid() {
    assert_eq!(parse_request(b"GET / HTTP/2.0\r\n\r\n").unwrap_err(), ParseError::InvalidSyntax);
    assert_eq!(parse_request(b"GET / HTTP/1.1\r\nBad Name: v\r\n\r\n").unwrap_err(), ParseError::InvalidSyntax);
}

#[test]
fn header_value_must_be_text() {
    let e = parse_request(b"GET / HTTP/1.1\r\nX-Bin: \xff\xfe\r\n\r\n").unwrap_err();
    assert_eq!(e, ParseError::MalformedHeaderText);
}

#[test]
fn body_must_be_text() {
    let e = parse_request(b"POST / HTTP/1.1\r\n\r\n\xff").unwrap_err();
    assert_eq!(e, ParseError::MalformedBodyText);
}

#[test]
fn missing_request_line_parts() {
    let scan = HeadScan::Complete { len: 0, method: None, path: Some("/".to_string()), version: Some(1), headers: vec![] };
    assert_eq!(request_from_head(&scan, b"").unwrap_err(), ParseError::MissingMethod);
    let scan = HeadScan::Complete { len: 0, method: Some("GET".to_string()), path: None, version: Some(1), headers: vec![] };
    assert_eq!(request_from_head(&scan, b"").unwrap_err(), ParseError::MissingPath);
    let scan = HeadScan::Complete { len: 0, method: Some("GET".to_string()), path: Some("/".to_string()), version: None, headers: vec![] };
    assert_eq!(request_from_head(&scan, b"").unwrap_err(), ParseError::MissingVersion);
    assert_eq!(request_from_head(&HeadScan::Partial, b"").unwrap_err(), ParseError::IncompleteRequest);
    assert_eq!(request_from_head(&HeadScan::TooManyHeaders, b"").unwrap_err(), ParseError::TooManyHeaders);
    assert_eq!(request_from_head(&HeadScan::Invalid, b"").unwrap_err(), ParseError::InvalidSyntax);
}

#[test]
fn request_from_head_builds_request() {
    let scan = HeadScan::Complete {
        len: 3,
        method: Some("POST".to_string()),
        path: Some("/p".to_string()),
        version: Some(1),
        headers: vec![("A".to_string(), b"1".to_vec()), ("A".to_string(), b"2".to_vec())],
    };
    let req = request_from_head(&scan, b"xyzbody").unwrap();
    assert_eq!(req.method, HttpMethod::POST);
    assert_eq!(req.uri, "/p");
    assert_eq!(req.version, "HTTP/1.1");
    assert_eq!(req.headers.len(), 1);
    assert_eq!(req.headers.get("A").unwrap(), "2");
    assert_eq!(req.body.as_deref(), Some("body"));
}

#[test]
fn parse_round_trip_keeps_fields() {
    let raw = b"DELETE /users/7 HTTP/1.1\r\nHost: example.org\r\nX-Token: t0k3n\r\n\r\npayload";
    let req = parse_request(raw).unwrap();
    assert_eq!(req.method, HttpMethod::DELETE);
    assert_eq!(req.uri, "/users/7");
    assert_eq!(req.version, "HTTP/1.1");
    assert_eq!(req.headers.get("Host").unwrap(), "example.org");
    assert_eq!(req.headers.get("X-Token").unwrap(), "t0k3n");
    assert_eq!(req.body.as_deref(), Some("payload"));
}

#[test]
fn headers_insert_and_get() {
    let mut h = Headers::new();
    assert_eq!(h.len(), 0);
    h.insert("A".to_string(), "1".to_string());
    h.insert("B".to_string(), "2".to_string());
    h.insert("A".to_string(), "3".to_string());
    assert_eq!(h.len(), 2);
    assert_eq!(h.get("A").unwrap(), "3");
    let (k, v) = h.entry(0);
    assert_eq!((k.as_str(), v.as_str()), ("A", "3"));
    assert!(h.get("C").is_none());
}

#[test]
fn router_lookup_and_miss() {
    let mut r: Router<u32> = Router::new();
    r.register(HttpMethod::GET, "/", 1);
    r.register(HttpMethod::POST, "/", 2);
    r.register(HttpMethod::OTHER("PATCH".to_string()), "/", 3);
    assert_eq!(r.lookup(&HttpMethod::GET, "/"), Some(&1));
    assert_eq!(r.lookup(&HttpMethod::POST, "/"), Some(&2));
    assert_eq!(r.lookup(&HttpMethod::OTHER("PATCH".to_string()), "/"), Some(&3));
    assert_eq!(r.lookup(&HttpMethod::PUT, "/"), None);
    assert_eq!(r.lookup(&HttpMethod::GET, "/x"), None);
    assert_eq!(r.lookup(&HttpMethod::GET, "//"), None);
    assert_eq!(r.len(), 3);
}

#[test]
fn router_last_registration_wins() {
    let mut r: Router<u32> = Router::new();
    r.register(HttpMethod::GET, "/a", 1);
    r.register(HttpMethod::GET, "/a", 2);
    assert_eq!(r.len(), 1);
    assert_eq!(r.lookup(&HttpMethod::GET, "/a"), Some(&2));
}

#[test]
fn router_paths_match_exactly() {
    let mut r: Router<u32> = Router::new();
    r.register(HttpMethod::GET, "/api", 1);
    assert_eq!(r.lookup(&HttpMethod::GET, "/api/"), None);
    assert_eq!(r.lookup(&HttpMethod::GET, "/API"), None);
}

#[test]
fn decimal_digits() {
    let mut s = String::from("n=");
    append_decimal(&mut s, 0);
    assert_eq!(s, "n=0");
    let mut s = String::new();
    append_decimal(&mut s, 404);
    assert_eq!(s, "404");
    let mut s = String::new();
    append_decimal(&mut s, 65535);
    assert_eq!(s, "65535");
}

#[test]
fn serializes_response() {
    let resp = Response {
        version: "HTTP/1.1".to_string(),
        status_code: 200,
        status_message: "OK".to_string(),
        headers: headers_of(&[("Content-Type", "text/plain"), ("X-A", "b")]),
        body: Some("hi".to_string()),
    };
    assert_eq!(
        serialize_response(&resp),
        "HTTP/1.1 200 OK\r\nContent-Type: text/plain\r\nX-A: b\r\n\r\nhi"
    );
}

#[test]
fn serializes_response_without_headers_or_body() {
    let resp = Response {
        version: "HTTP/1.0".to_string(),
        status_code: 204,
        status_message: "No Content".to_string(),
        headers: Headers::new(),
        body: None,
    };
    assert_eq!(serialize_response(&resp), "HTTP/1.0 204 No Content\r\n\r\n\r\n");
}

#[test]
fn serializer_adds_no_content_length() {
    let resp = html_handler(parse_request(b"GET / HTTP/1.1\r\n\r\n").unwrap()).unwrap();
    assert!(!serialize_response(&resp).contains("Content-Length"));
}

#[test]
fn error_line_is_one_status_line() {
    assert_eq!(error_line(&HttpError::internal_server_error()), "HTTP/1.1 500 Internal Server Error");
    let e = HttpError { status_code: 404, message: "Not Found".to_string() };
    assert_eq!(error_line(&e), "HTTP/1.1 404 Not Found");
}

#[test]
fn serialized_head_parses_back() {
    let resp = Response {
        version: "HTTP/1.1".to_string(),
        status_code: 418,
        status_message: "I'm a teapot".to_string(),
        headers: headers_of(&[("Content-Type", "text/plain"), ("X-Trace", "abc"), ("Server", "tiny")]),
        body: Some("short and stout".to_string()),
    };
    let text = serialize_response(&resp);
    let mut fields = [httparse::EMPTY_HEADER; 16];
    let mut parsed = httparse::Response::new(&mut fields);
    let len = match parsed.parse(text.as_bytes()).unwrap() {
        httparse::Status::Complete(n) => n,
        httparse::Status::Partial => panic!("head not complete"),
    };
    assert_eq!(parsed.code, Some(418));
    assert_eq!(parsed.reason, Some("I'm a teapot"));
    assert_eq!(parsed.version, Some(1));
    let mut got: Vec<(String, String)> = parsed
        .headers
        .iter()
        .map(|h| (h.name.to_string(), String::from_utf8(h.value.to_vec()).unwrap()))
        .collect();
    got.sort();
    let mut want = vec![
        ("Content-Type".to_string(), "text/plain".to_string()),
        ("Server".to_string(), "tiny".to_string()),
        ("X-Trace".to_string(), "abc".to_string()),
    ];
    want.sort();
    assert_eq!(got, want);
    assert_eq!(&text[len..], "short and stout");
}

#[test]
fn handle_route_selects_handler_or_fails() {
    let mut r: Router<Handler> = Router::new();
    r.register(HttpMethod::POST, "/echo", echo_handler as Handler);
    let req = parse_request(b"POST /echo HTTP/1.1\r\n\r\nping").unwrap();
    let (h, req) = handle_route(req, &r).unwrap();
    let resp = h(req).unwrap();
    assert_eq!(resp.status_code, 201);
    assert_eq!(resp.body.as_deref(), Some("ping"));
    let req = parse_request(b"GET /echo HTTP/1.1\r\n\r\n").unwrap();
    let e = handle_route(req, &r).unwrap_err();
    assert_eq!(e.status_code, 500);
    assert_eq!(e.message, "Internal Server Error");
}

#[test]
fn hello_route_end_to_end() {
    let routes = ServerBuilder::<Handler>::new()
        .bind(local_address())
        .route(HttpMethod::GET, "/", html_handler as Handler)
        .build()
        .unwrap();
    let out = run_connection(routes.routes(), b"GET / HTTP/1.1\r\nHost: x\r\n\r\n").unwrap();
    assert!(out.starts_with("HTTP/1.1 200 OK"));
    assert!(out.contains("Content-Type: text/html"));
    assert!(out.contains("<html><body><h1>Hello, world!</h1></body></html>"));
}

#[test]
fn missing_route_gives_fallback() {
    let server = ServerBuilder::<Handler>::new().bind(local_address()).build().unwrap();
    let out = run_connection(server.routes(), b"GET /missing HTTP/1.1\r\n\r\n").unwrap();
    assert_eq!(out, "HTTP/1.1 500 Internal Server Error");
}

#[test]
fn bad_input_closes_connection() {
    let mut r: Router<Handler> = Router::new();
    r.register(HttpMethod::GET, "/", html_handler as Handler);
    match dispatch(&r, b"GET / HTTP/1.1\r\nHost") {
        Dispatch::Close(e) => assert_eq!(e, ParseError::IncompleteRequest),
        _ => panic!("expected the connection to close"),
    }
    assert!(run_connection(&r, b"\x00\x01 garbage\r\n\r\n").is_none());
}

#[test]
fn handler_error_becomes_status_line() {
    let mut r: Router<Handler> = Router::new();
    r.register(HttpMethod::GET, "/down", failing_handler as Handler);
    let out = run_connection(&r, b"GET /down HTTP/1.1\r\n\r\n").unwrap();
    assert_eq!(out, "HTTP/1.1 503 Service Unavailable");
}

#[test]
fn connections_are_independent() {
    let mut r: Router<Handler> = Router::new();
    r.register(HttpMethod::GET, "/", html_handler as Handler);
    r.register(HttpMethod::POST, "/echo", echo_handler as Handler);
    let inputs: Vec<&[u8]> = vec![
        b"GET / HTTP/1.1\r\n\r\n",
        b"POST /echo HTTP/1.1\r\n\r\none",
        b"broken",
        b"POST /echo HTTP/1.1\r\n\r\ntwo",
    ];
    let outs: Vec<Option<String>> = inputs.iter().map(|raw| run_connection(&r, raw)).collect();
    assert!(outs[0].as_ref().unwrap().starts_with("HTTP/1.1 200 OK"));
    assert_eq!(outs[1].as_deref(), Some("HTTP/1.1 201 Created\r\n\r\n\r\none"));
    assert!(outs[2].is_none());
    assert_eq!(outs[3].as_deref(), Some("HTTP/1.1 201 Created\r\n\r\n\r\ntwo"));
}

#[test]
fn build_needs_address() {
    let e = ServerBuilder::<u32>::new().route(HttpMethod::GET, "/", 1).build().err().unwrap();
    assert_eq!(e, ConfigError::MissingAddress);
}

#[test]
fn build_keeps_address_and_routes() {
    let s = ServerBuilder::<u32>::new()
        .route(HttpMethod::GET, "/", 1)
        .bind(local_address())
        .route(HttpMethod::GET, "/", 2)
        .route(HttpMethod::GET, "/api", 3)
        .build()
        .unwrap();
    assert_eq!(s.address().port, 8080);
    assert!(matches!(s.address().ip, IpAddress::V4([127, 0, 0, 1])));
    assert_eq!(s.routes().len(), 2);
    assert_eq!(s.routes().lookup(&HttpMethod::GET, "/"), Some(&2));
    assert_eq!(s.routes().lookup(&HttpMethod::GET, "/api"), Some(&3));
}

#[test]
fn empty_route_table_builds() {
    let s = ServerBuilder::<u32>::new().bind(local_address()).build().unwrap();
    assert_eq!(s.routes().len(), 0);
}
