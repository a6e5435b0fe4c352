use front_line::{parse_request, Error, HttpVersion, Method, RequestLine, Router, RouterResult};

#[derive(PartialEq, Debug)]
enum TestRoute {
    Test,
}

impl<'de> Router<'de> for TestRoute {
    fn handle_parsed(method: Method, remaining_path: &'de str) -> Option<Self> {
        match (method, remaining_path) {
            (Method::Get, "/test") => Some(TestRoute::Test),
            _ => None,
        }
    }
}

fn expect(
    input: &[u8],
    route: Option<TestRoute>,
    query: &str,
    version: HttpVersion,
    head_and_body: &[u8],
) {
    assert_eq!(
        TestRoute::resolve(input),
        Ok(RouterResult {
            route,
            query,
            version,
            head_and_body,
        })
    );
}

#[test]
fn test_route_with_data() {
    expect(
        b"GET /test HTTP/1.1\r\n\r\nSome data",
        Some(TestRoute::Test),
        "",
        HttpVersion::OneOne,
        b"Some data",
    );
}

#[test]
fn test_route_with_query() {
    expect(
        b"GET /test?query=value HTTP/1.1\r\n\r\n",
        Some(TestRoute::Test),
        "query=value",
        HttpVersion::OneOne,
        b"",
    );
}

#[test]
fn test_route_one_zero() {
    expect(
        b"GET /test HTTP/1.0\r\n\r\n",
        Some(TestRoute::Test),
        "",
        HttpVersion::OneZero,
        b"",
    );
}

#[test]
fn test_route_other_method() {
    expect(
        b"POST /test HTTP/1.1\r\n\r\n",
        None,
        "",
        HttpVersion::OneOne,
        b"",
    );
}

#[test]
fn test_route_other_path() {
    expect(
        b"GET /invalid HTTP/1.1\r\n\r\n",
        None,
        "",
        HttpVersion::OneOne,
        b"",
    );
    expect(
        b"GET /invalid?key=value HTTP/1.1\r\n\r\n",
        None,
        "key=value",
        HttpVersion::OneOne,
        b"",
    );
    expect(
        b"GET /invalid?key=value HTTP/1.1\r\n\r\nheader-section",
        None,
        "key=value",
        HttpVersion::OneOne,
        b"header-section",
    );
}

#[test]
fn test_route_invalid_request_lines() {
    let inputs: [&[u8]; 4] = [
        b"GET /test HTT/1.1\r\n\r\n",
        b"GET /test",
        b"GET/test HTTP/1.1\r\n\r\n",
        b"GET /test HTTP/1.1\r\nSome data",
    ];
    for input in inputs {
        assert_eq!(TestRoute::resolve(input), Err(Error::InvalidRequestLine));
    }
}

#[test]
fn test_parse_request_parts() {
    let request = b"PATCH /a/b?x=1&y=2 HTTP/1.0\r\n\r\nHost: here\r\n\r\nbody";
    assert_eq!(
        parse_request(request),
        Ok(RequestLine {
            method: Method::Patch,
            path: "/a/b",
            query: "x=1&y=2",
            version: HttpVersion::OneZero,
            head_and_body: b"Host: here\r\n\r\nbody",
        })
    );
}

#[test]
fn test_query_splits_on_first_mark_only() {
    let line = parse_request(b"GET /search?q=a?b HTTP/1.1\r\n\r\n").unwrap();
    assert_eq!(line.path, "/search");
    assert_eq!(line.query, "q=a?b");
}

#[test]
fn test_query_edges() {
    let line = parse_request(b"GET /search? HTTP/1.1\r\n\r\n").unwrap();
    assert_eq!((line.path, line.query), ("/search", ""));
    let line = parse_request(b"GET ?only HTTP/1.1\r\n\r\n").unwrap();
    assert_eq!((line.path, line.query), ("", "only"));
    let line = parse_request(b"GET /plain HTTP/1.1\r\n\r\n").unwrap();
    assert_eq!((line.path, line.query), ("/plain", ""));
}

#[test]
fn test_first_blank_line_ends_the_request_line() {
    let line = parse_request(b"GET /x HTTP/1.1\r\n\r\n\r\n\r\nrest").unwrap();
    assert_eq!(line.head_and_body, b"\r\n\r\nrest");
}

#[test]
fn test_parts_borrow_from_the_request() {
    let request = b"GET /users/42?x=y HTTP/1.1\r\n\r\nBODY".to_vec();
    let line = parse_request(&request).unwrap();
    let start = request.as_ptr() as usize;
    assert_eq!(line.path.as_ptr() as usize, start + 4);
    assert_eq!(line.query.as_ptr() as usize, start + 14);
    assert_eq!(line.head_and_body.as_ptr() as usize, start + 30);
}

#[test]
fn test_invalid_request_lines() {
    let inputs: [&[u8]; 12] = [
        b"",
        b"\r\n\r\n",
        b"GET /api/users/42",
        b"GET /test HTTP/1.1\n\n",
        b"FETCH /test HTTP/1.1\r\n\r\n",
        b"GET /test\r\n\r\n HTTP/1.1",
        b"GET /test/long/enough\r\n\r\n",
        b"GET /test HTTP/1.1 \r\n\r\n",
        b"GET /test  HTTP/1.1\r\n\r\n",
        b"GET /test HTTP/2.0\r\n\r\n",
        b"GET /te\xffst HTTP/1.1\r\n\r\n",
        b"GET /test?q=\xc3 HTTP/1.1\r\n\r\n",
    ];
    for input in inputs {
        assert_eq!(parse_request(input), Err(Error::InvalidRequestLine));
    }
}

#[test]
fn test_error_message() {
    assert_eq!(
        Error::InvalidRequestLine.message(),
        "the http request line was not valid"
    );
}

#[test]
fn test_into_result() {
    let line = parse_request(b"GET /x?q HTTP/1.1\r\n\r\ntail").unwrap();
    assert_eq!(
        line.into_result(Some(7u8)),
        RouterResult {
            route: Some(7u8),
            query: "q",
            version: HttpVersion::OneOne,
            head_and_body: b"tail",
        }
    );
}
