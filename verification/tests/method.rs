use front_line::{HttpVersion, Method};

#[test]
fn test_remaining_request_line() {
    let request = b"GET /foo/bar HTTP/1.1".as_slice();
    assert_eq!(
        Method::parse(request),
        Some((Method::Get, b"/foo/bar HTTP/1.1".as_slice()))
    );
}

#[test]
fn test_parse_method_get() {
    assert_eq!(
        Method::parse(b"GET / HTTP/1.1"),
        Some((Method::Get, b"/ HTTP/1.1".as_slice()))
    );
    assert_eq!(Method::parse(b"GET/ HTTP/1.1 "), None);
    assert_eq!(Method::parse(b"GET / HTTP/1."), None);
    assert_eq!(Method::parse(b"get / HTTP/1.1"), None);
    assert_eq!(Method::from_attribute("get"), Some(Method::Get));
    assert_eq!(Method::from_attribute("GET"), None);
    assert_eq!(Method::Get.token_len(), 3);
}

#[test]
fn test_parse_method_put() {
    assert_eq!(
        Method::parse(b"PUT / HTTP/1.1"),
        Some((Method::Put, b"/ HTTP/1.1".as_slice()))
    );
    assert_eq!(Method::parse(b"PUT/ HTTP/1.1 "), None);
    assert_eq!(Method::parse(b"PUT / HTTP/1."), None);
    assert_eq!(Method::parse(b"put / HTTP/1.1"), None);
    assert_eq!(Method::from_attribute("put"), Some(Method::Put));
    assert_eq!(Method::from_attribute("PUT"), None);
    assert_eq!(Method::Put.token_len(), 3);
}

#[test]
fn test_parse_method_post() {
    assert_eq!(
        Method::parse(b"POST / HTTP/1.1"),
        Some((Method::Post, b"/ HTTP/1.1".as_slice()))
    );
    assert_eq!(Method::parse(b"POST/ HTTP/1.1 "), None);
    assert_eq!(Method::parse(b"POST / HTTP/1."), None);
    assert_eq!(Method::parse(b"post / HTTP/1.1"), None);
    assert_eq!(Method::from_attribute("post"), Some(Method::Post));
    assert_eq!(Method::from_attribute("POST"), None);
    assert_eq!(Method::Post.token_len(), 4);
}

#[test]
fn test_parse_method_head() {
    assert_eq!(
        Method::parse(b"HEAD / HTTP/1.1"),
        Some((Method::Head, b"/ HTTP/1.1".as_slice()))
    );
    assert_eq!(Method::parse(b"HEAD/ HTTP/1.1 "), None);
    assert_eq!(Method::parse(b"HEAD / HTTP/1."), None);
    assert_eq!(Method::parse(b"head / HTTP/1.1"), None);
    assert_eq!(Method::from_attribute("head"), Some(Method::Head));
    assert_eq!(Method::from_attribute("HEAD"), None);
    assert_eq!(Method::Head.token_len(), 4);
}

#[test]
fn test_parse_method_trace() {
    assert_eq!(
        Method::parse(b"TRACE / HTTP/1.1"),
        Some((Method::Trace, b"/ HTTP/1.1".as_slice()))
    );
    assert_eq!(Method::parse(b"TRACE/ HTTP/1.1 "), None);
    assert_eq!(Method::parse(b"TRACE / HTTP/1."), None);
    assert_eq!(Method::parse(b"trace / HTTP/1.1"), None);
    assert_eq!(Method::from_attribute("trace"), Some(Method::Trace));
    assert_eq!(Method::from_attribute("TRACE"), None);
    assert_eq!(Method::Trace.token_len(), 5);
}

#[test]
fn test_parse_method_patch() {
    assert_eq!(
        Method::parse(b"PATCH / HTTP/1.1"),
        Some((Method::Patch, b"/ HTTP/1.1".as_slice()))
    );
    assert_eq!(Method::parse(b"PATCH/ HTTP/1.1 "), None);
    assert_eq!(Method::parse(b"PATCH / HTTP/1."), None);
    assert_eq!(Method::parse(b"patch / HTTP/1.1"), None);
    assert_eq!(Method::from_attribute("patch"), Some(Method::Patch));
    assert_eq!(Method::from_attribute("PATCH"), None);
    assert_eq!(Method::Patch.token_len(), 5);
}

#[test]
fn test_parse_method_delete() {
    assert_eq!(
        Method::parse(b"DELETE / HTTP/1.1"),
        Some((Method::Delete, b"/ HTTP/1.1".as_slice()))
    );
    assert_eq!(Method::parse(b"DELETE/ HTTP/1.1 "), None);
    assert_eq!(Method::parse(b"DELETE / HTTP/1."), None);
    assert_eq!(Method::parse(b"delete / HTTP/1.1"), None);
    assert_eq!(Method::from_attribute("delete"), Some(Method::Delete));
    assert_eq!(Method::from_attribute("DELETE"), None);
    assert_eq!(Method::Delete.token_len(), 6);
}

#[test]
fn test_parse_method_options() {
    assert_eq!(
        Method::parse(b"OPTIONS / HTTP/1.1"),
        Some((Method::Options, b"/ HTTP/1.1".as_slice()))
    );
    assert_eq!(Method::parse(b"OPTIONS/ HTTP/1.1 "), None);
    assert_eq!(Method::parse(b"OPTIONS / HTTP/1."), None);
    assert_eq!(Method::parse(b"options / HTTP/1.1"), None);
    assert_eq!(Method::from_attribute("options"), Some(Method::Options));
    assert_eq!(Method::from_attribute("OPTIONS"), None);
    assert_eq!(Method::Options.token_len(), 7);
}

#[test]
fn test_parse_method_connect() {
    assert_eq!(
        Method::parse(b"CONNECT / HTTP/1.1"),
        Some((Method::Connect, b"/ HTTP/1.1".as_slice()))
    );
    assert_eq!(Method::parse(b"CONNECT/ HTTP/1.1 "), None);
    assert_eq!(Method::parse(b"CONNECT / HTTP/1."), None);
    assert_eq!(Method::parse(b"connect / HTTP/1.1"), None);
    assert_eq!(Method::from_attribute("connect"), Some(Method::Connect));
    assert_eq!(Method::from_attribute("CONNECT"), None);
    assert_eq!(Method::Connect.token_len(), 7);
}

#[test]
fn test_parse_method_invalid() {
    assert_eq!(Method::parse(b"INVALIDMETHOD / HTTP/1.1"), None);
    assert_eq!(Method::parse(b" GET / HTTP/1.1"), None);
    assert_eq!(Method::parse(b""), None);
}

#[test]
fn test_malformed_request() {
    assert_eq!(Method::parse(b"GET/ HTTP/1.1"), None);
    assert_eq!(Method::parse(b"PUT/ HTTP/1.1"), None);
    assert_eq!(Method::parse(b"POST/ HTTP/1.1"), None);
    assert_eq!(Method::parse(b"HEAD/ HTTP/1.1"), None);
}

#[test]
fn test_short_request() {
    let requests: [&[u8]; 10] = [
        b"GE",
        b"POS",
        b"TRAC",
        b"DELET",
        b"OPTION",
        b"GET / HTTP/1.",
        b"POST / HTTP/1.",
        b"TRACE / HTTP/1.",
        b"DELETE / HTTP/1.",
        b"OPTIONS / HTTP/1.",
    ];
    for request in requests {
        assert_eq!(Method::parse(request), None);
    }
}

#[test]
fn test_method_attribute_unknown() {
    assert_eq!(Method::from_attribute(""), None);
    assert_eq!(Method::from_attribute("flatten"), None);
    assert_eq!(Method::from_attribute("gets"), None);
    assert_eq!(Method::from_attribute("ge"), None);
}

#[test]
fn test_method_ordinals() {
    let methods = [
        Method::Get,
        Method::Post,
        Method::Put,
        Method::Delete,
        Method::Head,
        Method::Options,
        Method::Connect,
        Method::Trace,
        Method::Patch,
    ];
    for (place, method) in methods.iter().enumerate() {
        assert_eq!(method.ordinal(), place);
    }
}

#[test]
fn test_http_version_parsing() {
    assert_eq!(HttpVersion::parse(b"HTTP/1.1"), Some(HttpVersion::OneOne));
    assert_eq!(HttpVersion::parse(b"HTTP/1.0"), Some(HttpVersion::OneZero));
    assert_eq!(HttpVersion::parse(b"HTTP/0.9"), None);
    assert_eq!(HttpVersion::parse(b"HTTP/2.0"), None);
    assert_eq!(HttpVersion::parse(b"HTTPS/1.1"), None);
    assert_eq!(HttpVersion::parse(b"HTTP/1.10"), None);
    assert_eq!(HttpVersion::parse(b"HTTP/1."), None);
    assert_eq!(HttpVersion::parse(b""), None);
    assert_eq!(HttpVersion::parse(b"http/1.1"), None);
    assert_eq!(HttpVersion::parse(b"HTTP/1.1 "), None);
    assert_eq!(HttpVersion::parse(b"HTTP/1.2"), None);
}
