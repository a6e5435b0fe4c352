//! The request line: method, path, query and protocol version.

use crate::http_version::HttpVersion;
use crate::method::Method;
use crate::router_result::RouterResult;
use crate::scan::{
    as_text, find_byte, find_bytes, first_occurrence, lemma_position, position,
};
use crate::schema::{Route, Schema};
use vstd::prelude::*;
use vstd::slice::slice_subrange;
use vstd::string::StringSliceAdditionalSpecFns;
use vstd::utf8::valid_utf8;

verus! {

/// Why a request was refused.
#[derive(PartialEq, Eq, Structural, Debug, Clone, Copy)]
pub enum Error {
    /// The request line is not valid: the blank line that ends it is
    /// missing, the method is not known or its space is missing, the space
    /// before the protocol version is missing, the version is not one of
    /// the two known ones, or the path or the query is not valid text.
    InvalidRequestLine,
}

impl Error {
    /// What the error says.
    pub fn message(&self) -> (text: &'static str)
        ensures
            text@ == "the http request line was not valid"@,
    {
        "the http request line was not valid"
    }
}

/// The four bytes that end the request line: two line breaks.
pub open spec fn sentinel() -> Seq<u8> {
    seq!['\r' as u8, '\n' as u8, '\r' as u8, '\n' as u8]
}

/// The parts of a request line, with what follows the line.
#[derive(PartialEq, Eq, Debug)]
pub struct RequestLine<'a> {
    /// The request method.
    pub method: Method,
    /// The path: the request target up to its first `?`.
    pub path: &'a str,
    /// The query: the request target behind its first `?`.
    pub query: &'a str,
    /// The protocol version.
    pub version: HttpVersion,
    /// Everything behind the blank line that ends the request line.
    pub head_and_body: &'a [u8],
}

/// What a parsed request line holds, as plain bytes.
pub struct RequestLineView {
    /// The request method.
    pub method: Method,
    /// The bytes of the path.
    pub path: Seq<u8>,
    /// The bytes of the query.
    pub query: Seq<u8>,
    /// The protocol version.
    pub version: HttpVersion,
    /// The bytes behind the blank line.
    pub head_and_body: Seq<u8>,
}

impl<'a> View for RequestLine<'a> {
    type V = RequestLineView;

    open spec fn view(&self) -> RequestLineView {
        RequestLineView {
            method: self.method,
            path: self.path.spec_bytes(),
            query: self.query.spec_bytes(),
            version: self.version,
            head_and_body: self.head_and_body@,
        }
    }
}

/// The path of a request target: what stands before its first `?`.
pub open spec fn path_of(target: Seq<u8>) -> Seq<u8> {
    target.take(position(target, '?' as u8))
}

/// The query of a request target: what stands behind its first `?`, and
/// nothing where it holds no `?`.
pub open spec fn query_of(target: Seq<u8>) -> Seq<u8> {
    if position(target, '?' as u8) < target.len() {
        target.skip(position(target, '?' as u8) + 1)
    } else {
        Seq::empty()
    }
}

/// The parts of `request`, or `None` where its request line is not valid.
///
/// The request line ends before the first blank line. It starts with a
/// method token and a space. The request target runs up to the next space,
/// and what follows that space is the protocol version. Path and query
/// must be valid UTF-8.
pub open spec fn request_line(request: Seq<u8>) -> Option<RequestLineView> {
    match first_occurrence(request, sentinel()) {
        None => None,
        Some(end) => match Method::parse_spec(request.subrange(0, end)) {
            None => None,
            Some((method, after)) => {
                let space = position(after, ' ' as u8);
                let target = after.take(space);
                if space >= after.len() {
                    None
                } else {
                    match HttpVersion::parse_spec(after.skip(space + 1)) {
                        None => None,
                        Some(version) => if valid_utf8(path_of(target)) && valid_utf8(
                            query_of(target),
                        ) {
                            Some(
                                RequestLineView {
                                    method,
                                    path: path_of(target),
                                    query: query_of(target),
                                    version,
                                    head_and_body: request.skip(end + 4),
                                },
                            )
                        } else {
                            None
                        },
                    }
                }
            },
        },
    }
}

/// A request target is split at its first `?` and nowhere else: the path
/// holds no `?`, and path, `?` and query put together give the target
/// back. A target without `?` is all path, and its query is empty.
pub proof fn lemma_target_split(target: Seq<u8>)
    ensures
        forall|i: int| 0 <= i < path_of(target).len() ==> path_of(target)[i] != '?' as u8,
        target.contains('?' as u8) ==> target == path_of(target) + seq!['?' as u8] + query_of(
            target,
        ),
        !target.contains('?' as u8) ==> path_of(target) == target && query_of(target).len() == 0,
{
    lemma_position(target, '?' as u8);
    let mark = position(target, '?' as u8);
    if target.contains('?' as u8) {
        assert(mark < target.len());
        assert(target =~= path_of(target) + seq!['?' as u8] + query_of(target));
    } else {
        if mark < target.len() {
            assert(target.contains(target[mark]));
        }
        assert(path_of(target) =~= target);
    }
}

/// Splits a request target into path and query at its first `?`.
pub fn split_target<'a>(target: &'a [u8]) -> (parts: (&'a [u8], &'a [u8]))
    ensures
        parts.0@ == path_of(target@),
        parts.1@ == query_of(target@),
{
    let len: usize = target.len();
    match find_byte('?' as u8, target) {
        Some(mark) => (slice_subrange(target, 0, mark), slice_subrange(target, mark + 1, len)),
        None => {
            let path = slice_subrange(target, 0, target.len());
            let query = slice_subrange(target, target.len(), target.len());
            assert(query@ =~= Seq::<u8>::empty());
            (path, query)
        },
    }
}

/// Parses the request line of a raw request.
///
/// Nothing is copied: the parts borrow from `request`.
pub fn parse_request<'a>(request: &'a [u8]) -> (parsed: Result<RequestLine<'a>, Error>)
    ensures
        match parsed {
            Ok(line) => request_line(request@) == Some(line@),
            Err(error) => request_line(request@).is_none(),
        },
{
    let blank: [u8; 4] = ['\r' as u8, '\n' as u8, '\r' as u8, '\n' as u8];
    let blank_line = blank.as_slice();
    assert(blank_line@ =~= sentinel());
    let end: usize = match find_bytes(request, blank_line) {
        Some(end) => end,
        None => {
            return Err(Error::InvalidRequestLine);
        },
    };
    let line = slice_subrange(request, 0, end);
    let (method, after) = match Method::parse(line) {
        Some(parsed) => parsed,
        None => {
            return Err(Error::InvalidRequestLine);
        },
    };
    let space: usize = match find_byte(' ' as u8, after) {
        Some(space) => space,
        None => {
            return Err(Error::InvalidRequestLine);
        },
    };
    let version = match HttpVersion::parse(slice_subrange(after, space + 1, after.len())) {
        Some(version) => version,
        None => {
            return Err(Error::InvalidRequestLine);
        },
    };
    let (path_bytes, query_bytes) = split_target(slice_subrange(after, 0, space));
    let query: &'a str = match as_text(query_bytes) {
        Some(query) => query,
        None => {
            return Err(Error::InvalidRequestLine);
        },
    };
    let path: &'a str = match as_text(path_bytes) {
        Some(path) => path,
        None => {
            return Err(Error::InvalidRequestLine);
        },
    };
    let len: usize = request.len();
    let head_and_body = slice_subrange(request, end + 4, len);
    Ok(RequestLine { method, path, query, version, head_and_body })
}

impl<'a> RequestLine<'a> {
    /// Puts the outcome of matching beside the other parts of the request.
    pub fn into_result<T>(self, route: Option<T>) -> (result: RouterResult<'a, T>)
        ensures
            result.route == route,
            result.query == self.query,
            result.version == self.version,
            result.head_and_body == self.head_and_body,
    {
        RouterResult {
            route,
            query: self.query,
            version: self.version,
            head_and_body: self.head_and_body,
        }
    }
}

/// A type of routes that requests can be resolved to.
///
/// An implementation decides in `handle_parsed` which route, if any, a
/// method and a path stand for. `resolve` parses a raw request and hands
/// its method and path to that decision.
pub trait Router<'de>: Sized {
    /// The route that `method` and `remaining_path` stand for, if any.
    fn handle_parsed(method: Method, remaining_path: &'de str) -> Option<Self>;

    /// Parses a raw request and finds its route.
    ///
    /// Fails exactly where the request line is not valid. Otherwise the
    /// result holds the query, the version and the bytes behind the request
    /// line, and as its route what `handle_parsed` gave for the method and
    /// the path of the request: that no route matches is no error.
    fn resolve(request: &'de [u8]) -> (resolved: Result<RouterResult<'de, Self>, Error>)
        ensures
            match resolved {
                Ok(result) => match request_line(request@) {
                    Some(line) => {
                        &&& exists|path: &'de str|
                            path.spec_bytes() == line.path && #[trigger] call_ensures(
                                Self::handle_parsed,
                                (line.method, path),
                                result.route,
                            )
                        &&& result.query.spec_bytes() == line.query
                        &&& result.version == line.version
                        &&& result.head_and_body@ == line.head_and_body
                    },
                    None => false,
                },
                Err(error) => request_line(request@).is_none(),
            },
    {
        match parse_request(request) {
            Ok(line) => {
                let route = Self::handle_parsed(line.method, line.path);
                assert(call_ensures(Self::handle_parsed, (line.method, line.path), route));
                Ok(line.into_result(route))
            },
            Err(error) => Err(error),
        }
    }
}

impl Schema {
    /// Parses a raw request and matches its method and path against the
    /// schema.
    ///
    /// Fails exactly where the request line is not valid. That no route
    /// matches is no error: the result then holds no route.
    pub fn resolve<'a>(&self, request: &'a [u8]) -> (resolved: Result<
        RouterResult<'a, Route<'a>>,
        Error,
    >)
        ensures
            match resolved {
                Ok(result) => match request_line(request@) {
                    Some(line) => {
                        &&& match result.route {
                            Some(route) => self.route_spec(line.method, line.path) == Some(
                                route@,
                            ),
                            None => self.route_spec(line.method, line.path).is_none(),
                        }
                        &&& result.query.spec_bytes() == line.query
                        &&& result.version == line.version
                        &&& result.head_and_body@ == line.head_and_body
                    },
                    None => false,
                },
                Err(error) => request_line(request@).is_none(),
            },
    {
        match parse_request(request) {
            Ok(line) => {
                let route = self.handle_parsed(line.method, line.path);
                Ok(line.into_result(route))
            },
            Err(error) => Err(error),
        }
    }
}

} // verus!
