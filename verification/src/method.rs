//! HTTP request methods and the method token of a request line.

use vstd::prelude::*;
use vstd::slice::slice_subrange;
use vstd::string::StringSliceAdditionalSpecFns;

verus! {

/// An HTTP request method.
#[derive(Eq, PartialEq, Structural, Copy, Clone, Debug)]
pub enum Method {
    /// `GET`: retrieve a resource.
    Get,
    /// `POST`: submit data for processing.
    Post,
    /// `PUT`: create or replace a resource.
    Put,
    /// `DELETE`: delete a resource.
    Delete,
    /// `HEAD`: retrieve the metadata of a resource.
    Head,
    /// `OPTIONS`: describe the communication options of a resource.
    Options,
    /// `CONNECT`: establish a tunnel.
    Connect,
    /// `TRACE`: loop a message back.
    Trace,
    /// `PATCH`: modify a resource in part.
    Patch,
}

/// The shortest text that can follow a method token and its space:
/// `/ HTTP/1.1`.
pub const MIN_AFTER_METHOD: usize = 10;

impl Method {
    /// The bytes of the method's token.
    pub open spec fn token(self) -> Seq<u8> {
        match self {
            Method::Get => seq!['G' as u8, 'E' as u8, 'T' as u8],
            Method::Post => seq!['P' as u8, 'O' as u8, 'S' as u8, 'T' as u8],
            Method::Put => seq!['P' as u8, 'U' as u8, 'T' as u8],
            Method::Delete => seq![
                'D' as u8,
                'E' as u8,
                'L' as u8,
                'E' as u8,
                'T' as u8,
                'E' as u8,
            ],
            Method::Head => seq!['H' as u8, 'E' as u8, 'A' as u8, 'D' as u8],
            Method::Options => seq![
                'O' as u8,
                'P' as u8,
                'T' as u8,
                'I' as u8,
                'O' as u8,
                'N' as u8,
                'S' as u8,
            ],
            Method::Connect => seq![
                'C' as u8,
                'O' as u8,
                'N' as u8,
                'N' as u8,
                'E' as u8,
                'C' as u8,
                'T' as u8,
            ],
            Method::Trace => seq!['T' as u8, 'R' as u8, 'A' as u8, 'C' as u8, 'E' as u8],
            Method::Patch => seq!['P' as u8, 'A' as u8, 'T' as u8, 'C' as u8, 'H' as u8],
        }
    }

    /// The number of bytes that the token and the space behind it take.
    pub open spec fn width(self) -> int {
        (self.token().len() + 1) as int
    }

    /// `line` starts with the method's token and a space, and is long
    /// enough to hold the shortest path and a protocol version behind them.
    pub open spec fn begins(self, line: Seq<u8>) -> bool {
        &&& self.width() + MIN_AFTER_METHOD <= line.len()
        &&& line.subrange(0, self.width()) == self.token().push(' ' as u8)
    }

    /// The method whose token starts `line`, with the rest of the line.
    pub open spec fn parse_spec(line: Seq<u8>) -> Option<(Method, Seq<u8>)> {
        if Method::Get.begins(line) {
            Some((Method::Get, line.skip(Method::Get.width())))
        } else if Method::Put.begins(line) {
            Some((Method::Put, line.skip(Method::Put.width())))
        } else if Method::Post.begins(line) {
            Some((Method::Post, line.skip(Method::Post.width())))
        } else if Method::Head.begins(line) {
            Some((Method::Head, line.skip(Method::Head.width())))
        } else if Method::Trace.begins(line) {
            Some((Method::Trace, line.skip(Method::Trace.width())))
        } else if Method::Patch.begins(line) {
            Some((Method::Patch, line.skip(Method::Patch.width())))
        } else if Method::Delete.begins(line) {
            Some((Method::Delete, line.skip(Method::Delete.width())))
        } else if Method::Options.begins(line) {
            Some((Method::Options, line.skip(Method::Options.width())))
        } else if Method::Connect.begins(line) {
            Some((Method::Connect, line.skip(Method::Connect.width())))
        } else {
            None
        }
    }

    /// A line that a method begins holds the first two bytes of its token.
    proof fn lemma_begins_head(self, line: Seq<u8>)
        requires
            self.begins(line),
        ensures
            line[0] == self.token()[0],
            line[1] == self.token()[1],
    {
        let head = line.subrange(0, self.width());
        assert(head[0] == line[0]);
        assert(head[1] == line[1]);
    }

    /// At most one method begins a line.
    pub proof fn lemma_begins_unique(self, other: Method, line: Seq<u8>)
        requires
            self.begins(line),
            other.begins(line),
        ensures
            self == other,
    {
        self.lemma_begins_head(line);
        other.lemma_begins_head(line);
    }

    /// A line parses to a method exactly when it starts with that method's
    /// token and a space and holds at least ten bytes behind them; what
    /// comes with the method is the line behind that space. A line that no
    /// method begins, and so every line of fewer than fourteen bytes, does
    /// not parse.
    pub proof fn lemma_parse_by_token(line: Seq<u8>, method: Method)
        ensures
            method.begins(line) <==> Method::parse_spec(line) == Some(
                (method, line.skip(method.width())),
            ),
            Method::parse_spec(line).is_none() <==> forall|m: Method| !m.begins(line),
            line.len() < 14 ==> Method::parse_spec(line).is_none(),
    {
        if method.begins(line) {
            Method::Get.lemma_parse_step(method, line);
            Method::Put.lemma_parse_step(method, line);
            Method::Post.lemma_parse_step(method, line);
            Method::Head.lemma_parse_step(method, line);
            Method::Trace.lemma_parse_step(method, line);
            Method::Patch.lemma_parse_step(method, line);
            Method::Delete.lemma_parse_step(method, line);
            Method::Options.lemma_parse_step(method, line);
            Method::Connect.lemma_parse_step(method, line);
        }
        if Method::parse_spec(line).is_none() {
            assert forall|m: Method| !m.begins(line) by {
                match m {
                    Method::Get => {},
                    Method::Post => {},
                    Method::Put => {},
                    Method::Delete => {},
                    Method::Head => {},
                    Method::Options => {},
                    Method::Connect => {},
                    Method::Trace => {},
                    Method::Patch => {},
                }
            }
        }
    }

    /// Where `method` begins a line, another method does not.
    proof fn lemma_parse_step(self, method: Method, line: Seq<u8>)
        requires
            method.begins(line),
        ensures
            self.begins(line) ==> self == method,
    {
        if self.begins(line) {
            self.lemma_begins_unique(method, line);
        }
    }

    /// The place of the method among the nine, in the order of their
    /// declaration.
    pub open spec fn index(self) -> int {
        match self {
            Method::Get => 0,
            Method::Post => 1,
            Method::Put => 2,
            Method::Delete => 3,
            Method::Head => 4,
            Method::Options => 5,
            Method::Connect => 6,
            Method::Trace => 7,
            Method::Patch => 8,
        }
    }

    /// The place of the method among the nine.
    pub fn ordinal(self) -> (place: usize)
        ensures
            place == self.index(),
            place < 9,
    {
        match self {
            Method::Get => 0,
            Method::Post => 1,
            Method::Put => 2,
            Method::Delete => 3,
            Method::Head => 4,
            Method::Options => 5,
            Method::Connect => 6,
            Method::Trace => 7,
            Method::Patch => 8,
        }
    }

    /// The name of the method as an identifier: `Get` for `GET`, and so
    /// on.
    pub fn to_ident(&self) -> (ident: &'static str)
        ensures
            ident@ == match self {
                Method::Get => "Get"@,
                Method::Post => "Post"@,
                Method::Put => "Put"@,
                Method::Delete => "Delete"@,
                Method::Head => "Head"@,
                Method::Options => "Options"@,
                Method::Connect => "Connect"@,
                Method::Trace => "Trace"@,
                Method::Patch => "Patch"@,
            },
    {
        match self {
            Method::Get => "Get",
            Method::Post => "Post",
            Method::Put => "Put",
            Method::Delete => "Delete",
            Method::Head => "Head",
            Method::Options => "Options",
            Method::Connect => "Connect",
            Method::Trace => "Trace",
            Method::Patch => "Patch",
        }
    }

    /// The number of bytes in the method's token.
    pub fn token_len(self) -> (len: usize)
        ensures
            len == self.token().len(),
            3 <= len <= 7,
    {
        match self {
            Method::Get | Method::Put => 3,
            Method::Post | Method::Head => 4,
            Method::Trace | Method::Patch => 5,
            Method::Delete => 6,
            Method::Options | Method::Connect => 7,
        }
    }

    /// The byte at offset `at` of the method's token.
    fn token_byte(self, at: usize) -> (byte: u8)
        requires
            at < self.token().len(),
        ensures
            byte == self.token()[at as int],
    {
        match self {
            Method::Get => {
                let token: [u8; 3] = ['G' as u8, 'E' as u8, 'T' as u8];
                token[at]
            },
            Method::Post => {
                let token: [u8; 4] = ['P' as u8, 'O' as u8, 'S' as u8, 'T' as u8];
                token[at]
            },
            Method::Put => {
                let token: [u8; 3] = ['P' as u8, 'U' as u8, 'T' as u8];
                token[at]
            },
            Method::Delete => {
                let token: [u8; 6] = [
                    'D' as u8,
                    'E' as u8,
                    'L' as u8,
                    'E' as u8,
                    'T' as u8,
                    'E' as u8,
                ];
                token[at]
            },
            Method::Head => {
                let token: [u8; 4] = ['H' as u8, 'E' as u8, 'A' as u8, 'D' as u8];
                token[at]
            },
            Method::Options => {
                let token: [u8; 7] = [
                    'O' as u8,
                    'P' as u8,
                    'T' as u8,
                    'I' as u8,
                    'O' as u8,
                    'N' as u8,
                    'S' as u8,
                ];
                token[at]
            },
            Method::Connect => {
                let token: [u8; 7] = [
                    'C' as u8,
                    'O' as u8,
                    'N' as u8,
                    'N' as u8,
                    'E' as u8,
                    'C' as u8,
                    'T' as u8,
                ];
                token[at]
            },
            Method::Trace => {
                let token: [u8; 5] = ['T' as u8, 'R' as u8, 'A' as u8, 'C' as u8, 'E' as u8];
                token[at]
            },
            Method::Patch => {
                let token: [u8; 5] = ['P' as u8, 'A' as u8, 'T' as u8, 'C' as u8, 'H' as u8];
                token[at]
            },
        }
    }

    /// Tests whether `line` starts with the method's token and a space and
    /// is long enough for what must follow.
    fn starts(self, line: &[u8]) -> (yes: bool)
        ensures
            yes == self.begins(line@),
    {
        let len: usize = self.token_len();
        if line.len() < len + 1 + MIN_AFTER_METHOD {
            return false;
        }
        let mut at: usize = 0;
        while at < len
            invariant
                at <= len,
                len == self.token().len(),
                len + 1 + MIN_AFTER_METHOD <= line@.len(),
                forall|j: int| 0 <= j < at ==> line@[j] == self.token()[j],
            decreases len - at,
        {
            if line[at] != self.token_byte(at) {
                proof {
                    let head = line@.subrange(0, self.width());
                    assert(head[at as int] == line@[at as int]);
                    assert(self.token().push(' ' as u8)[at as int] == self.token()[at as int]);
                }
                return false;
            }
            at += 1;
        }
        let spaced: bool = line[len] == ' ' as u8;
        proof {
            let head = line@.subrange(0, self.width());
            let want = self.token().push(' ' as u8);
            if spaced {
                assert(head =~= want);
            } else {
                assert(head[len as int] == line@[len as int]);
                assert(want[len as int] == ' ' as u8);
            }
        }
        spaced
    }

    /// The bytes of the name by which a schema binds a path to the method:
    /// the token in lower case.
    pub open spec fn attribute(self) -> Seq<u8> {
        self.token().map_values(|b: u8| (b + 32) as u8)
    }

    /// The method that a schema names `name`: `get`, `post`, `put`,
    /// `delete`, `head`, `options`, `connect`, `trace` or `patch`.
    pub open spec fn from_attribute_spec(name: Seq<u8>) -> Option<Method> {
        if name == Method::Get.attribute() {
            Some(Method::Get)
        } else if name == Method::Post.attribute() {
            Some(Method::Post)
        } else if name == Method::Put.attribute() {
            Some(Method::Put)
        } else if name == Method::Delete.attribute() {
            Some(Method::Delete)
        } else if name == Method::Head.attribute() {
            Some(Method::Head)
        } else if name == Method::Options.attribute() {
            Some(Method::Options)
        } else if name == Method::Connect.attribute() {
            Some(Method::Connect)
        } else if name == Method::Trace.attribute() {
            Some(Method::Trace)
        } else if name == Method::Patch.attribute() {
            Some(Method::Patch)
        } else {
            None
        }
    }

    /// Every method is the method that its own name stands for.
    pub proof fn lemma_attribute_names(method: Method)
        ensures
            Method::from_attribute_spec(method.attribute()) == Some(method),
    {
        let name = method.attribute();
        assert(name.len() == method.token().len());
        assert(name[0] == (method.token()[0] + 32) as u8);
        assert(name[1] == (method.token()[1] + 32) as u8);
        assert(Method::Get.attribute()[0] == 'g' as u8);
        assert(Method::Post.attribute()[1] == 'o' as u8);
        assert(Method::Put.attribute()[1] == 'u' as u8);
        assert(Method::Delete.attribute()[0] == 'd' as u8);
        assert(Method::Head.attribute()[0] == 'h' as u8);
        assert(Method::Options.attribute()[0] == 'o' as u8);
        assert(Method::Connect.attribute()[0] == 'c' as u8);
        assert(Method::Trace.attribute()[0] == 't' as u8);
        assert(Method::Patch.attribute()[1] == 'a' as u8);
    }

    /// Tests whether `name` is the method's token in lower case.
    fn is_named(self, name: &[u8]) -> (yes: bool)
        ensures
            yes == (name@ == self.attribute()),
    {
        let len: usize = self.token_len();
        if name.len() != len {
            return false;
        }
        let mut at: usize = 0;
        while at < len
            invariant
                at <= len,
                len == self.token().len(),
                len == name@.len(),
                forall|j: int| 0 <= j < at ==> name@[j] == self.attribute()[j],
            decreases len - at,
        {
            if name[at] != self.token_byte(at) + 32 {
                return false;
            }
            at += 1;
        }
        assert(name@ =~= self.attribute());
        true
    }

    /// The method that a schema names `name`.
    pub fn from_attribute(name: &str) -> (method: Option<Method>)
        ensures
            method == Method::from_attribute_spec(name.spec_bytes()),
    {
        let bytes = name.as_bytes();
        if Method::Get.is_named(bytes) {
            Some(Method::Get)
        } else if Method::Post.is_named(bytes) {
            Some(Method::Post)
        } else if Method::Put.is_named(bytes) {
            Some(Method::Put)
        } else if Method::Delete.is_named(bytes) {
            Some(Method::Delete)
        } else if Method::Head.is_named(bytes) {
            Some(Method::Head)
        } else if Method::Options.is_named(bytes) {
            Some(Method::Options)
        } else if Method::Connect.is_named(bytes) {
            Some(Method::Connect)
        } else if Method::Trace.is_named(bytes) {
            Some(Method::Trace)
        } else if Method::Patch.is_named(bytes) {
            Some(Method::Patch)
        } else {
            None
        }
    }

    /// Parses the method token at the start of a request line.
    ///
    /// Returns the method and the bytes behind the token's space. The line
    /// must hold, behind the space, at least as many bytes as the shortest
    /// path and a protocol version take.
    pub fn parse(request_line: &[u8]) -> (parsed: Option<(Method, &[u8])>)
        ensures
            match parsed {
                Some((method, rest)) => Method::parse_spec(request_line@) == Some(
                    (method, rest@),
                ),
                None => Method::parse_spec(request_line@).is_none(),
            },
    {
        if request_line.len() < 14 {
            return None;
        }
        if Method::Get.starts(request_line) {
            return Some((Method::Get, slice_subrange(request_line, 4, request_line.len())));
        }
        if Method::Put.starts(request_line) {
            return Some((Method::Put, slice_subrange(request_line, 4, request_line.len())));
        }
        if Method::Post.starts(request_line) {
            return Some((Method::Post, slice_subrange(request_line, 5, request_line.len())));
        }
        if Method::Head.starts(request_line) {
            return Some((Method::Head, slice_subrange(request_line, 5, request_line.len())));
        }
        if Method::Trace.starts(request_line) {
            return Some((Method::Trace, slice_subrange(request_line, 6, request_line.len())));
        }
        if Method::Patch.starts(request_line) {
            return Some((Method::Patch, slice_subrange(request_line, 6, request_line.len())));
        }
        if Method::Delete.starts(request_line) {
            return Some((Method::Delete, slice_subrange(request_line, 7, request_line.len())));
        }
        if Method::Options.starts(request_line) {
            return Some((Method::Options, slice_subrange(request_line, 8, request_line.len())));
        }
        if Method::Connect.starts(request_line) {
            return Some((Method::Connect, slice_subrange(request_line, 8, request_line.len())));
        }
        None
    }
}

} // verus!
