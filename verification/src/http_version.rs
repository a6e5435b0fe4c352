//! The protocol version of a request line.

use vstd::prelude::*;

verus! {

/// A version of the HTTP protocol.
#[derive(Eq, PartialEq, Structural, Copy, Clone, Debug)]
pub enum HttpVersion {
    /// HTTP/1.0.
    OneZero,
    /// HTTP/1.1.
    OneOne,
}

impl HttpVersion {
    /// The bytes that name the version in a request line.
    pub open spec fn token(self) -> Seq<u8> {
        let minor = match self {
            HttpVersion::OneZero => '0' as u8,
            HttpVersion::OneOne => '1' as u8,
        };
        seq![
            'H' as u8,
            'T' as u8,
            'T' as u8,
            'P' as u8,
            '/' as u8,
            '1' as u8,
            '.' as u8,
            minor,
        ]
    }

    /// The version that `text` names, if it names one.
    pub open spec fn parse_spec(text: Seq<u8>) -> Option<HttpVersion> {
        if text == HttpVersion::OneOne.token() {
            Some(HttpVersion::OneOne)
        } else if text == HttpVersion::OneZero.token() {
            Some(HttpVersion::OneZero)
        } else {
            None
        }
    }

    /// Parses a protocol version.
    ///
    /// The whole of `remaining_request_line` must be `HTTP/1.1` or
    /// `HTTP/1.0`: a longer, shorter or other text names no version.
    pub fn parse(remaining_request_line: &[u8]) -> (version: Option<HttpVersion>)
        ensures
            version == HttpVersion::parse_spec(remaining_request_line@),
            version.is_some() ==> remaining_request_line@.len() == 8,
    {
        let text = remaining_request_line;
        if text.len() != 8 {
            return None;
        }
        let stem: bool = text[0] == 'H' as u8 && text[1] == 'T' as u8 && text[2] == 'T' as u8
            && text[3] == 'P' as u8 && text[4] == '/' as u8 && text[5] == '1' as u8 && text[6]
            == '.' as u8;
        if stem && text[7] == '1' as u8 {
            assert(text@ =~= HttpVersion::OneOne.token());
            Some(HttpVersion::OneOne)
        } else if stem && text[7] == '0' as u8 {
            assert(text@ =~= HttpVersion::OneZero.token());
            Some(HttpVersion::OneZero)
        } else {
            None
        }
    }

    /// A text names a version exactly when it is that version's token, and
    /// the two tokens are the only texts that name one.
    pub proof fn lemma_parse_exact(text: Seq<u8>, version: HttpVersion)
        ensures
            HttpVersion::parse_spec(text) == Some(version) <==> text == version.token(),
            HttpVersion::parse_spec(text).is_none() <==> (text != HttpVersion::OneZero.token()
                && text != HttpVersion::OneOne.token()),
    {
        assert(HttpVersion::OneZero.token()[7] != HttpVersion::OneOne.token()[7]);
    }
}

} // verus!
