//! The prefix that every path of a schema must start with.

use crate::leaf::SchemaError;
use crate::scan::{holds_at, occurs_at};
use vstd::prelude::*;
use vstd::slice::{slice_subrange, slice_to_vec};
use vstd::string::StringSliceAdditionalSpecFns;

verus! {

/// The literal text, if any, that every path of a schema starts with.
#[derive(Debug, PartialEq, Eq)]
pub struct Prefix {
    value: Option<Vec<u8>>,
}

impl View for Prefix {
    type V = Option<Seq<u8>>;

    closed spec fn view(&self) -> Option<Seq<u8>> {
        match self.value {
            Some(text) => Some(text@),
            None => None,
        }
    }
}

/// What is left of `path` behind `prefix`, or `None` where the path does
/// not start with it. Without a prefix the whole path is left.
pub open spec fn strip_prefix(prefix: Option<Seq<u8>>, path: Seq<u8>) -> Option<Seq<u8>> {
    match prefix {
        None => Some(path),
        Some(text) => if occurs_at(path, text, 0) {
            Some(path.skip(text.len() as int))
        } else {
            None
        },
    }
}

/// A prefix may be declared where it starts with `/`.
pub open spec fn is_prefix_text(text: Seq<u8>) -> bool {
    text.len() > 0 && text[0] == '/' as u8
}

/// What is wrong with a declared prefix, if anything is: it does not start
/// with `/`.
pub open spec fn prefix_error(declared: Option<Seq<u8>>) -> Option<SchemaError> {
    if declared.is_some() && !is_prefix_text(declared.unwrap()) {
        Some(SchemaError::PrefixWithoutSlash)
    } else {
        None
    }
}

impl Prefix {
    /// No prefix: paths are matched as they stand.
    pub fn none() -> (prefix: Prefix)
        ensures
            prefix@.is_none(),
    {
        Prefix { value: None }
    }

    /// Tests a declared prefix.
    ///
    /// A schema may go without a prefix. One that is declared must start
    /// with `/`, and is in error where it does not.
    pub fn check(declared: Option<&str>) -> (error: Option<SchemaError>)
        ensures
            error == prefix_error(
                match declared {
                    Some(text) => Some(text.spec_bytes()),
                    None => None,
                },
            ),
    {
        match declared {
            None => None,
            Some(text) => {
                let bytes = text.as_bytes();
                if bytes.len() > 0 && bytes[0] == '/' as u8 {
                    None
                } else {
                    Some(SchemaError::PrefixWithoutSlash)
                }
            },
        }
    }

    /// Reads the declared prefix of a schema, which must not be in error.
    pub fn parse(declared: Option<&str>) -> (prefix: Prefix)
        requires
            declared.is_some() ==> is_prefix_text(declared.unwrap().spec_bytes()),
        ensures
            prefix@ == match declared {
                Some(text) => Some(text.spec_bytes()),
                None => None,
            },
    {
        match declared {
            None => Prefix { value: None },
            Some(text) => Prefix { value: Some(slice_to_vec(text.as_bytes())) },
        }
    }

    /// Tests a declared prefix and, where it is not in error, reads it.
    pub fn try_parse(declared: Option<&str>) -> (prefix: Result<Prefix, SchemaError>)
        ensures
            match prefix {
                Ok(read) => {
                    &&& prefix_error(
                        match declared {
                            Some(text) => Some(text.spec_bytes()),
                            None => None,
                        },
                    ).is_none()
                    &&& read@ == match declared {
                        Some(text) => Some(text.spec_bytes()),
                        None => None,
                    }
                },
                Err(error) => prefix_error(
                    match declared {
                        Some(text) => Some(text.spec_bytes()),
                        None => None,
                    },
                ) == Some(error),
            },
    {
        match Prefix::check(declared) {
            Some(error) => Err(error),
            None => Ok(Prefix::parse(declared)),
        }
    }

    /// Takes the prefix off the front of `path`.
    ///
    /// Returns the rest of the path, borrowed from it, or `None` where the
    /// path does not start with the prefix.
    pub fn strip<'a>(&self, path: &'a [u8]) -> (rest: Option<&'a [u8]>)
        ensures
            match rest {
                Some(left) => strip_prefix(self@, path@) == Some(left@),
                None => strip_prefix(self@, path@).is_none(),
            },
    {
        match &self.value {
            None => Some(path),
            Some(text) => {
                if holds_at(path, 0, text.as_slice()) {
                    Some(slice_subrange(path, text.len(), path.len()))
                } else {
                    None
                }
            },
        }
    }
}

} // verus!
