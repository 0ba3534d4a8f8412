//! The error kinds of the shortener and their mapping to HTTP status codes.

use vstd::prelude::*;

verus! {

/// Everything that can go wrong when serving a request.
#[derive(Clone, Copy, Debug, PartialEq, Eq, Structural)]
pub enum LinkError {
    /// An alias that is not in the store was looked up.
    NotFound,
    /// An insert would reuse an alias that is already taken.
    DuplicateAlias,
    /// The target of a new link is not a well-formed absolute URL.
    InvalidUrl,
    /// The backing store itself failed (for example, ids are exhausted).
    Storage,
}

impl LinkError {
    /// The HTTP status code that a request failing with this error reports:
    /// 404 for an unknown alias, 400 for client mistakes on create,
    /// 500 for store failures.
    pub fn status(&self) -> (s: u16)
        ensures
            s == self.spec_status(),
    {
        match self {
            LinkError::NotFound => 404,
            LinkError::DuplicateAlias => 400,
            LinkError::InvalidUrl => 400,
            LinkError::Storage => 500,
        }
    }

    pub open spec fn spec_status(self) -> u16 {
        match self {
            LinkError::NotFound => 404u16,
            LinkError::DuplicateAlias => 400u16,
            LinkError::InvalidUrl => 400u16,
            LinkError::Storage => 500u16,
        }
    }

    /// A short human-readable message, used as the body of error responses.
    pub fn message(&self) -> (m: String)
        ensures
            m@ == self.spec_message(),
    {
        match self {
            LinkError::NotFound => "Error: no link with this alias".to_owned(),
            LinkError::DuplicateAlias => "Error: alias is already taken".to_owned(),
            LinkError::InvalidUrl => "Error: target is not an absolute URL".to_owned(),
            LinkError::Storage => "Error: the link store failed".to_owned(),
        }
    }

    pub open spec fn spec_message(self) -> Seq<char> {
        match self {
            LinkError::NotFound => "Error: no link with this alias"@,
            LinkError::DuplicateAlias => "Error: alias is already taken"@,
            LinkError::InvalidUrl => "Error: target is not an absolute URL"@,
            LinkError::Storage => "Error: the link store failed"@,
        }
    }
}

} // verus!
