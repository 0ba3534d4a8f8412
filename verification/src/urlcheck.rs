//! Validation of target URLs. The parsing itself is done by the `url`
//! crate; this module names its outcome and gives the rest of the
//! library a plain-value interface to it.

use vstd::prelude::*;
use crate::errors::LinkError;

verus! {

/// The canonical serialization that the `url` crate gives to `s` when it
/// parses as an absolute URL with a host, and `None` when it does not.
/// Parsing is a function of the characters alone, so the result is
/// well-defined; nothing in this crate states what it is on any
/// particular string.
pub uninterp spec fn canonical_url(s: Seq<char>) -> Option<Seq<char>>;

/// Relies on `url::Url::parse`, `url::Url::has_host` and
/// `url::Url::as_str`: `parse` accepts exactly the well-formed absolute
/// URLs and returns a value whose `as_str` is the canonical
/// serialization; `has_host` tells whether that URL names a host. The
/// composition is deterministic in `s`, which is all this contract
/// claims of it.
#[verifier::external_body]
fn canonicalize_url(s: &str) -> (r: Option<String>)
    ensures
        r matches Some(c) ==> canonical_url(s@) == Some(c@),
        (r is None) <==> (canonical_url(s@) is None),
{
    match url::Url::parse(s) {
        Ok(u) => {
            if u.has_host() {
                Some(u.as_str().to_owned())
            } else {
                None
            }
        },
        Err(_) => None,
    }
}

/// Validates a target URL. Returns its canonical form exactly when it is
/// a well-formed absolute URL with a host, and `InvalidUrl` otherwise.
pub fn validate_target(target: &str) -> (r: Result<String, LinkError>)
    ensures
        r matches Ok(c) ==> canonical_url(target@) == Some(c@),
        r matches Err(e) ==> e == LinkError::InvalidUrl && canonical_url(target@) is None,
        (r is Ok) <==> (canonical_url(target@) is Some),
{
    match canonicalize_url(target) {
        Some(c) => Ok(c),
        None => Err(LinkError::InvalidUrl),
    }
}

} // verus!
