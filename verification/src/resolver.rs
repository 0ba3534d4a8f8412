//! The redirect resolver: from an alias to the URL a visitor is sent to.

use vstd::prelude::*;
use crate::errors::LinkError;
use crate::store::{lookup, Store};

verus! {

/// Resolves an alias to its redirect target. Returns the stored target
/// URL of the link carrying the alias, and `NotFound` exactly when no
/// link carries it.
pub fn resolve(store: &Store, alias: &str) -> (r: Result<String, LinkError>)
    requires
        store.wf(),
    ensures
        lookup(store@, alias@) matches Some(lv) ==> r matches Ok(t) && t@ == lv.target_url,
        lookup(store@, alias@) is None ==> r == Err::<String, LinkError>(LinkError::NotFound),
{
    match store.find_by_alias(alias) {
        Ok(l) => Ok(l.target_url.clone()),
        Err(e) => Err(e),
    }
}

} // verus!
