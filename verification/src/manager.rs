//! The link manager: creation of new links with target validation, and
//! deletion by id.

use vstd::prelude::*;
use crate::errors::LinkError;
use crate::store::{has_alias, keep_other_ids, LinkView, Store};
use crate::urlcheck::{canonical_url, validate_target};

verus! {

/// Creates a link. The target must be a well-formed absolute URL, and is
/// stored in its canonical form; the alias must be fresh. Exactly one of
/// the following holds:
/// - the target does not parse: `InvalidUrl`, store unchanged;
/// - the alias is taken: `DuplicateAlias`, store unchanged;
/// - the ids are exhausted: `Storage`, store unchanged;
/// - otherwise the canonical link is appended under the next id.
pub fn create_link(store: &mut Store, alias: String, target_url: String) -> (r: Result<
    i64,
    LinkError,
>)
    requires
        old(store).wf(),
    ensures
        final(store).wf(),
        canonical_url(target_url@) is None ==> r == Err::<i64, LinkError>(LinkError::InvalidUrl)
            && final(store)@ == old(store)@ && final(store).spec_next_id() == old(
            store,
        ).spec_next_id(),
        canonical_url(target_url@) matches Some(c) ==> {
            &&& has_alias(old(store)@, alias@) ==> r == Err::<i64, LinkError>(
                LinkError::DuplicateAlias,
            ) && final(store)@ == old(store)@ && final(store).spec_next_id() == old(
                store,
            ).spec_next_id()
            &&& !has_alias(old(store)@, alias@) && old(store).spec_next_id() == i64::MAX ==> r
                == Err::<i64, LinkError>(LinkError::Storage) && final(store)@ == old(store)@
                && final(store).spec_next_id() == old(store).spec_next_id()
            &&& !has_alias(old(store)@, alias@) && old(store).spec_next_id() < i64::MAX ==> r
                == Ok::<i64, LinkError>(old(store).spec_next_id() as i64) && final(store)@ == old(
                store,
            )@.push(
                LinkView { id: old(store).spec_next_id(), alias: alias@, target_url: c },
            ) && final(store).spec_next_id() == old(store).spec_next_id() + 1
        },
    {
    match validate_target(target_url.as_str()) {
        Ok(canonical) => store.insert(alias, canonical),
        Err(e) => Err(e),
    }
}

/// Deletes the link with the given id. Succeeds whether or not such a
/// link is there; deleting an absent id changes nothing.
pub fn delete_link(store: &mut Store, id: i64)
    requires
        old(store).wf(),
    ensures
        final(store).wf(),
        final(store)@ == old(store)@.filter(keep_other_ids(id as int)),
        final(store).spec_next_id() == old(store).spec_next_id(),
{
    store.delete_by_id(id);
}

} // verus!
