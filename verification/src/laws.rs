//! The laws of the store model: properties that relate insertion,
//! lookup and deletion, proved once and for all over the views that the
//! operations' contracts speak of.

use vstd::prelude::*;
use vstd::seq_lib::*;
use crate::store::{has_alias, keep_other_ids, lemma_filter_identity, lemma_lookup_has_alias,
    links_wf, lookup, LinkView};

verus! {

/// The links carrying a given alias.
pub open spec fn with_alias(alias: Seq<char>) -> spec_fn(LinkView) -> bool {
    |l: LinkView| l.alias == alias
}

/// Filtering with a predicate that no element meets leaves nothing.
pub proof fn lemma_filter_none<A>(s: Seq<A>, pred: spec_fn(A) -> bool)
    requires
        forall|i: int| 0 <= i < s.len() ==> !pred(#[trigger] s[i]),
    ensures
        s.filter(pred) == Seq::<A>::empty(),
    decreases s.len(),
{
    reveal(Seq::filter);
    if s.len() > 0 {
        lemma_filter_none(s.drop_last(), pred);
        assert(!pred(s.last()));
    }
}

/// Law: a link inserted under a fresh alias is found again by a lookup
/// of that alias, with the same target URL (the round trip).
pub proof fn lemma_insert_then_lookup(s: Seq<LinkView>, id: int, alias: Seq<char>, target: Seq<
    char,
>)
    requires
        !has_alias(s, alias),
    ensures
        lookup(s.push(LinkView { id, alias, target_url: target }), alias) == Some(
            LinkView { id, alias, target_url: target },
        ),
    decreases s.len(),
{
    let link = LinkView { id, alias, target_url: target };
    let t = s.push(link);
    if s.len() == 0 {
        assert(t[0] == link);
    } else {
        assert(s[0].alias != alias);
        assert(t[0] == s[0]);
        assert(t.drop_first() =~= s.drop_first().push(link));
        assert forall|i: int| 0 <= i < s.drop_first().len() implies (
        #[trigger] s.drop_first()[i]).alias != alias by {
            assert(s.drop_first()[i] == s[i + 1]);
        }
        lemma_insert_then_lookup(s.drop_first(), id, alias, target);
    }
}

/// Law: a well-formed store holds at most one link per alias, and holds
/// exactly one for an alias that it has. In particular, after a failed
/// duplicate insert the store still holds exactly one link under the
/// contested alias.
pub proof fn lemma_alias_count(s: Seq<LinkView>, next: int, alias: Seq<char>)
    requires
        links_wf(s, next),
    ensures
        s.filter(with_alias(alias)).len() <= 1,
        has_alias(s, alias) ==> s.filter(with_alias(alias)).len() == 1,
    decreases s.len(),
{
    reveal(Seq::filter);
    let pred = with_alias(alias);
    if s.len() == 0 {
    } else {
        let t = s.drop_last();
        let x = s.last();
        assert forall|i: int, j: int|
            0 <= i < t.len() && 0 <= j < t.len() && i != j implies (#[trigger] t[i]).alias != (
        #[trigger] t[j]).alias by {
            assert(t[i] == s[i]);
            assert(t[j] == s[j]);
        }
        assert(links_wf(t, next));
        if pred(x) {
            assert forall|i: int| 0 <= i < t.len() implies !pred(#[trigger] t[i]) by {
                assert(t[i] == s[i]);
                assert(s[i].alias != s[s.len() - 1].alias);
            }
            lemma_filter_none(t, pred);
            assert(s.filter(pred).len() == 1);
        } else {
            lemma_alias_count(t, next, alias);
            if has_alias(s, alias) {
                let i = choose|i: int| 0 <= i < s.len() && #[trigger] s[i].alias == alias;
                assert(x.alias != alias);
                assert(i < s.len() - 1);
                assert(t[i] == s[i]);
                assert(has_alias(t, alias));
            }
        }
    }
}

/// Law: looking up an alias that no link carries finds nothing, so a
/// resolve of a never-inserted alias reports `NotFound`.
pub proof fn lemma_lookup_fresh(s: Seq<LinkView>, alias: Seq<char>)
    requires
        !has_alias(s, alias),
    ensures
        lookup(s, alias) is None,
{
    lemma_lookup_has_alias(s, alias);
}

/// Law: after a delete of an id, no remaining link carries that id;
/// every link with another id survives; and deleting an id that no link
/// carries changes nothing.
pub proof fn lemma_delete_removes(s: Seq<LinkView>, id: int)
    ensures
        forall|j: int|
            0 <= j < s.filter(keep_other_ids(id)).len() ==> (#[trigger] s.filter(
                keep_other_ids(id),
            )[j]).id != id,
        forall|i: int|
            0 <= i < s.len() && (#[trigger] s[i]).id != id ==> s.filter(
                keep_other_ids(id),
            ).contains(s[i]),
        (forall|i: int| 0 <= i < s.len() ==> (#[trigger] s[i]).id != id) ==> s.filter(
            keep_other_ids(id),
        ) == s,
{
    let pred = keep_other_ids(id);
    assert forall|j: int| 0 <= j < s.filter(pred).len() implies (#[trigger] s.filter(pred)[j]).id
        != id by {
        s.lemma_filter_pred(pred, j);
    }
    assert forall|i: int| 0 <= i < s.len() && (#[trigger] s[i]).id != id implies s.filter(
        pred,
    ).contains(s[i]) by {
        s.lemma_filter_contains(pred, i);
    }
    if forall|i: int| 0 <= i < s.len() ==> (#[trigger] s[i]).id != id {
        lemma_filter_identity(s, pred);
    }
}

} // verus!
