//! The link store: an ordered collection of alias -> target-URL links,
//! keyed by an auto-assigned id, with aliases kept unique.

use vstd::prelude::*;
use vstd::seq_lib::*;
use crate::errors::LinkError;

verus! {

/// One persisted mapping from an alias to a target URL.
pub struct Link {
    pub id: i64,
    pub alias: String,
    pub target_url: String,
}

/// The mathematical value of a `Link`.
#[verifier::ext_equal]
pub ghost struct LinkView {
    pub id: int,
    pub alias: Seq<char>,
    pub target_url: Seq<char>,
}

impl View for Link {
    type V = LinkView;

    open spec fn view(&self) -> LinkView {
        LinkView { id: self.id as int, alias: self.alias@, target_url: self.target_url@ }
    }
}

impl Link {
    /// A field-for-field copy of this link.
    pub fn duplicate(&self) -> (r: Link)
        ensures
            r@ == self@,
    {
        Link { id: self.id, alias: self.alias.clone(), target_url: self.target_url.clone() }
    }
}

/// True of an alias that some link in `s` carries.
pub open spec fn has_alias(s: Seq<LinkView>, alias: Seq<char>) -> bool {
    exists|i: int| 0 <= i < s.len() && #[trigger] s[i].alias == alias
}

/// The first link in `s` carrying `alias`, if any. Under `links_wf`
/// there is at most one such link, so "first" is no restriction.
pub open spec fn lookup(s: Seq<LinkView>, alias: Seq<char>) -> Option<LinkView>
    decreases s.len(),
{
    if s.len() == 0 {
        None
    } else if s[0].alias == alias {
        Some(s[0])
    } else {
        lookup(s.drop_first(), alias)
    }
}

/// Well-formedness of a link sequence against the next id to assign:
/// every id is at least 1 and below `next`, ids grow along the sequence
/// (insertion order), and no alias occurs twice.
pub open spec fn links_wf(s: Seq<LinkView>, next: int) -> bool {
    &&& forall|i: int| 0 <= i < s.len() ==> 1 <= #[trigger] s[i].id < next
    &&& forall|i: int, j: int| 0 <= i < j < s.len() ==> #[trigger] s[i].id < #[trigger] s[j].id
    &&& forall|i: int, j: int|
        0 <= i < s.len() && 0 <= j < s.len() && i != j ==> #[trigger] s[i].alias
            != #[trigger] s[j].alias
}

/// `lookup` finds a link exactly when `has_alias` says one is there,
/// and what it finds is a link of the sequence carrying the alias.
pub proof fn lemma_lookup_has_alias(s: Seq<LinkView>, alias: Seq<char>)
    ensures
        (lookup(s, alias) is Some) <==> has_alias(s, alias),
        lookup(s, alias) matches Some(lv) ==> exists|i: int|
            0 <= i < s.len() && #[trigger] s[i] == lv && lv.alias == alias,
    decreases s.len(),
{
    if s.len() > 0 {
        if s[0].alias == alias {
            assert(has_alias(s, alias));
        } else {
            lemma_lookup_has_alias(s.drop_first(), alias);
            if has_alias(s, alias) {
                let i = choose|i: int| 0 <= i < s.len() && #[trigger] s[i].alias == alias;
                assert(s.drop_first()[i - 1] == s[i]);
                assert(has_alias(s.drop_first(), alias));
            }
            match lookup(s.drop_first(), alias) {
                Some(lv) => {
                    let i = choose|i: int|
                        0 <= i < s.drop_first().len() && #[trigger] s.drop_first()[i] == lv
                            && lv.alias == alias;
                    assert(s[i + 1] == lv);
                },
                None => {},
            }
        }
    }
}

/// When aliases are unique, `lookup` returns exactly the link standing
/// at any index whose alias matches.
pub proof fn lemma_lookup_at_index(s: Seq<LinkView>, alias: Seq<char>, i: int)
    requires
        forall|p: int, q: int|
            0 <= p < s.len() && 0 <= q < s.len() && p != q ==> #[trigger] s[p].alias
                != #[trigger] s[q].alias,
        0 <= i < s.len(),
        s[i].alias == alias,
    ensures
        lookup(s, alias) == Some(s[i]),
    decreases s.len(),
{
    if i == 0 {
    } else {
        assert(s[0].alias != alias);
        assert(s.drop_first()[i - 1] == s[i]);
        assert(forall|p: int, q: int|
            0 <= p < s.drop_first().len() && 0 <= q < s.drop_first().len() && p != q
                ==> #[trigger] s.drop_first()[p].alias != #[trigger] s.drop_first()[q].alias);
        lemma_lookup_at_index(s.drop_first(), alias, i - 1);
    }
}

/// The store itself: links in insertion order plus the next id to hand out.
pub struct Store {
    links: Vec<Link>,
    next_id: i64,
}

impl Store {
    /// The store's contents as a sequence of link values, in insertion order.
    pub closed spec fn view(&self) -> Seq<LinkView> {
        self.links@.map_values(|l: Link| l@)
    }

    /// The id the next successful insert will assign.
    pub closed spec fn spec_next_id(&self) -> int {
        self.next_id as int
    }

    /// The store's invariant.
    pub open spec fn wf(&self) -> bool {
        1 <= self.spec_next_id() <= i64::MAX && links_wf(self@, self.spec_next_id())
    }

    /// An empty store; ids start at 1.
    pub fn new() -> (s: Store)
        ensures
            s.wf(),
            s@ == Seq::<LinkView>::empty(),
            s.spec_next_id() == 1,
    {
        let s = Store { links: Vec::new(), next_id: 1 };
        proof {
            assert(s@ =~= Seq::<LinkView>::empty());
        }
        s
    }

    /// All links, in insertion order (ids ascending).
    pub fn list(&self) -> (r: &Vec<Link>)
        ensures
            r@.map_values(|l: Link| l@) == self@,
    {
        &self.links
    }

    /// The index of the link carrying `alias`, if one is there.
    fn index_of_alias(&self, alias: &str) -> (r: Option<usize>)
        ensures
            r matches Some(i) ==> i < self@.len() && self@[i as int].alias == alias@,
            r is None ==> !has_alias(self@, alias@),
    {
        let n = self.links.len();
        let mut i: usize = 0;
        while i < n
            invariant
                n == self@.len(),
                n == self.links@.len(),
                0 <= i <= n,
                forall|k: int| 0 <= k < i ==> #[trigger] self@[k].alias != alias@,
            decreases n - i,
        {
            if crate::util::str_eq(self.links[i].alias.as_str(), alias) {
                return Some(i);
            }
            i = i + 1;
        }
        None
    }

    /// Looks an alias up. Returns the link carrying it, and `NotFound`
    /// exactly when no link does.
    pub fn find_by_alias(&self, alias: &str) -> (r: Result<&Link, LinkError>)
        requires
            self.wf(),
        ensures
            r matches Ok(l) ==> lookup(self@, alias@) == Some(l@),
            r matches Err(e) ==> e == LinkError::NotFound && lookup(self@, alias@) is None,
            (r is Ok) <==> has_alias(self@, alias@),
    {
        proof {
            lemma_lookup_has_alias(self@, alias@);
        }
        match self.index_of_alias(alias) {
            Some(i) => {
                proof {
                    lemma_lookup_at_index(self@, alias@, i as int);
                }
                Ok(&self.links[i])
            },
            None => Err(LinkError::NotFound),
        }
    }

    /// Inserts a new link. Fails with `DuplicateAlias`, leaving the store
    /// unchanged, exactly when the alias is already taken; fails with
    /// `Storage`, likewise without effect, exactly when the ids are
    /// exhausted. Otherwise appends the link under the next id.
    pub fn insert(&mut self, alias: String, target_url: String) -> (r: Result<i64, LinkError>)
        requires
            old(self).wf(),
        ensures
            final(self).wf(),
            has_alias(old(self)@, alias@) ==> r == Err::<i64, LinkError>(LinkError::DuplicateAlias)
                && final(self)@ == old(self)@ && final(self).spec_next_id() == old(
                self,
            ).spec_next_id(),
            !has_alias(old(self)@, alias@) && old(self).spec_next_id() == i64::MAX ==> r == Err::<
                i64,
                LinkError,
            >(LinkError::Storage) && final(self)@ == old(self)@ && final(self).spec_next_id()
                == old(self).spec_next_id(),
            !has_alias(old(self)@, alias@) && old(self).spec_next_id() < i64::MAX ==> r == Ok::<
                i64,
                LinkError,
            >(old(self).spec_next_id() as i64) && final(self)@ == old(self)@.push(
                LinkView {
                    id: old(self).spec_next_id(),
                    alias: alias@,
                    target_url: target_url@,
                },
            ) && final(self).spec_next_id() == old(self).spec_next_id() + 1,
    {
        match self.index_of_alias(alias.as_str()) {
            Some(_) => Err(LinkError::DuplicateAlias),
            None => {
                if self.next_id == i64::MAX {
                    Err(LinkError::Storage)
                } else {
                    let id = self.next_id;
                    let ghost prev = self@;
                    let link = Link { id, alias, target_url };
                    self.links.push(link);
                    self.next_id = id + 1;
                    proof {
                        assert(self@ =~= prev.push(link@));
                        assert forall|i: int, j: int| 0 <= i < j < self@.len() implies #[trigger] self@[i].id
                            < #[trigger] self@[j].id by {
                            if j < self@.len() - 1 {
                                assert(prev[i].id < prev[j].id);
                            } else {
                                assert(self@[i] == prev[i]);
                            }
                        }
                    }
                    Ok(id)
                }
            },
        }
    }

    /// Removes the link with the given id, if one is there; removing an
    /// absent id changes nothing. Never fails.
    pub fn delete_by_id(&mut self, id: i64)
        requires
            old(self).wf(),
        ensures
            final(self).wf(),
            final(self)@ == old(self)@.filter(keep_other_ids(id as int)),
            final(self).spec_next_id() == old(self).spec_next_id(),
    {
        let n = self.links.len();
        let mut i: usize = 0;
        while i < n
            invariant
                self.wf(),
                self@ == old(self)@,
                self.spec_next_id() == old(self).spec_next_id(),
                n == self@.len(),
                n == self.links@.len(),
                0 <= i <= n,
                forall|k: int| 0 <= k < i ==> #[trigger] self@[k].id != id as int,
            decreases n - i,
        {
            if self.links[i].id == id {
                let ghost prev = self@;
                let ghost iv = i as int;
                self.links.remove(i);
                proof {
                    reveal(Seq::filter);
                    let pred = keep_other_ids(id as int);
                    let pre = prev.subrange(0, iv);
                    let mid = seq![prev[iv]];
                    let suf = prev.subrange(iv + 1, prev.len() as int);
                    assert(self@ =~= pre + suf);
                    assert forall|k: int| 0 <= k < pre.len() implies pred(#[trigger] pre[k]) by {
                        assert(pre[k] == prev[k]);
                        assert(prev[k].id != id as int);
                        assert(pre[k].id != id as int);
                    }
                    assert forall|k: int| 0 <= k < suf.len() implies pred(#[trigger] suf[k]) by {
                        assert(suf[k] == prev[k + iv + 1]);
                        assert(prev[iv].id == id as int);
                        assert(links_wf(prev, old(self).spec_next_id()));
                        assert(prev[iv].id < prev[k + iv + 1].id);
                        assert(suf[k].id != id as int);
                    }
                    lemma_filter_identity(pre, pred);
                    lemma_filter_identity(suf, pred);
                    Seq::filter_distributes_over_add(pre, mid + suf, pred);
                    Seq::filter_distributes_over_add(mid, suf, pred);
                    assert(mid.drop_last() =~= Seq::<LinkView>::empty());
                    assert(Seq::<LinkView>::empty().filter(pred) =~= Seq::<LinkView>::empty());
                    assert(!pred(mid.last()));
                    assert(mid.filter(pred) =~= Seq::<LinkView>::empty());
                    assert(prev =~= pre + (mid + suf));
                    assert(prev.filter(pred) == pre.filter(pred) + (mid.filter(pred)
                        + suf.filter(pred)));
                    assert(self@ =~= prev.filter(pred));
                    assert forall|a: int| 0 <= a < self@.len() implies 1 <= (#[trigger] self@[a]).id
                        < self.spec_next_id() by {
                        if a < iv {
                            assert(self@[a] == prev[a]);
                        } else {
                            assert(self@[a] == prev[a + 1]);
                        }
                    }
                    assert forall|a: int, b: int| 0 <= a < b < self@.len() implies (
                    #[trigger] self@[a]).id < (#[trigger] self@[b]).id by {
                        let a0 = if a < iv { a } else { a + 1 };
                        let b0 = if b < iv { b } else { b + 1 };
                        assert(self@[a] == prev[a0]);
                        assert(self@[b] == prev[b0]);
                        assert(prev[a0].id < prev[b0].id);
                    }
                    assert forall|a: int, b: int|
                        0 <= a < self@.len() && 0 <= b < self@.len() && a != b implies (
                    #[trigger] self@[a]).alias != (#[trigger] self@[b]).alias by {
                        let a0 = if a < iv { a } else { a + 1 };
                        let b0 = if b < iv { b } else { b + 1 };
                        assert(self@[a] == prev[a0]);
                        assert(self@[b] == prev[b0]);
                        assert(prev[a0].alias != prev[b0].alias);
                    }
                }
                return ;
            }
            i = i + 1;
        }
        proof {
            let pred = keep_other_ids(id as int);
            assert forall|k: int| 0 <= k < self@.len() implies pred(#[trigger] self@[k]) by {
                assert(self@[k].id != id as int);
            }
            lemma_filter_identity(self@, pred);
        }
    }
}

/// The filter predicate of `delete_by_id`: keeps the links whose id
/// is not the deleted one.
pub open spec fn keep_other_ids(id: int) -> spec_fn(LinkView) -> bool {
    |l: LinkView| l.id != id
}

/// Filtering with a predicate that every element meets changes nothing.
pub proof fn lemma_filter_identity<A>(s: Seq<A>, pred: spec_fn(A) -> bool)
    requires
        forall|i: int| 0 <= i < s.len() ==> pred(#[trigger] s[i]),
    ensures
        s.filter(pred) == s,
    decreases s.len(),
{
    reveal(Seq::filter);
    if s.len() > 0 {
        lemma_filter_identity(s.drop_last(), pred);
        assert(pred(s.last()));
        assert(s.filter(pred) =~= s);
    } else {
        assert(s.filter(pred) =~= s);
    }
}

} // verus!
