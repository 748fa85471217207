//! The symlink-closure resolver: extends a path set so that every symlink
//! member's lexically resolved target is also a member.
//!
//! Only members of the original input set are examined for link targets:
//! chains that route through intermediate links absent from that set are
//! left unresolved. That is a known limitation of the closure, kept on
//! purpose — downstream consumers may depend on it.

use vstd::prelude::*;
use crate::pathset::PathSet;
use crate::pathstr::{resolve_link, resolve_link_spec, views_of};

verus! {

/// One symlink: where it stands and the raw target text it holds.
pub struct LinkEntry {
    /// The symlink's own path.
    pub path: String,
    /// The link target, as read from the link (possibly relative).
    pub target: String,
}

/// A table of the symlinks among a set of paths, as read by the driver.
pub struct LinkMap {
    /// The table rows; the first row for a path wins.
    pub entries: Vec<LinkEntry>,
}

/// `p` is recorded as a symlink in the table.
pub open spec fn spec_has_link(es: Seq<LinkEntry>, p: Seq<char>) -> bool
    decreases es.len(),
{
    es.len() != 0 && (es[0].path@ == p || spec_has_link(es.drop_first(), p))
}

/// The raw target text the table records for `p` (its first row).
pub open spec fn spec_target(es: Seq<LinkEntry>, p: Seq<char>) -> Seq<char>
    decreases es.len(),
{
    if es.len() == 0 {
        Seq::empty()
    } else if es[0].path@ == p {
        es[0].target@
    } else {
        spec_target(es.drop_first(), p)
    }
}

/// The resolved targets of every keep-set member recorded as a symlink.
pub open spec fn link_closure(keep: Set<Seq<char>>, es: Seq<LinkEntry>) -> Set<Seq<char>> {
    Set::new(
        |s: Seq<char>|
            exists|p: Seq<char>|
                #[trigger] keep.contains(p) && spec_has_link(es, p) && s == resolve_link_spec(
                    p,
                    spec_target(es, p),
                ),
    )
}

impl LinkMap {
    /// An empty table.
    pub fn new() -> (m: LinkMap)
        ensures
            m.entries@.len() == 0,
    {
        LinkMap { entries: Vec::new() }
    }

    /// Records that the symlink at `path` holds the target text `target`.
    pub fn push(&mut self, path: String, target: String)
        ensures
            final(self).entries@ == old(self).entries@.push((LinkEntry { path, target })),
    {
        self.entries.push(LinkEntry { path, target });
    }

    /// The recorded target of `p`, if `p` is recorded as a symlink.
    pub fn lookup(&self, p: &String) -> (r: Option<String>)
        ensures
            spec_has_link(self.entries@, p@) ==> (r matches Some(t) && t@ == spec_target(
                self.entries@,
                p@,
            )),
            !spec_has_link(self.entries@, p@) ==> r is None,
    {
        let es = &self.entries;
        let mut i: usize = 0;
        proof {
            assert(es@.skip(0) =~= es@);
        }
        while i < es.len()
            invariant
                i <= es@.len(),
                es@ == self.entries@,
                spec_has_link(es@, p@) == spec_has_link(es@.skip(i as int), p@),
                spec_has_link(es@, p@) ==> spec_target(es@, p@) == spec_target(
                    es@.skip(i as int),
                    p@,
                ),
            decreases es@.len() - i,
        {
            if es[i].path.eq(p) {
                proof {
                    assert(es@.skip(i as int)[0] == es@[i as int]);
                }
                return Some(es[i].target.clone());
            }
            proof {
                assert(es@.skip(i as int)[0] == es@[i as int]);
                assert(es@.skip(i as int).drop_first() =~= es@.skip(i + 1));
            }
            i += 1;
        }
        proof {
            assert(es@.skip(es@.len() as int).len() == 0);
        }
        None
    }
}

/// Extends the keep set with the resolved target of every member the table
/// records as a symlink. One pass over the input set: newly discovered
/// targets are not re-examined for links of their own.
pub fn ext_path(p: &PathSet, links: &LinkMap) -> (np: PathSet)
    ensures
        np.wf(),
        np@ == link_closure(p@, links.entries@),
{
    let items = p.to_vec();
    let ghost es = links.entries@;
    let mut np = PathSet::new();
    proof {
        assert forall|x: Seq<char>| !link_closure(
            views_of(items@.take(0)).to_set(),
            es,
        ).contains(x) by {
            assert(views_of(items@.take(0)).to_set() =~= Set::<Seq<char>>::empty());
        }
        assert(np@ =~= link_closure(views_of(items@.take(0)).to_set(), es));
    }
    let mut i: usize = 0;
    while i < items.len()
        invariant
            i <= items@.len(),
            np.wf(),
            es == links.entries@,
            np@ == link_closure(views_of(items@.take(i as int)).to_set(), es),
        decreases items@.len() - i,
    {
        let ghost pre_keep = views_of(items@.take(i as int)).to_set();
        let ghost post_keep = views_of(items@.take(i + 1)).to_set();
        let ghost cur = items@[i as int]@;
        proof {
            crate::pathstr::lemma_views_take_succ(items@, i as int);
        }
        match links.lookup(&items[i]) {
            Some(t) => {
                let r = resolve_link(items[i].as_str(), t.as_str());
                np.insert(r);
                proof {
                    assert forall|x: Seq<char>| link_closure(post_keep, es).contains(x)
                        == link_closure(pre_keep, es).insert(r@).contains(x) by {
                        if link_closure(post_keep, es).contains(x) {
                            let q = choose|q: Seq<char>|
                                #[trigger] post_keep.contains(q) && spec_has_link(es, q) && x
                                    == resolve_link_spec(q, spec_target(es, q));
                            if q == cur {
                                assert(x == r@);
                            } else {
                                assert(pre_keep.contains(q));
                                assert(link_closure(pre_keep, es).contains(x));
                            }
                        }
                        if link_closure(pre_keep, es).contains(x) {
                            let q = choose|q: Seq<char>|
                                #[trigger] pre_keep.contains(q) && spec_has_link(es, q) && x
                                    == resolve_link_spec(q, spec_target(es, q));
                            assert(post_keep.contains(q));
                            assert(link_closure(post_keep, es).contains(x));
                        }
                        if x == r@ {
                            assert(post_keep.contains(cur));
                            assert(spec_has_link(es, cur) && r@ == resolve_link_spec(
                                cur,
                                spec_target(es, cur),
                            ));
                            assert(link_closure(post_keep, es).contains(x));
                        }
                    }
                    assert(np@ =~= link_closure(post_keep, es));
                }
            },
            None => {
                proof {
                    assert forall|x: Seq<char>| link_closure(post_keep, es).contains(x)
                        == link_closure(pre_keep, es).contains(x) by {
                        if link_closure(post_keep, es).contains(x) {
                            let q = choose|q: Seq<char>|
                                #[trigger] post_keep.contains(q) && spec_has_link(es, q) && x
                                    == resolve_link_spec(q, spec_target(es, q));
                            assert(q != cur);
                            assert(pre_keep.contains(q));
                            assert(link_closure(pre_keep, es).contains(x));
                        }
                        if link_closure(pre_keep, es).contains(x) {
                            let q = choose|q: Seq<char>|
                                #[trigger] pre_keep.contains(q) && spec_has_link(es, q) && x
                                    == resolve_link_spec(q, spec_target(es, q));
                            assert(post_keep.contains(q));
                            assert(link_closure(post_keep, es).contains(x));
                        }
                    }
                    assert(np@ =~= link_closure(post_keep, es));
                }
            },
        }
        i += 1;
    }
    proof {
        assert(items@.take(items@.len() as int) =~= items@);
    }
    np
}

} // verus!
