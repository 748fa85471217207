//! A set of path strings: the shape both the keep set and the removal set
//! take. Members are unique; a deterministic lexicographic order is imposed
//! before any report or destructive action.

use vstd::prelude::*;
use crate::pathstr::{views_of, sorted_lex, sort_paths};

verus! {

/// A set of absolute path strings held in memory for one run.
pub struct PathSet {
    items: Vec<String>,
}

impl View for PathSet {
    type V = Set<Seq<char>>;

    closed spec fn view(&self) -> Set<Seq<char>> {
        views_of(self.items@).to_set()
    }
}

impl PathSet {
    /// Member paths hold pairwise different text.
    pub closed spec fn wf(&self) -> bool {
        forall|i: int, j: int|
            0 <= i < j < self.items@.len() ==> self.items@[i]@ != self.items@[j]@
    }

    /// The member paths in insertion order.
    pub closed spec fn seq_view(&self) -> Seq<Seq<char>> {
        views_of(self.items@)
    }

    /// An empty path set.
    pub fn new() -> (s: Self)
        ensures
            s@ == Set::<Seq<char>>::empty(),
            s.wf(),
    {
        let s = PathSet { items: Vec::new() };
        proof {
            assert(s@ =~= Set::<Seq<char>>::empty());
        }
        s
    }

    /// How many paths the set holds.
    pub fn len(&self) -> (n: usize)
        ensures
            n == self.seq_view().len(),
    {
        self.items.len()
    }

    /// Whether `p` is a member.
    pub fn contains(&self, p: &String) -> (r: bool)
        ensures
            r == self@.contains(p@),
    {
        let mut i: usize = 0;
        while i < self.items.len()
            invariant
                i <= self.items@.len(),
                forall|j: int| 0 <= j < i ==> self.items@[j]@ != p@,
            decreases self.items@.len() - i,
        {
            if self.items[i].eq(p) {
                proof {
                    assert(self.items@[i as int]@ == p@);
                    assert(views_of(self.items@)[i as int] == self.items@[i as int]@);
                    assert(views_of(self.items@).contains(p@));
                }
                return true;
            }
            i += 1;
        }
        proof {
            assert forall|k: int| 0 <= k < views_of(self.items@).len() implies views_of(
                self.items@,
            )[k] != p@ by {
                assert(views_of(self.items@)[k] == self.items@[k]@);
            }
        }
        false
    }

    /// Adds `p`; a path already present stays a single member.
    pub fn insert(&mut self, p: String)
        requires
            old(self).wf(),
        ensures
            final(self)@ == old(self)@.insert(p@),
            final(self).wf(),
    {
        if !self.contains(&p) {
            let ghost pre = self.items@;
            self.items.push(p);
            proof {
                assert forall|k: int| 0 <= k < pre.len() implies pre[k]@ != p@ by {
                    assert(views_of(pre)[k] == pre[k]@);
                }
                assert(views_of(self.items@) =~= views_of(pre).push(p@));
                assert forall|x: Seq<char>|
                    views_of(self.items@).to_set().contains(x) == views_of(pre).to_set().insert(
                        p@,
                    ).contains(x) by {
                    if views_of(self.items@).contains(x) {
                        let k = choose|k: int|
                            0 <= k < views_of(self.items@).len() && views_of(self.items@)[k] == x;
                        if k < pre.len() {
                            assert(views_of(pre)[k] == x);
                        }
                    }
                    if views_of(pre).contains(x) {
                        let k = choose|k: int|
                            0 <= k < views_of(pre).len() && views_of(pre)[k] == x;
                        assert(views_of(self.items@)[k] == x);
                    }
                    if x == p@ {
                        assert(views_of(self.items@)[pre.len() as int] == x);
                    }
                }
                assert(self@ =~= old(self)@.insert(p@));
            }
        } else {
            proof {
                assert(old(self)@.insert(p@) =~= old(self)@);
            }
        }
    }

    /// Removes `p`; a path not present leaves the set unchanged.
    pub fn remove(&mut self, p: &String)
        requires
            old(self).wf(),
        ensures
            final(self)@ == old(self)@.remove(p@),
            final(self).wf(),
    {
        let mut i: usize = 0;
        while i < self.items.len()
            invariant
                i <= self.items@.len(),
                old(self).wf(),
                self.items@ == old(self).items@,
                forall|j: int| 0 <= j < i ==> self.items@[j]@ != p@,
            decreases self.items@.len() - i,
        {
            if self.items[i].eq(p) {
                let ghost pre = self.items@;
                self.items.remove(i);
                proof {
                    let post = self.items@;
                    assert(pre[i as int]@ == p@);
                    assert forall|x: Seq<char>|
                        views_of(post).to_set().contains(x) == views_of(pre).to_set().remove(
                            p@,
                        ).contains(x) by {
                        if views_of(post).contains(x) {
                            let k = choose|k: int|
                                0 <= k < views_of(post).len() && views_of(post)[k] == x;
                            assert(views_of(post)[k] == post[k]@);
                            if k < i {
                                assert(views_of(pre)[k] == pre[k]@);
                                assert(post[k] == pre[k]);
                                assert(pre[k]@ != pre[i as int]@);
                                assert(views_of(pre).contains(x) && x != p@);
                            } else {
                                assert(post[k] == pre[k + 1]);
                                assert(views_of(pre)[k + 1] == pre[k + 1]@);
                                assert(pre[i as int]@ != pre[k + 1]@);
                                assert(views_of(pre).contains(x) && x != p@);
                            }
                        }
                        if views_of(pre).contains(x) && x != p@ {
                            let k = choose|k: int|
                                0 <= k < views_of(pre).len() && views_of(pre)[k] == x;
                            assert(views_of(pre)[k] == pre[k]@);
                            if k < i {
                                assert(post[k] == pre[k]);
                                assert(views_of(post)[k] == post[k]@);
                                assert(views_of(post).contains(x));
                            } else {
                                assert(pre[k]@ == x && x != p@ && pre[i as int]@ == p@);
                                assert(k != i);
                                assert(post[k - 1] == pre[k]);
                                assert(views_of(post)[k - 1] == post[k - 1]@);
                                assert(views_of(post).contains(x));
                            }
                        }
                    }
                    assert(self@ =~= old(self)@.remove(p@));
                }
                return ;
            }
            i += 1;
        }
        proof {
            assert forall|k: int|
                0 <= k < views_of(self.items@).len() implies views_of(self.items@)[k] != p@ by {
                assert(views_of(self.items@)[k] == self.items@[k]@);
            }
            assert(old(self)@.remove(p@) =~= old(self)@);
        }
    }

    /// Unions the members of `other` into `self`.
    pub fn union_with(&mut self, other: &PathSet)
        requires
            old(self).wf(),
        ensures
            final(self)@ == old(self)@ + other@,
            final(self).wf(),
    {
        let mut i: usize = 0;
        proof {
            assert(views_of(other.items@.take(0)) =~= Seq::<Seq<char>>::empty());
            assert(old(self)@ + views_of(other.items@.take(0)).to_set() =~= old(self)@);
        }
        while i < other.items.len()
            invariant
                i <= other.items@.len(),
                self.wf(),
                self@ == old(self)@ + views_of(other.items@.take(i as int)).to_set(),
            decreases other.items@.len() - i,
        {
            let s = other.items[i].clone();
            self.insert(s);
            proof {
                assert(views_of(other.items@.take(i + 1)) =~= views_of(
                    other.items@.take(i as int),
                ).push(other.items@[i as int]@));
                assert forall|x: Seq<char>|
                    views_of(other.items@.take(i + 1)).to_set().contains(x) == views_of(
                        other.items@.take(i as int),
                    ).to_set().insert(other.items@[i as int]@).contains(x) by {
                    let t = views_of(other.items@.take(i as int));
                    if t.push(other.items@[i as int]@).contains(x) {
                        let k = choose|k: int|
                            0 <= k < t.len() + 1 && t.push(other.items@[i as int]@)[k] == x;
                        if k < t.len() {
                            assert(t[k] == x);
                        }
                    }
                    if t.contains(x) {
                        let k = choose|k: int| 0 <= k < t.len() && t[k] == x;
                        assert(t.push(other.items@[i as int]@)[k] == x);
                    }
                    if x == other.items@[i as int]@ {
                        assert(t.push(other.items@[i as int]@)[t.len() as int] == x);
                    }
                }
                assert(views_of(other.items@.take(i + 1)).to_set() =~= views_of(
                    other.items@.take(i as int),
                ).to_set().insert(other.items@[i as int]@));
                assert(self@ =~= old(self)@ + views_of(other.items@.take(i + 1)).to_set());
            }
            i += 1;
        }
        proof {
            assert(other.items@.take(other.items@.len() as int) =~= other.items@);
        }
    }

    /// Unions the texts of a plain list of paths into `self`.
    pub fn union_vec(&mut self, items: &Vec<String>)
        requires
            old(self).wf(),
        ensures
            final(self)@ == old(self)@ + views_of(items@).to_set(),
            final(self).wf(),
    {
        let mut i: usize = 0;
        proof {
            assert(views_of(items@.take(0)) =~= Seq::<Seq<char>>::empty());
            assert(old(self)@ + views_of(items@.take(0)).to_set() =~= old(self)@);
        }
        while i < items.len()
            invariant
                i <= items@.len(),
                self.wf(),
                self@ == old(self)@ + views_of(items@.take(i as int)).to_set(),
            decreases items@.len() - i,
        {
            let s = items[i].clone();
            self.insert(s);
            proof {
                crate::pathstr::lemma_views_take_succ(items@, i as int);
                assert(self@ =~= old(self)@ + views_of(items@.take(i + 1)).to_set());
            }
            i += 1;
        }
        proof {
            assert(items@.take(items@.len() as int) =~= items@);
        }
    }

    /// Removes the texts of a plain list of paths from `self`.
    pub fn remove_vec(&mut self, items: &Vec<String>)
        requires
            old(self).wf(),
        ensures
            final(self)@ == old(self)@.difference(views_of(items@).to_set()),
            final(self).wf(),
    {
        let mut i: usize = 0;
        proof {
            assert(views_of(items@.take(0)) =~= Seq::<Seq<char>>::empty());
            assert(old(self)@.difference(views_of(items@.take(0)).to_set()) =~= old(self)@);
        }
        while i < items.len()
            invariant
                i <= items@.len(),
                self.wf(),
                self@ == old(self)@.difference(views_of(items@.take(i as int)).to_set()),
            decreases items@.len() - i,
        {
            self.remove(&items[i]);
            proof {
                crate::pathstr::lemma_views_take_succ(items@, i as int);
                assert(self@ =~= old(self)@.difference(views_of(items@.take(i + 1)).to_set()));
            }
            i += 1;
        }
        proof {
            assert(items@.take(items@.len() as int) =~= items@);
        }
    }

    /// The members as a plain list, in insertion order.
    pub fn to_vec(&self) -> (v: Vec<String>)
        ensures
            views_of(v@) == self.seq_view(),
            views_of(v@).to_set() == self@,
    {
        let mut v: Vec<String> = Vec::new();
        let mut i: usize = 0;
        while i < self.items.len()
            invariant
                i <= self.items@.len(),
                v@.len() == i,
                forall|j: int| 0 <= j < i ==> v@[j]@ == self.items@[j]@,
            decreases self.items@.len() - i,
        {
            v.push(self.items[i].clone());
            i += 1;
        }
        proof {
            assert(views_of(v@) =~= views_of(self.items@));
        }
        v
    }

    /// The members in the deterministic lexicographic order imposed before
    /// any report or destructive action.
    pub fn to_sorted_vec(&self) -> (v: Vec<String>)
        ensures
            sorted_lex(views_of(v@)),
            views_of(v@).to_set() == self@,
            v@.len() == self.seq_view().len(),
    {
        sort_paths(self.to_vec())
    }
}

} // verus!
