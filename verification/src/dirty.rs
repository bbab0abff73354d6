//! The set of line indices whose on-screen representation is stale and must
//! be repainted on the next render pass.

use vstd::prelude::*;

verus! {

/// A set of absolute line indices requiring repaint.  Produced by mutations
/// and scroll changes; consumed and cleared exactly once per render pass.
pub struct DirtyLines {
    lines: Vec<usize>,
}

impl View for DirtyLines {
    type V = Set<usize>;

    closed spec fn view(&self) -> Set<usize> {
        self.lines@.to_set()
    }
}

impl DirtyLines {
    pub fn new() -> (r: Self)
        ensures
            r@ == Set::<usize>::empty(),
    {
        let r = DirtyLines { lines: Vec::new() };
        proof {
            assert(r@ =~= Set::<usize>::empty());
        }
        r
    }

    pub fn contains(&self, line: usize) -> (r: bool)
        ensures
            r == self@.contains(line),
    {
        let mut i: usize = 0;
        while i < self.lines.len()
            invariant
                i <= self.lines@.len(),
                forall|k: int| 0 <= k < i ==> self.lines@[k] != line,
            decreases self.lines@.len() - i,
        {
            if self.lines[i] == line {
                return true;
            }
            i += 1;
        }
        false
    }

    pub fn insert(&mut self, line: usize)
        ensures
            final(self)@ == old(self)@.insert(line),
    {
        if !self.contains(line) {
            let ghost pre = self.lines@;
            self.lines.push(line);
            proof {
                assert forall|x: usize| #[trigger] self.lines@.contains(x) == (pre.contains(x)
                    || x == line) by {
                    if self.lines@.contains(x) {
                        let i = choose|i: int|
                            0 <= i < self.lines@.len() && self.lines@[i] == x;
                        if i < pre.len() {
                            assert(pre[i] == x);
                        }
                    }
                    if pre.contains(x) {
                        let i = choose|i: int| 0 <= i < pre.len() && pre[i] == x;
                        assert(self.lines@[i] == x);
                    }
                    if x == line {
                        assert(self.lines@[pre.len() as int] == x);
                    }
                }
                assert(self@ =~= old(self)@.insert(line));
            }
        } else {
            proof {
                assert(self@ =~= old(self)@.insert(line));
            }
        }
    }

    /// Marks every line index in `[start, end)` dirty.
    pub fn mark_range(&mut self, start: usize, end: usize)
        ensures
            final(self)@ == old(self)@.union(
                Set::new(|x: usize| start <= x < end),
            ),
    {
        let mut i: usize = start;
        while i < end
            invariant
                start <= i,
                i <= end || i == start,
                self@ == old(self)@.union(Set::new(|x: usize| start <= x < i)),
            decreases end - i,
        {
            self.insert(i);
            proof {
                assert(self@ =~= old(self)@.union(Set::new(|x: usize| start <= x < i + 1)));
            }
            i += 1;
        }
        proof {
            if start >= end {
                assert(self@ =~= old(self)@.union(Set::new(|x: usize| start <= x < end)));
            }
        }
    }

    pub fn clear(&mut self)
        ensures
            final(self)@ == Set::<usize>::empty(),
    {
        self.lines.clear();
        proof {
            assert(self@ =~= Set::<usize>::empty());
        }
    }

    pub fn is_empty(&self) -> (r: bool)
        ensures
            r == (self@ == Set::<usize>::empty()),
    {
        proof {
            if self.lines@.len() > 0 {
                assert(self@.contains(self.lines@[0]));
            } else {
                assert(self@ =~= Set::<usize>::empty());
            }
        }
        self.lines.len() == 0
    }

    /// The number of stored indices; an upper bound used when iterating.
    pub fn count(&self) -> (r: usize)
        ensures
            r == self.indices().len(),
    {
        self.lines.len()
    }

    /// The stored indices in insertion order, for iteration by the renderer.
    pub closed spec fn indices(&self) -> Seq<usize> {
        self.lines@
    }

    /// Every stored index is a member of the set, and every member is stored.
    pub proof fn lemma_indices_members(&self)
        ensures
            forall|k: int| 0 <= k < self.indices().len() ==> self@.contains(
                #[trigger] self.indices()[k],
            ),
            forall|x: usize| self@.contains(x) ==> exists|k: int|
                0 <= k < self.indices().len() && self.indices()[k] == x,
    {
        assert forall|k: int| 0 <= k < self.indices().len() implies self@.contains(
            self.indices()[k],
        ) by {
            assert(self.lines@.contains(self.lines@[k]));
        }
        assert forall|x: usize| self@.contains(x) implies exists|k: int|
            0 <= k < self.indices().len() && self.indices()[k] == x by {
            assert(self.lines@.contains(x));
            let i = choose|i: int| 0 <= i < self.lines@.len() && self.lines@[i] == x;
            assert(self.indices()[i] == x);
        }
    }

    pub fn index_at(&self, i: usize) -> (r: usize)
        requires
            i < self.indices().len(),
        ensures
            r == self.indices()[i as int],
            self@.contains(r),
    {
        proof {
            assert(self.lines@.contains(self.lines@[i as int]));
        }
        self.lines[i]
    }
}

} // verus!
