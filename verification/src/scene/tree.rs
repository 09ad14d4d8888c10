//! The tree component of a node: its parent and its ordered children.
use vstd::prelude::*;
use crate::ids::NodeID;

verus! {

/// Where a node stands in the scene's tree.
#[derive(Clone, Debug)]
pub struct NodeTree {
    parent: Option<NodeID>,
    children: Vec<NodeID>,
}

/// `s` without its first occurrence of `x` (unchanged when `x` does not occur).
pub open spec fn remove_first(s: Seq<NodeID>, x: NodeID) -> Seq<NodeID>
    decreases s.len(),
{
    if s.len() == 0 {
        s
    } else if s[0] == x {
        s.drop_first()
    } else {
        seq![s[0]].add(remove_first(s.drop_first(), x))
    }
}

/// Removing at the first index where `x` occurs is `remove_first`.
proof fn lemma_remove_first_at(s: Seq<NodeID>, x: NodeID, i: int)
    requires
        0 <= i < s.len(),
        s[i] == x,
        forall|j: int| 0 <= j < i ==> s[j] != x,
    ensures
        remove_first(s, x) == s.remove(i),
    decreases s.len(),
{
    if i == 0 {
        assert(s.remove(0) =~= s.drop_first());
    } else {
        lemma_remove_first_at(s.drop_first(), x, i - 1);
        assert(s.remove(i) =~= seq![s[0]].add(s.drop_first().remove(i - 1)));
    }
}

/// `remove_first` of a value that does not occur changes nothing.
proof fn lemma_remove_first_absent(s: Seq<NodeID>, x: NodeID)
    requires
        !s.contains(x),
    ensures
        remove_first(s, x) == s,
    decreases s.len(),
{
    if s.len() > 0 {
        assert(s.drop_first().contains(x) ==> s.contains(x)) by {
            if s.drop_first().contains(x) {
                let k = choose|k: int| 0 <= k < s.drop_first().len() && s.drop_first()[k] == x;
                assert(s[k + 1] == x);
            }
        }
        lemma_remove_first_absent(s.drop_first(), x);
        assert(s =~= seq![s[0]].add(s.drop_first()));
    }
}

impl NodeTree {
    /// The parent of the node, if any.
    pub closed spec fn spec_parent(&self) -> Option<NodeID> {
        self.parent
    }

    /// The children of the node, in the order they were added.
    pub closed spec fn spec_children(&self) -> Seq<NodeID> {
        self.children@
    }

    /// A node never lists the same child twice.
    pub closed spec fn wf(&self) -> bool {
        self.children@.no_duplicates()
    }

    /// A node with neither parent nor children.
    pub fn new() -> (t: NodeTree)
        ensures
            t.wf(),
            t.spec_parent() is None,
            t.spec_children() == Seq::<NodeID>::empty(),
    {
        NodeTree { parent: None, children: Vec::new() }
    }

    /// Returns the parent of the node, if any.
    pub fn get_parent(&self) -> (r: Option<NodeID>)
        ensures
            r == self.spec_parent(),
    {
        self.parent
    }

    /// Returns the node's children, in the order they were added.
    pub fn get_children(&self) -> (r: Vec<NodeID>)
        ensures
            r@ == self.spec_children(),
    {
        let mut r: Vec<NodeID> = Vec::new();
        let mut i: usize = 0;
        while i < self.children.len()
            invariant
                i <= self.children@.len(),
                r@ == self.children@.subrange(0, i as int),
            decreases self.children@.len() - i,
        {
            r.push(self.children[i]);
            i = i + 1;
            assert(r@ =~= self.children@.subrange(0, i as int));
        }
        assert(self.children@.subrange(0, i as int) =~= self.children@);
        r
    }

    /// Returns `true` if the node lists `child` among its children.
    pub fn has_child(&self, child: NodeID) -> (r: bool)
        ensures
            r == self.spec_children().contains(child),
    {
        let mut i: usize = 0;
        while i < self.children.len()
            invariant
                i <= self.children@.len(),
                forall|j: int| 0 <= j < i ==> self.children@[j] != child,
            decreases self.children@.len() - i,
        {
            if self.children[i] == child {
                return true;
            }
            i = i + 1;
        }
        false
    }

    /// Replaces the parent of the node.
    pub fn set_parent(&mut self, parent: Option<NodeID>)
        requires
            old(self).wf(),
        ensures
            final(self).wf(),
            final(self).spec_parent() == parent,
            final(self).spec_children() == old(self).spec_children(),
    {
        self.parent = parent;
    }

    /// Appends `child_id` to the children unless it is already one of them.
    pub fn add_child(&mut self, child_id: NodeID)
        requires
            old(self).wf(),
        ensures
            final(self).wf(),
            final(self).spec_parent() == old(self).spec_parent(),
            final(self).spec_children() == (if old(self).spec_children().contains(child_id) {
                old(self).spec_children()
            } else {
                old(self).spec_children().push(child_id)
            }),
    {
        if !self.has_child(child_id) {
            self.children.push(child_id);
            proof {
                let s = self.children@;
                assert forall|a: int, b: int| 0 <= a < b < s.len() implies s[a] != s[b] by {
                    if b == s.len() - 1 {
                        assert(old(self).children@.contains(old(self).children@[a]));
                    }
                }
            }
        }
    }

    /// Removes the first occurrence of `child_id` from the children, if any.
    pub fn remove_child(&mut self, child_id: NodeID)
        requires
            old(self).wf(),
        ensures
            final(self).wf(),
            final(self).spec_parent() == old(self).spec_parent(),
            final(self).spec_children() == remove_first(old(self).spec_children(), child_id),
            !final(self).spec_children().contains(child_id),
    {
        let ghost s = self.children@;
        let mut i: usize = 0;
        while i < self.children.len()
            invariant
                self.children@ == s,
                s == old(self).children@,
                self.parent == old(self).parent,
                s.no_duplicates(),
                i <= s.len(),
                forall|j: int| 0 <= j < i ==> s[j] != child_id,
            decreases s.len() - i,
        {
            if self.children[i] == child_id {
                self.children.remove(i);
                proof {
                    lemma_remove_first_at(s, child_id, i as int);
                    assert forall|a: int, b: int|
                        0 <= a < b < self.children@.len() implies self.children@[a] != self.children@[b] by {
                        let aa = if a < i { a } else { a + 1 };
                        let bb = if b < i { b } else { b + 1 };
                        assert(self.children@[a] == s[aa]);
                        assert(self.children@[b] == s[bb]);
                    }
                    assert forall|k: int| 0 <= k < self.children@.len() implies self.children@[k] != child_id by {
                        let kk = if k < i { k } else { k + 1 };
                        assert(self.children@[k] == s[kk]);
                        assert(kk != i);
                    }
                }
                return;
            }
            i = i + 1;
        }
        proof {
            lemma_remove_first_absent(s, child_id);
        }
    }
}

} // verus!
