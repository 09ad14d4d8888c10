//! The storage of every node of a scene, one map per component, all keyed
//! by the node's identifier number.
use vstd::prelude::*;
use std::collections::HashMap;
use crate::error::PrismaError;
use crate::ids::NodeID;
use crate::scene::family::{
    children_family, collect_family, family, family_result, family_terminates, prepend_outcome,
    lemma_prepend_assoc, lemma_prepend_empty,
};
use crate::scene::queue::NodeQueue;
use crate::scene::action::{Action, ActionOrigin, EventListenerAction, NodeTreeAction, StyleAction};
use crate::scene::state::NodeState;
use crate::scene::text::NodeText;
use crate::scene::tree::NodeTree;
use crate::scene::visual::NodeVisual;

verus! {

broadcast use vstd::std_specs::hash::group_hash_axioms;

/// All node components of a scene.
pub struct NodeStorage {
    tree: HashMap<u32, NodeTree>,
    visual_state: HashMap<u32, NodeVisual>,
    state: HashMap<u32, NodeState>,
    queue: HashMap<u32, NodeQueue>,
    text: HashMap<u32, NodeText>,
    ids: Vec<NodeID>,
    next_id: u32,
}

/// `new` is `old` with one entry appended to the style queue of `id`.
pub open spec fn style_pushed(old: NodeStorage, new: NodeStorage, id: NodeID, entry: (StyleAction, ActionOrigin)) -> bool {
    &&& queue_changed_only_at(old, new, id)
    &&& new.spec_queue()[id.0].spec_style() == old.spec_queue()[id.0].spec_style().push(entry)
    &&& new.spec_queue()[id.0].spec_listener() == old.spec_queue()[id.0].spec_listener()
    &&& new.spec_queue()[id.0].spec_tree() == old.spec_queue()[id.0].spec_tree()
}

/// `new` is `old` with one entry appended to the tree queue of `id`.
pub open spec fn tree_pushed(old: NodeStorage, new: NodeStorage, id: NodeID, entry: (NodeTreeAction, ActionOrigin)) -> bool {
    &&& queue_changed_only_at(old, new, id)
    &&& new.spec_queue()[id.0].spec_tree() == old.spec_queue()[id.0].spec_tree().push(entry)
    &&& new.spec_queue()[id.0].spec_listener() == old.spec_queue()[id.0].spec_listener()
    &&& new.spec_queue()[id.0].spec_style() == old.spec_queue()[id.0].spec_style()
}

/// `new` is `old` with one entry appended to the listener queue of `id`.
pub open spec fn listener_pushed(old: NodeStorage, new: NodeStorage, id: NodeID, entry: (EventListenerAction, ActionOrigin)) -> bool {
    &&& queue_changed_only_at(old, new, id)
    &&& new.spec_queue()[id.0].spec_listener() == old.spec_queue()[id.0].spec_listener().push(entry)
    &&& new.spec_tree() == old.spec_tree()
    &&& new.spec_queue()[id.0].spec_tree() == old.spec_queue()[id.0].spec_tree()
    &&& new.spec_queue()[id.0].spec_style() == old.spec_queue()[id.0].spec_style()
}

/// Only the queue of `id` may differ between `old` and `new`.
pub open spec fn queue_changed_only_at(old: NodeStorage, new: NodeStorage, id: NodeID) -> bool {
    &&& new.wf()
    &&& new.spec_tree() == old.spec_tree()
    &&& new.spec_visual() == old.spec_visual()
    &&& new.spec_state() == old.spec_state()
    &&& new.spec_next_id() == old.spec_next_id()
    &&& new.spec_queue().dom() == old.spec_queue().dom()
    &&& forall|k: u32| k != id.0 && #[trigger] old.spec_queue().contains_key(k) ==> new.spec_queue()[k] == old.spec_queue()[k]
}

/// `new` is `old` with one more node, `id`, which was not there before: the
/// node has no parent and no children, the default look, no destruction
/// request and empty queues; every other node keeps its components.
pub open spec fn fresh_node(old: NodeStorage, new: NodeStorage, id: NodeID) -> bool {
    &&& !old.spec_ids().contains(id.0)
    &&& new.spec_ids() == old.spec_ids().insert(id.0)
    &&& new.spec_tree() == old.spec_tree().insert(id.0, new.spec_tree()[id.0])
    &&& new.spec_tree()[id.0].spec_parent() is None
    &&& new.spec_tree()[id.0].spec_children() == Seq::<NodeID>::empty()
    &&& new.spec_visual() == old.spec_visual().insert(id.0, NodeVisual::new_spec())
    &&& new.spec_state() == old.spec_state().insert(id.0, NodeState { destruction_requested: false })
    &&& new.spec_queue().dom() == old.spec_queue().dom().insert(id.0)
    &&& (forall|k: u32| k != id.0 && #[trigger] old.spec_queue().contains_key(k) ==> new.spec_queue()[k] == old.spec_queue()[k])
    &&& new.spec_queue()[id.0].spec_style().len() == 0
    &&& new.spec_queue()[id.0].spec_listener().len() == 0
    &&& new.spec_queue()[id.0].spec_tree().len() == 0
}

/// The tree-action queue of every stored node.
pub open spec fn tree_queues(st: NodeStorage) -> Map<u32, Seq<(NodeTreeAction, ActionOrigin)>> {
    Map::new(|k: u32| st.spec_queue().contains_key(k), |k: u32| st.spec_queue()[k].spec_tree())
}

/// Only tree-action queues may differ between `old` and `new`.
pub open spec fn only_tree_queues_changed(old: NodeStorage, new: NodeStorage) -> bool {
    &&& new.wf()
    &&& new.spec_tree() == old.spec_tree()
    &&& new.spec_visual() == old.spec_visual()
    &&& new.spec_state() == old.spec_state()
    &&& new.spec_next_id() == old.spec_next_id()
    &&& new.spec_queue().dom() == old.spec_queue().dom()
    &&& forall|k: u32| #[trigger] old.spec_queue().contains_key(k) ==> {
        &&& new.spec_queue()[k].spec_style() == old.spec_queue()[k].spec_style()
        &&& new.spec_queue()[k].spec_listener() == old.spec_queue()[k].spec_listener()
    }
}

impl NodeStorage {
    pub closed spec fn spec_tree(&self) -> Map<u32, NodeTree> {
        self.tree@
    }

    pub closed spec fn spec_visual(&self) -> Map<u32, NodeVisual> {
        self.visual_state@
    }

    pub closed spec fn spec_state(&self) -> Map<u32, NodeState> {
        self.state@
    }

    pub closed spec fn spec_queue(&self) -> Map<u32, NodeQueue> {
        self.queue@
    }

    /// The identifier numbers of the stored nodes.
    pub open spec fn spec_ids(&self) -> Set<u32> {
        self.spec_tree().dom()
    }

    /// The identifiers of the stored nodes, oldest first.
    pub closed spec fn spec_order(&self) -> Seq<NodeID> {
        self.ids@
    }

    /// The number the next created node gets.
    pub closed spec fn spec_next_id(&self) -> u32 {
        self.next_id
    }

    /// Every node has every component, every tree component is well formed,
    /// and every stored number is below the next one handed out.
    pub closed spec fn wf(&self) -> bool {
        &&& self.visual_state@.dom() == self.tree@.dom()
        &&& self.state@.dom() == self.tree@.dom()
        &&& self.queue@.dom() == self.tree@.dom()
        &&& self.text@.dom() == self.tree@.dom()
        &&& forall|k: u32| #[trigger] self.tree@.contains_key(k) ==> self.tree@[k].wf() && k < self.next_id
        &&& self.ids@.no_duplicates()
        &&& forall|i: int| 0 <= i < self.ids@.len() ==> self.tree@.contains_key(#[trigger] self.ids@[i].0)
        &&& forall|k: u32| #[trigger] self.tree@.contains_key(k) ==> self.ids@.contains(NodeID(k))
    }

    /// Every stored node has each of its components.
    pub proof fn lemma_components(&self)
        requires
            self.wf(),
        ensures
            self.spec_visual().dom() == self.spec_ids(),
            self.spec_state().dom() == self.spec_ids(),
            self.spec_queue().dom() == self.spec_ids(),
    {
    }

    /// No nodes.
    pub fn new() -> (s: NodeStorage)
        ensures
            s.wf(),
            s.spec_ids() == Set::<u32>::empty(),
            s.spec_next_id() == 0,
    {
        NodeStorage {
            tree: HashMap::new(),
            visual_state: HashMap::new(),
            state: HashMap::new(),
            queue: HashMap::new(),
            text: HashMap::new(),
            ids: Vec::new(),
            next_id: 0,
        }
    }

    /// The number the next created node gets.
    pub fn next_id(&self) -> (r: u32)
        ensures
            r == self.spec_next_id(),
    {
        self.next_id
    }

    /// Creates a node with default components and returns its identifier.
    pub fn insert_new_node(&mut self) -> (id: NodeID)
        requires
            old(self).wf(),
            old(self).spec_next_id() < u32::MAX,
        ensures
            final(self).wf(),
            id.0 == old(self).spec_next_id(),
            !old(self).spec_ids().contains(id.0),
            final(self).spec_ids() == old(self).spec_ids().insert(id.0),
            final(self).spec_next_id() == old(self).spec_next_id() + 1,
            final(self).spec_tree() == old(self).spec_tree().insert(id.0, final(self).spec_tree()[id.0]),
            final(self).spec_tree()[id.0].spec_parent() is None,
            final(self).spec_tree()[id.0].spec_children() == Seq::<NodeID>::empty(),
            final(self).spec_visual() == old(self).spec_visual().insert(id.0, NodeVisual::new_spec()),
            final(self).spec_state() == old(self).spec_state().insert(id.0, NodeState { destruction_requested: false }),
            final(self).spec_queue().dom() == old(self).spec_queue().dom().insert(id.0),
            forall|k: u32| k != id.0 && #[trigger] old(self).spec_queue().contains_key(k) ==> final(self).spec_queue()[k] == old(self).spec_queue()[k],
            final(self).spec_queue()[id.0].spec_style().len() == 0,
            final(self).spec_queue()[id.0].spec_listener().len() == 0,
            final(self).spec_queue()[id.0].spec_tree().len() == 0,
            fresh_node(*old(self), *final(self), id),
    {
        let id = NodeID::next(&mut self.next_id);
        let k = id.0;
        self.queue.insert(k, NodeQueue::new());
        self.state.insert(k, NodeState::new());
        self.visual_state.insert(k, NodeVisual::new());
        self.tree.insert(k, NodeTree::new());
        self.text.insert(k, NodeText::new());
        proof {
            assert(!old(self).tree@.contains_key(k));
            assert(!self.ids@.contains(id)) by {
                if self.ids@.contains(id) {
                    let i = choose|i: int| 0 <= i < self.ids@.len() && self.ids@[i] == id;
                    assert(old(self).tree@.contains_key(self.ids@[i].0));
                }
            }
        }
        self.ids.push(id);
        proof {
            assert forall|k2: u32| #[trigger] self.tree@.contains_key(k2) implies self.ids@.contains(NodeID(k2)) by {
                if k2 != k {
                    assert(old(self).ids@.contains(NodeID(k2)));
                    let i = choose|i: int| 0 <= i < old(self).ids@.len() && old(self).ids@[i] == NodeID(k2);
                    assert(self.ids@[i] == NodeID(k2));
                } else {
                    assert(self.ids@[self.ids@.len() - 1] == NodeID(k2));
                }
            }
        }
        id
    }

    /// Returns `true` if any component of the node with this identifier is stored.
    pub fn has_node(&self, id: NodeID) -> (r: bool)
        requires
            self.wf(),
        ensures
            r == self.spec_ids().contains(id.0),
    {
        self.tree.contains_key(&id.0) || self.state.contains_key(&id.0)
            || self.visual_state.contains_key(&id.0) || self.queue.contains_key(&id.0)
            || self.text.contains_key(&id.0)
    }

    /// Returns the identifiers of all stored nodes, each once, oldest first.
    pub fn get_nodes_id(&self) -> (r: Vec<NodeID>)
        requires
            self.wf(),
        ensures
            r@ == self.spec_order(),
            r@.no_duplicates(),
            forall|i: int| 0 <= i < r@.len() ==> self.spec_ids().contains(#[trigger] r@[i].0),
            forall|k: u32| self.spec_ids().contains(k) ==> r@.contains(NodeID(k)),
    {
        let mut r: Vec<NodeID> = Vec::new();
        let mut i: usize = 0;
        while i < self.ids.len()
            invariant
                i <= self.ids@.len(),
                r@ == self.ids@.subrange(0, i as int),
            decreases self.ids@.len() - i,
        {
            r.push(self.ids[i]);
            i = i + 1;
            assert(r@ =~= self.ids@.subrange(0, i as int));
        }
        assert(self.ids@.subrange(0, i as int) =~= self.ids@);
        r
    }

    /// Returns the tree component of the node.
    pub fn get_tree(&self, id: NodeID) -> (r: Result<&NodeTree, PrismaError>)
        ensures
            self.spec_tree().contains_key(id.0) ==> (r matches Ok(t) && *t == self.spec_tree()[id.0]),
            !self.spec_tree().contains_key(id.0) ==> r == Err::<&NodeTree, PrismaError>(PrismaError::NodeComponentNotFound(id)),
    {
        match self.tree.get(&id.0) {
            Some(t) => Ok(t),
            None => Err(PrismaError::NodeComponentNotFound(id)),
        }
    }

    /// Returns the visual component of the node.
    pub fn get_visual(&self, id: NodeID) -> (r: Result<NodeVisual, PrismaError>)
        ensures
            self.spec_visual().contains_key(id.0) ==> r == Ok::<NodeVisual, PrismaError>(self.spec_visual()[id.0]),
            !self.spec_visual().contains_key(id.0) ==> r == Err::<NodeVisual, PrismaError>(PrismaError::NodeComponentNotFound(id)),
    {
        match self.visual_state.get(&id.0) {
            Some(v) => Ok(*v),
            None => Err(PrismaError::NodeComponentNotFound(id)),
        }
    }

    /// Returns the state component of the node.
    pub fn get_state(&self, id: NodeID) -> (r: Result<NodeState, PrismaError>)
        ensures
            self.spec_state().contains_key(id.0) ==> r == Ok::<NodeState, PrismaError>(self.spec_state()[id.0]),
            !self.spec_state().contains_key(id.0) ==> r == Err::<NodeState, PrismaError>(PrismaError::NodeComponentNotFound(id)),
    {
        match self.state.get(&id.0) {
            Some(v) => Ok(*v),
            None => Err(PrismaError::NodeComponentNotFound(id)),
        }
    }

    /// Returns the action queue of the node.
    pub fn get_queue(&self, id: NodeID) -> (r: Result<&NodeQueue, PrismaError>)
        ensures
            self.spec_queue().contains_key(id.0) ==> (r matches Ok(q) && *q == self.spec_queue()[id.0]),
            !self.spec_queue().contains_key(id.0) ==> r == Err::<&NodeQueue, PrismaError>(PrismaError::NodeComponentNotFound(id)),
    {
        match self.queue.get(&id.0) {
            Some(q) => Ok(q),
            None => Err(PrismaError::NodeComponentNotFound(id)),
        }
    }

    /// Returns the tree component of a stored node.
    pub fn tree_of(&self, id: NodeID) -> (r: &NodeTree)
        requires
            self.wf(),
            self.spec_ids().contains(id.0),
        ensures
            *r == self.spec_tree()[id.0],
            r.wf(),
    {
        self.tree.get(&id.0).unwrap()
    }

    /// Returns the visual component of a stored node.
    pub fn visual_of(&self, id: NodeID) -> (r: NodeVisual)
        requires
            self.wf(),
            self.spec_ids().contains(id.0),
        ensures
            r == self.spec_visual()[id.0],
            self.spec_visual().contains_key(id.0),
            self.spec_queue().contains_key(id.0),
    {
        *self.visual_state.get(&id.0).unwrap()
    }

    /// Returns the state component of a stored node.
    pub fn state_of(&self, id: NodeID) -> (r: NodeState)
        requires
            self.wf(),
            self.spec_ids().contains(id.0),
        ensures
            r == self.spec_state()[id.0],
            self.spec_state().contains_key(id.0),
    {
        *self.state.get(&id.0).unwrap()
    }

    /// Replaces the visual component of a stored node.
    pub fn set_visual(&mut self, id: NodeID, v: NodeVisual)
        requires
            old(self).wf(),
            old(self).spec_ids().contains(id.0),
        ensures
            final(self).wf(),
            final(self).spec_visual() == old(self).spec_visual().insert(id.0, v),
            final(self).spec_tree() == old(self).spec_tree(),
            final(self).spec_state() == old(self).spec_state(),
            final(self).spec_queue() == old(self).spec_queue(),
            final(self).spec_next_id() == old(self).spec_next_id(),
            final(self).spec_order() == old(self).spec_order(),
    {
        self.visual_state.insert(id.0, v);
        assert(self.visual_state@.dom() =~= self.tree@.dom());
    }

    /// Replaces the state component of a stored node.
    pub fn set_state(&mut self, id: NodeID, st: NodeState)
        requires
            old(self).wf(),
            old(self).spec_ids().contains(id.0),
        ensures
            final(self).wf(),
            final(self).spec_state() == old(self).spec_state().insert(id.0, st),
            final(self).spec_tree() == old(self).spec_tree(),
            final(self).spec_visual() == old(self).spec_visual(),
            final(self).spec_queue() == old(self).spec_queue(),
            final(self).spec_next_id() == old(self).spec_next_id(),
            final(self).spec_order() == old(self).spec_order(),
    {
        self.state.insert(id.0, st);
        assert(self.state@.dom() =~= self.tree@.dom());
    }

    /// Adds `child` to the children of a stored node, unless already there.
    pub fn tree_add_child(&mut self, id: NodeID, child: NodeID)
        requires
            old(self).wf(),
            old(self).spec_ids().contains(id.0),
        ensures
            final(self).wf(),
            final(self).spec_tree().dom() == old(self).spec_tree().dom(),
            forall|k: u32| k != id.0 && #[trigger] old(self).spec_tree().contains_key(k) ==> final(self).spec_tree()[k] == old(self).spec_tree()[k],
            final(self).spec_tree()[id.0].spec_parent() == old(self).spec_tree()[id.0].spec_parent(),
            final(self).spec_tree()[id.0].spec_children() == (if old(self).spec_tree()[id.0].spec_children().contains(child) {
                old(self).spec_tree()[id.0].spec_children()
            } else {
                old(self).spec_tree()[id.0].spec_children().push(child)
            }),
            final(self).spec_visual() == old(self).spec_visual(),
            final(self).spec_state() == old(self).spec_state(),
            final(self).spec_queue() == old(self).spec_queue(),
            final(self).spec_next_id() == old(self).spec_next_id(),
            final(self).spec_order() == old(self).spec_order(),
    {
        let mut t = self.tree.remove(&id.0).unwrap();
        t.add_child(child);
        self.tree.insert(id.0, t);
        assert(self.tree@.dom() =~= old(self).tree@.dom());
    }

    /// Removes the first occurrence of `child` from the children of a stored node.
    pub fn tree_remove_child(&mut self, id: NodeID, child: NodeID)
        requires
            old(self).wf(),
            old(self).spec_ids().contains(id.0),
        ensures
            final(self).wf(),
            final(self).spec_tree().dom() == old(self).spec_tree().dom(),
            forall|k: u32| k != id.0 && #[trigger] old(self).spec_tree().contains_key(k) ==> final(self).spec_tree()[k] == old(self).spec_tree()[k],
            final(self).spec_tree()[id.0].spec_parent() == old(self).spec_tree()[id.0].spec_parent(),
            final(self).spec_tree()[id.0].spec_children() == crate::scene::tree::remove_first(old(self).spec_tree()[id.0].spec_children(), child),
            final(self).spec_visual() == old(self).spec_visual(),
            final(self).spec_state() == old(self).spec_state(),
            final(self).spec_queue() == old(self).spec_queue(),
            final(self).spec_next_id() == old(self).spec_next_id(),
            final(self).spec_order() == old(self).spec_order(),
    {
        let mut t = self.tree.remove(&id.0).unwrap();
        t.remove_child(child);
        self.tree.insert(id.0, t);
        assert(self.tree@.dom() =~= old(self).tree@.dom());
    }

    /// Replaces the parent of a stored node.
    pub fn tree_set_parent(&mut self, id: NodeID, parent: Option<NodeID>)
        requires
            old(self).wf(),
            old(self).spec_ids().contains(id.0),
        ensures
            final(self).wf(),
            final(self).spec_tree().dom() == old(self).spec_tree().dom(),
            forall|k: u32| k != id.0 && #[trigger] old(self).spec_tree().contains_key(k) ==> final(self).spec_tree()[k] == old(self).spec_tree()[k],
            final(self).spec_tree()[id.0].spec_parent() == parent,
            final(self).spec_tree()[id.0].spec_children() == old(self).spec_tree()[id.0].spec_children(),
            final(self).spec_visual() == old(self).spec_visual(),
            final(self).spec_state() == old(self).spec_state(),
            final(self).spec_queue() == old(self).spec_queue(),
            final(self).spec_next_id() == old(self).spec_next_id(),
            final(self).spec_order() == old(self).spec_order(),
    {
        let mut t = self.tree.remove(&id.0).unwrap();
        t.set_parent(parent);
        self.tree.insert(id.0, t);
        assert(self.tree@.dom() =~= old(self).tree@.dom());
    }

    /// Appends a style action to the queue of a stored node.
    pub fn queue_push_style(&mut self, id: NodeID, action: StyleAction, origin: ActionOrigin)
        requires
            old(self).wf(),
            old(self).spec_ids().contains(id.0),
        ensures
            final(self).wf(),
            final(self).spec_queue().dom() == old(self).spec_queue().dom(),
            forall|k: u32| k != id.0 && #[trigger] old(self).spec_queue().contains_key(k) ==> final(self).spec_queue()[k] == old(self).spec_queue()[k],
            final(self).spec_tree() == old(self).spec_tree(),
            final(self).spec_visual() == old(self).spec_visual(),
            final(self).spec_state() == old(self).spec_state(),
            final(self).spec_next_id() == old(self).spec_next_id(),
            final(self).spec_queue()[id.0].spec_style() == old(self).spec_queue()[id.0].spec_style().push((action, origin)),
            style_pushed(*old(self), *final(self), id, (action, origin)),
            final(self).spec_queue()[id.0].spec_listener() == old(self).spec_queue()[id.0].spec_listener(),
            final(self).spec_queue()[id.0].spec_tree() == old(self).spec_queue()[id.0].spec_tree(),
            final(self).spec_order() == old(self).spec_order(),
    {
        let mut q = self.queue.remove(&id.0).unwrap();
        let r = q.push_back_style(action, origin);
        self.queue.insert(id.0, q);
        assert(self.queue@.dom() =~= old(self).queue@.dom());
        r
    }

    /// Removes the oldest style action of a stored node.
    pub fn queue_pop_style_action(&mut self, id: NodeID) -> (r: Option<Action>)
        requires
            old(self).wf(),
            old(self).spec_ids().contains(id.0),
        ensures
            final(self).wf(),
            final(self).spec_queue().dom() == old(self).spec_queue().dom(),
            forall|k: u32| k != id.0 && #[trigger] old(self).spec_queue().contains_key(k) ==> final(self).spec_queue()[k] == old(self).spec_queue()[k],
            final(self).spec_tree() == old(self).spec_tree(),
            final(self).spec_visual() == old(self).spec_visual(),
            final(self).spec_state() == old(self).spec_state(),
            final(self).spec_next_id() == old(self).spec_next_id(),
            old(self).spec_queue()[id.0].spec_style().len() == 0 ==> r is None && final(self).spec_queue()[id.0].spec_style() == old(self).spec_queue()[id.0].spec_style(),
            old(self).spec_queue()[id.0].spec_style().len() > 0 ==> {
                &&& r == Some(Action::Style {
                    action: old(self).spec_queue()[id.0].spec_style()[0].0,
                    origin: old(self).spec_queue()[id.0].spec_style()[0].1,
                })
                &&& final(self).spec_queue()[id.0].spec_style() == old(self).spec_queue()[id.0].spec_style().drop_first()
            },
            final(self).spec_queue()[id.0].spec_listener() == old(self).spec_queue()[id.0].spec_listener(),
            final(self).spec_queue()[id.0].spec_tree() == old(self).spec_queue()[id.0].spec_tree(),
            final(self).spec_order() == old(self).spec_order(),
    {
        let mut q = self.queue.remove(&id.0).unwrap();
        let r = q.pop_front_style_action();
        self.queue.insert(id.0, q);
        assert(self.queue@.dom() =~= old(self).queue@.dom());
        r
    }

    /// Appends a tree action to the queue of a stored node.
    pub fn queue_push_tree(&mut self, id: NodeID, action: NodeTreeAction, origin: ActionOrigin)
        requires
            old(self).wf(),
            old(self).spec_ids().contains(id.0),
        ensures
            final(self).wf(),
            final(self).spec_queue().dom() == old(self).spec_queue().dom(),
            forall|k: u32| k != id.0 && #[trigger] old(self).spec_queue().contains_key(k) ==> final(self).spec_queue()[k] == old(self).spec_queue()[k],
            final(self).spec_tree() == old(self).spec_tree(),
            final(self).spec_visual() == old(self).spec_visual(),
            final(self).spec_state() == old(self).spec_state(),
            final(self).spec_next_id() == old(self).spec_next_id(),
            final(self).spec_queue()[id.0].spec_tree() == old(self).spec_queue()[id.0].spec_tree().push((action, origin)),
            tree_pushed(*old(self), *final(self), id, (action, origin)),
            final(self).spec_queue()[id.0].spec_listener() == old(self).spec_queue()[id.0].spec_listener(),
            final(self).spec_queue()[id.0].spec_style() == old(self).spec_queue()[id.0].spec_style(),
            final(self).spec_order() == old(self).spec_order(),
    {
        let mut q = self.queue.remove(&id.0).unwrap();
        let r = q.push_back_tree(action, origin);
        self.queue.insert(id.0, q);
        assert(self.queue@.dom() =~= old(self).queue@.dom());
        r
    }

    /// Removes the oldest tree action of a stored node.
    pub fn queue_pop_tree(&mut self, id: NodeID) -> (r: Option<NodeTreeAction>)
        requires
            old(self).wf(),
            old(self).spec_ids().contains(id.0),
        ensures
            final(self).wf(),
            final(self).spec_queue().dom() == old(self).spec_queue().dom(),
            forall|k: u32| k != id.0 && #[trigger] old(self).spec_queue().contains_key(k) ==> final(self).spec_queue()[k] == old(self).spec_queue()[k],
            final(self).spec_tree() == old(self).spec_tree(),
            final(self).spec_visual() == old(self).spec_visual(),
            final(self).spec_state() == old(self).spec_state(),
            final(self).spec_next_id() == old(self).spec_next_id(),
            old(self).spec_queue()[id.0].spec_tree().len() == 0 ==> r is None && final(self).spec_queue()[id.0].spec_tree() == old(self).spec_queue()[id.0].spec_tree(),
            old(self).spec_queue()[id.0].spec_tree().len() > 0 ==> {
                &&& r == Some(old(self).spec_queue()[id.0].spec_tree()[0].0)
                &&& final(self).spec_queue()[id.0].spec_tree() == old(self).spec_queue()[id.0].spec_tree().drop_first()
            },
            final(self).spec_queue()[id.0].spec_listener() == old(self).spec_queue()[id.0].spec_listener(),
            final(self).spec_queue()[id.0].spec_style() == old(self).spec_queue()[id.0].spec_style(),
            final(self).spec_order() == old(self).spec_order(),
    {
        let mut q = self.queue.remove(&id.0).unwrap();
        let r = q.pop_front_tree();
        self.queue.insert(id.0, q);
        assert(self.queue@.dom() =~= old(self).queue@.dom());
        r
    }

    /// Appends a listener action to the queue of a stored node.
    pub fn queue_push_listener(&mut self, id: NodeID, action: EventListenerAction, origin: ActionOrigin)
        requires
            old(self).wf(),
            old(self).spec_ids().contains(id.0),
        ensures
            final(self).wf(),
            final(self).spec_queue().dom() == old(self).spec_queue().dom(),
            forall|k: u32| k != id.0 && #[trigger] old(self).spec_queue().contains_key(k) ==> final(self).spec_queue()[k] == old(self).spec_queue()[k],
            final(self).spec_tree() == old(self).spec_tree(),
            final(self).spec_visual() == old(self).spec_visual(),
            final(self).spec_state() == old(self).spec_state(),
            final(self).spec_next_id() == old(self).spec_next_id(),
            final(self).spec_queue()[id.0].spec_listener() == old(self).spec_queue()[id.0].spec_listener().push((action, origin)),
            listener_pushed(*old(self), *final(self), id, (action, origin)),
            final(self).spec_queue()[id.0].spec_tree() == old(self).spec_queue()[id.0].spec_tree(),
            final(self).spec_queue()[id.0].spec_style() == old(self).spec_queue()[id.0].spec_style(),
            final(self).spec_order() == old(self).spec_order(),
    {
        let mut q = self.queue.remove(&id.0).unwrap();
        let r = q.push_back_listener(action, origin);
        self.queue.insert(id.0, q);
        assert(self.queue@.dom() =~= old(self).queue@.dom());
        r
    }

    /// Removes the oldest listener action of a stored node.
    pub fn queue_pop_listener(&mut self, id: NodeID) -> (r: Option<EventListenerAction>)
        requires
            old(self).wf(),
            old(self).spec_ids().contains(id.0),
        ensures
            final(self).wf(),
            final(self).spec_queue().dom() == old(self).spec_queue().dom(),
            forall|k: u32| k != id.0 && #[trigger] old(self).spec_queue().contains_key(k) ==> final(self).spec_queue()[k] == old(self).spec_queue()[k],
            final(self).spec_tree() == old(self).spec_tree(),
            final(self).spec_visual() == old(self).spec_visual(),
            final(self).spec_state() == old(self).spec_state(),
            final(self).spec_next_id() == old(self).spec_next_id(),
            old(self).spec_queue()[id.0].spec_listener().len() == 0 ==> r is None && final(self).spec_queue()[id.0].spec_listener() == old(self).spec_queue()[id.0].spec_listener(),
            old(self).spec_queue()[id.0].spec_listener().len() > 0 ==> {
                &&& r == Some(old(self).spec_queue()[id.0].spec_listener()[0].0)
                &&& final(self).spec_queue()[id.0].spec_listener() == old(self).spec_queue()[id.0].spec_listener().drop_first()
            },
            final(self).spec_queue()[id.0].spec_tree() == old(self).spec_queue()[id.0].spec_tree(),
            final(self).spec_queue()[id.0].spec_style() == old(self).spec_queue()[id.0].spec_style(),
            final(self).spec_order() == old(self).spec_order(),
    {
        let mut q = self.queue.remove(&id.0).unwrap();
        let r = q.pop_front_listener();
        self.queue.insert(id.0, q);
        assert(self.queue@.dom() =~= old(self).queue@.dom());
        r
    }

    /// Removes every component of the node.
    ///
    /// Returns [`PrismaError::NodeNotFound`] if the node is not stored.
    pub fn destroy_node(&mut self, id: NodeID) -> (r: Result<(), PrismaError>)
        requires
            old(self).wf(),
        ensures
            final(self).wf(),
            !old(self).spec_ids().contains(id.0) ==> r == Err::<(), PrismaError>(PrismaError::NodeNotFound(id))
                && final(self).spec_ids() == old(self).spec_ids(),
            old(self).spec_ids().contains(id.0) ==> r is Ok,
            final(self).spec_ids() == old(self).spec_ids().remove(id.0),
            final(self).spec_tree() == old(self).spec_tree().remove(id.0),
            final(self).spec_visual() == old(self).spec_visual().remove(id.0),
            final(self).spec_state() == old(self).spec_state().remove(id.0),
            final(self).spec_queue() == old(self).spec_queue().remove(id.0),
            final(self).spec_next_id() == old(self).spec_next_id(),
    {
        if !self.has_node(id) {
            assert(self.tree@.remove(id.0) =~= self.tree@);
            assert(self.visual_state@.remove(id.0) =~= self.visual_state@);
            assert(self.state@.remove(id.0) =~= self.state@);
            assert(self.queue@.remove(id.0) =~= self.queue@);
            return Err(PrismaError::NodeNotFound(id));
        }
        self.queue.remove(&id.0);
        self.state.remove(&id.0);
        self.visual_state.remove(&id.0);
        self.tree.remove(&id.0);
        self.text.remove(&id.0);
        let ghost ids0 = self.ids@;
        let mut i: usize = 0;
        while i < self.ids.len()
            invariant
                self.ids@ == ids0,
                ids0 == old(self).ids@,
                old(self).wf(),
                old(self).spec_ids().contains(id.0),
                self.tree@ == old(self).tree@.remove(id.0),
                self.visual_state@ == old(self).visual_state@.remove(id.0),
                self.state@ == old(self).state@.remove(id.0),
                self.queue@ == old(self).queue@.remove(id.0),
                self.text@ == old(self).text@.remove(id.0),
                self.next_id == old(self).next_id,
                i <= ids0.len(),
                forall|j: int| 0 <= j < i ==> ids0[j] != id,
            decreases ids0.len() - i,
        {
            if self.ids[i] == id {
                self.ids.remove(i);
                proof {
                    assert forall|a: int, b: int| 0 <= a < b < self.ids@.len() implies self.ids@[a] != self.ids@[b] by {
                        let aa = if a < i { a } else { a + 1 };
                        let bb = if b < i { b } else { b + 1 };
                        assert(self.ids@[a] == ids0[aa]);
                        assert(self.ids@[b] == ids0[bb]);
                    }
                    assert forall|j: int| 0 <= j < self.ids@.len() implies self.tree@.contains_key(#[trigger] self.ids@[j].0) by {
                        let jj = if j < i { j } else { j + 1 };
                        assert(self.ids@[j] == ids0[jj]);
                        assert(old(self).tree@.contains_key(ids0[jj].0));
                        assert(jj != i);
                        assert(ids0[jj] != ids0[i as int]);
                    }
                    assert forall|k: u32| #[trigger] self.tree@.contains_key(k) implies self.ids@.contains(NodeID(k)) by {
                        assert(old(self).ids@.contains(NodeID(k)));
                        let j = choose|j: int| 0 <= j < ids0.len() && ids0[j] == NodeID(k);
                        assert(j != i);
                        let jj = if j < i { j } else { j - 1 };
                        assert(self.ids@[jj] == NodeID(k));
                    }
                }
                return Ok(());
            }
            i = i + 1;
        }
        proof {
            assert(old(self).ids@.contains(id));
        }
        Ok(())
    }

    /// The outcome of the walk from `id` with at most `fuel` levels, without the list.
    pub fn family_within(&self, id: NodeID, fuel: u64) -> (r: Option<Option<NodeID>>)
        requires
            self.wf(),
        ensures
            r is None <==> family(self.spec_tree(), id, fuel as nat) is None,
            r == Some(None::<NodeID>) <==> family(self.spec_tree(), id, fuel as nat) matches Some(Ok(_)),
            forall|e: NodeID| r == Some(Some(e)) <==> family(self.spec_tree(), id, fuel as nat) == Some(Err::<Seq<NodeID>, NodeID>(e)),
        decreases fuel,
    {
        if fuel == 0 {
            return None;
        }
        let t = match self.tree.get(&id.0) {
            Some(t) => t,
            None => { return Some(Some(id)); },
        };
        let children = t.get_children();
        let ghost m = self.spec_tree();
        let ghost cs = children@;
        let ghost f = (fuel - 1) as nat;
        let mut i: usize = 0;
        let ghost mut done: Seq<NodeID> = Seq::empty();
        proof {
            assert(cs.subrange(0, cs.len() as int) =~= cs);
            lemma_prepend_empty(children_family(m, cs, f));
        }
        while i < children.len()
            invariant
                self.wf(),
                m == self.spec_tree(),
                cs == children@,
                cs == m[id.0].spec_children(),
                m.contains_key(id.0),
                fuel > 0,
                f == fuel - 1,
                i <= cs.len(),
                children_family(m, cs, f) == prepend_outcome(done, children_family(m, cs.subrange(i as int, cs.len() as int), f)),
            decreases cs.len() - i,
        {
            let ghost rest = cs.subrange(i as int, cs.len() as int);
            assert(rest.drop_first() =~= cs.subrange(i + 1, cs.len() as int));
            assert(rest[0] == cs[i as int]);
            let sub = self.family_within(children[i], fuel - 1);
            match sub {
                None => {
                    return None;
                },
                Some(Some(e)) => {
                    return Some(Some(e));
                },
                Some(None) => {
                    proof {
                        assert(sub == Some(None::<NodeID>));
                        assert(family(m, cs[i as int], f) matches Some(Ok(_)));
                        let a = family(m, cs[i as int], f)->Some_0->Ok_0;
                        assert(family(m, rest[0], f) == Some(Ok::<Seq<NodeID>, NodeID>(a)));
                        assert(children_family(m, rest, f) == prepend_outcome(a, children_family(m, rest.drop_first(), f)));
                        lemma_prepend_assoc(done, a, children_family(m, rest.drop_first(), f));
                        done = done + a;
                    }
                }
            }
            i = i + 1;
        }
        proof {
            assert(cs.subrange(i as int, cs.len() as int) =~= Seq::<NodeID>::empty());
        }
        Some(None)
    }

    fn tree_get_family(&self, id: NodeID, output: &mut Vec<NodeID>, Ghost(fuel): Ghost<nat>) -> (r: Result<(), PrismaError>)
        requires
            family(self.spec_tree(), id, fuel) is Some,
        ensures
            family(self.spec_tree(), id, fuel) matches Some(Ok(s)) ==> r is Ok && final(output)@ == old(output)@ + s,
            family(self.spec_tree(), id, fuel) matches Some(Err(e)) ==> r == Err::<(), PrismaError>(PrismaError::NodeComponentNotFound(e)),
    {
        collect_family(&self.tree, id, output, Ghost(fuel))
    }

    /// Returns the node followed by its descendants, depth first, children in order.
    ///
    /// Returns [`PrismaError::NodeComponentNotFound`] with the first identifier met
    /// in that order that has no tree component.
    pub fn get_family(&self, id: NodeID) -> (r: Result<Vec<NodeID>, PrismaError>)
        requires
            self.wf(),
            family_terminates(self.spec_tree(), id),
        ensures
            family_result(self.spec_tree(), id) matches Some(Ok(s)) ==> (r matches Ok(v) && v@ == s),
            family_result(self.spec_tree(), id) matches Some(Err(e)) ==> r == Err::<Vec<NodeID>, PrismaError>(PrismaError::NodeComponentNotFound(e)),
    {
        let ghost fuel = choose|f: nat| #[trigger] family(self.spec_tree(), id, f) is Some;
        let mut family_list: Vec<NodeID> = Vec::new();
        let r = self.tree_get_family(id, &mut family_list, Ghost(fuel));
        match r {
            Ok(()) => {
                assert(Seq::<NodeID>::empty() + family_list@ =~= family_list@);
                Ok(family_list)
            },
            Err(e) => Err(e),
        }
    }

    /// Queues adding `child` to the children of `parent` and `parent` as the
    /// parent of `child`.
    ///
    /// Returns [`PrismaError::NodeNotFound`] with the first of `parent` and
    /// `child` that is not stored, and [`PrismaError::InvalidTree`] if the
    /// child is the parent itself or the parent's parent.
    pub fn link_child(&mut self, parent: NodeID, child: NodeID, origin: ActionOrigin) -> (r: Result<(), PrismaError>)
        requires
            old(self).wf(),
        ensures
            final(self).wf(),
            !old(self).spec_ids().contains(parent.0) ==> r == Err::<(), PrismaError>(PrismaError::NodeNotFound(parent)),
            old(self).spec_ids().contains(parent.0) && !old(self).spec_ids().contains(child.0)
                ==> r == Err::<(), PrismaError>(PrismaError::NodeNotFound(child)),
            old(self).spec_ids().contains(parent.0) && old(self).spec_ids().contains(child.0)
                && (parent == child || old(self).spec_tree()[parent.0].spec_parent() == Some(child))
                ==> r == Err::<(), PrismaError>(PrismaError::InvalidTree(parent, child)),
            r is Err ==> *final(self) == *old(self),
            r is Ok <==> {
                &&& old(self).spec_ids().contains(parent.0)
                &&& old(self).spec_ids().contains(child.0)
                &&& parent != child
                &&& old(self).spec_tree()[parent.0].spec_parent() != Some(child)
            },
            r is Ok ==> {
                &&& old(self).spec_ids().contains(parent.0)
                &&& old(self).spec_ids().contains(child.0)
                &&& parent != child
                &&& old(self).spec_tree()[parent.0].spec_parent() != Some(child)
                &&& exists|mid: NodeStorage| tree_pushed(*old(self), mid, parent, (NodeTreeAction::AddChild { child }, origin))
                    && tree_pushed(mid, *final(self), child, (NodeTreeAction::SetParent { parent: Some(parent) }, origin))
                &&& tree_queues(*final(self)) == tree_queues(*old(self))
                    .insert(parent.0, tree_queues(*old(self))[parent.0].push((NodeTreeAction::AddChild { child }, origin)))
                    .insert(child.0, tree_queues(*old(self))[child.0].push((NodeTreeAction::SetParent { parent: Some(parent) }, origin)))
                &&& only_tree_queues_changed(*old(self), *final(self))
            },
            final(self).spec_order() == old(self).spec_order(),
    {
        if !self.has_node(parent) {
            return Err(PrismaError::NodeNotFound(parent));
        }
        if !self.has_node(child) {
            return Err(PrismaError::NodeNotFound(child));
        }
        if parent == child {
            return Err(PrismaError::InvalidTree(parent, child));
        }
        if let Some(p) = self.tree_of(parent).get_parent() {
            if p == child {
                return Err(PrismaError::InvalidTree(parent, child));
            }
        }
        let ghost st0 = *self;
        self.queue_push_tree(parent, NodeTreeAction::AddChild { child }, origin);
        let ghost mid = *self;
        self.queue_push_tree(child, NodeTreeAction::SetParent { parent: Some(parent) }, origin);
        proof {
            assert(tree_pushed(st0, mid, parent, (NodeTreeAction::AddChild { child }, origin)));
            assert(tree_queues(*self) =~= tree_queues(st0)
                .insert(parent.0, tree_queues(st0)[parent.0].push((NodeTreeAction::AddChild { child }, origin)))
                .insert(child.0, tree_queues(st0)[child.0].push((NodeTreeAction::SetParent { parent: Some(parent) }, origin))));
        }
        Ok(())
    }

    /// Queues removing `child` from the children of `parent`, and `parent`
    /// as the parent of `child`.
    ///
    /// Returns [`PrismaError::NodeNotFound`] with the first of `parent` and
    /// `child` that is not stored.
    pub fn unlink_child(&mut self, parent: NodeID, child: NodeID, origin: ActionOrigin) -> (r: Result<(), PrismaError>)
        requires
            old(self).wf(),
        ensures
            final(self).wf(),
            !old(self).spec_ids().contains(parent.0) ==> r == Err::<(), PrismaError>(PrismaError::NodeNotFound(parent)),
            old(self).spec_ids().contains(parent.0) && !old(self).spec_ids().contains(child.0)
                ==> r == Err::<(), PrismaError>(PrismaError::NodeNotFound(child)),
            r is Err ==> *final(self) == *old(self),
            r is Ok <==> old(self).spec_ids().contains(parent.0) && old(self).spec_ids().contains(child.0),
            r is Ok ==> {
                &&& exists|mid: NodeStorage| tree_pushed(*old(self), mid, parent, (NodeTreeAction::RemoveChild { child }, origin))
                    && tree_pushed(mid, *final(self), child, (NodeTreeAction::SetParent { parent: None }, origin))
                &&& ({
                    let q1 = tree_queues(*old(self)).insert(parent.0,
                        tree_queues(*old(self))[parent.0].push((NodeTreeAction::RemoveChild { child }, origin)));
                    tree_queues(*final(self)) == q1.insert(child.0, q1[child.0].push((NodeTreeAction::SetParent { parent: None }, origin)))
                })
                &&& only_tree_queues_changed(*old(self), *final(self))
            },
            final(self).spec_order() == old(self).spec_order(),
    {
        if !self.has_node(parent) {
            return Err(PrismaError::NodeNotFound(parent));
        }
        if !self.has_node(child) {
            return Err(PrismaError::NodeNotFound(child));
        }
        let ghost st0 = *self;
        self.queue_push_tree(parent, NodeTreeAction::RemoveChild { child }, origin);
        let ghost mid = *self;
        self.queue_push_tree(child, NodeTreeAction::SetParent { parent: None }, origin);
        proof {
            assert(tree_pushed(st0, mid, parent, (NodeTreeAction::RemoveChild { child }, origin)));
            let q1 = tree_queues(st0).insert(parent.0, tree_queues(st0)[parent.0].push((NodeTreeAction::RemoveChild { child }, origin)));
            assert(tree_queues(mid) =~= q1);
            assert(tree_queues(*self) =~= q1.insert(child.0, q1[child.0].push((NodeTreeAction::SetParent { parent: None }, origin))));
        }
        Ok(())
    }
}

} // verus!
