//! The action queue of a node: one FIFO queue per action family.
use vstd::prelude::*;
use std::collections::VecDeque;
use crate::scene::action::{
    Action, ActionOrigin, ActionType, EventListenerAction, NodeTreeAction, StyleAction,
};

verus! {

/// Pending actions of a node, kept first-in first-out within each family.
pub struct NodeQueue {
    style: VecDeque<(StyleAction, ActionOrigin)>,
    listener: VecDeque<(EventListenerAction, ActionOrigin)>,
    tree: VecDeque<(NodeTreeAction, ActionOrigin)>,
}

impl NodeQueue {
    /// The queued style actions, oldest first.
    pub closed spec fn spec_style(&self) -> Seq<(StyleAction, ActionOrigin)> {
        self.style@
    }

    /// The queued listener actions, oldest first.
    pub closed spec fn spec_listener(&self) -> Seq<(EventListenerAction, ActionOrigin)> {
        self.listener@
    }

    /// The queued tree actions, oldest first.
    pub closed spec fn spec_tree(&self) -> Seq<(NodeTreeAction, ActionOrigin)> {
        self.tree@
    }

    /// Three empty queues.
    pub fn new() -> (q: NodeQueue)
        ensures
            q.spec_style() == Seq::<(StyleAction, ActionOrigin)>::empty(),
            q.spec_listener() == Seq::<(EventListenerAction, ActionOrigin)>::empty(),
            q.spec_tree() == Seq::<(NodeTreeAction, ActionOrigin)>::empty(),
    {
        NodeQueue { style: VecDeque::new(), listener: VecDeque::new(), tree: VecDeque::new() }
    }

    /// Appends a style action.
    pub fn push_back_style(&mut self, action: StyleAction, origin: ActionOrigin)
        ensures
            final(self).spec_style() == old(self).spec_style().push((action, origin)),
            final(self).spec_listener() == old(self).spec_listener(),
            final(self).spec_tree() == old(self).spec_tree(),
    {
        self.style.push_back((action, origin));
    }

    /// Puts a style action in front of the others.
    pub fn push_front_style(&mut self, action: StyleAction, origin: ActionOrigin)
        ensures
            final(self).spec_style() == seq![(action, origin)].add(old(self).spec_style()),
            final(self).spec_listener() == old(self).spec_listener(),
            final(self).spec_tree() == old(self).spec_tree(),
    {
        self.style.push_front((action, origin));
    }

    /// Removes the oldest style action and returns it with its family and origin.
    pub fn pop_front_style_action(&mut self) -> (r: Option<Action>)
        ensures
            old(self).spec_style().len() == 0 ==> r is None && final(self).spec_style() == old(self).spec_style(),
            old(self).spec_style().len() > 0 ==> {
                &&& r == Some(Action::Style {
                    action: old(self).spec_style()[0].0,
                    origin: old(self).spec_style()[0].1,
                })
                &&& final(self).spec_style() == old(self).spec_style().drop_first()
            },
            final(self).spec_listener() == old(self).spec_listener(),
            final(self).spec_tree() == old(self).spec_tree(),
    {
        match self.style.pop_front() {
            Some((action, origin)) => Some(Action::Style { action, origin }),
            None => None,
        }
    }

    /// Removes the oldest style action and returns it.
    pub fn pop_front_style(&mut self) -> (r: Option<StyleAction>)
        ensures
            old(self).spec_style().len() == 0 ==> r is None && final(self).spec_style() == old(self).spec_style(),
            old(self).spec_style().len() > 0 ==> {
                &&& r == Some(old(self).spec_style()[0].0)
                &&& final(self).spec_style() == old(self).spec_style().drop_first()
            },
            final(self).spec_listener() == old(self).spec_listener(),
            final(self).spec_tree() == old(self).spec_tree(),
    {
        match self.style.pop_front() {
            Some((action, _origin)) => Some(action),
            None => None,
        }
    }

    /// Removes at most one style action, the oldest, and returns it in a list.
    pub fn take_style(&mut self) -> (r: Vec<StyleAction>)
        ensures
            old(self).spec_style().len() == 0 ==> r@ == Seq::<StyleAction>::empty() && final(self).spec_style() == old(self).spec_style(),
            old(self).spec_style().len() > 0 ==> {
                &&& r@ == seq![old(self).spec_style()[0].0]
                &&& final(self).spec_style() == old(self).spec_style().drop_first()
            },
            final(self).spec_listener() == old(self).spec_listener(),
            final(self).spec_tree() == old(self).spec_tree(),
    {
        let mut list: Vec<StyleAction> = Vec::new();
        let action = self.pop_front_style();
        if let Some(a) = action {
            list.push(a);
        }
        list
    }

    /// Appends a listener action.
    pub fn push_back_listener(&mut self, action: EventListenerAction, origin: ActionOrigin)
        ensures
            final(self).spec_listener() == old(self).spec_listener().push((action, origin)),
            final(self).spec_style() == old(self).spec_style(),
            final(self).spec_tree() == old(self).spec_tree(),
    {
        self.listener.push_back((action, origin));
    }

    /// Removes the oldest listener action and returns it.
    pub fn pop_front_listener(&mut self) -> (r: Option<EventListenerAction>)
        ensures
            old(self).spec_listener().len() == 0 ==> r is None && final(self).spec_listener() == old(self).spec_listener(),
            old(self).spec_listener().len() > 0 ==> {
                &&& r == Some(old(self).spec_listener()[0].0)
                &&& final(self).spec_listener() == old(self).spec_listener().drop_first()
            },
            final(self).spec_style() == old(self).spec_style(),
            final(self).spec_tree() == old(self).spec_tree(),
    {
        match self.listener.pop_front() {
            Some((action, _origin)) => Some(action),
            None => None,
        }
    }

    /// Appends a tree action.
    pub fn push_back_tree(&mut self, action: NodeTreeAction, origin: ActionOrigin)
        ensures
            final(self).spec_tree() == old(self).spec_tree().push((action, origin)),
            final(self).spec_style() == old(self).spec_style(),
            final(self).spec_listener() == old(self).spec_listener(),
    {
        self.tree.push_back((action, origin));
    }

    /// Removes the oldest tree action and returns it.
    pub fn pop_front_tree(&mut self) -> (r: Option<NodeTreeAction>)
        ensures
            old(self).spec_tree().len() == 0 ==> r is None && final(self).spec_tree() == old(self).spec_tree(),
            old(self).spec_tree().len() > 0 ==> {
                &&& r == Some(old(self).spec_tree()[0].0)
                &&& final(self).spec_tree() == old(self).spec_tree().drop_first()
            },
            final(self).spec_style() == old(self).spec_style(),
            final(self).spec_listener() == old(self).spec_listener(),
    {
        match self.tree.pop_front() {
            Some((action, _origin)) => Some(action),
            None => None,
        }
    }

    /// The number of queued actions of the given family.
    pub fn len_of(&self, family: ActionType) -> (r: usize)
        ensures
            r == (match family {
                ActionType::Style => self.spec_style().len(),
                ActionType::EventListener => self.spec_listener().len(),
                ActionType::NodeTree => self.spec_tree().len(),
            }),
    {
        match family {
            ActionType::Style => self.style.len(),
            ActionType::EventListener => self.listener.len(),
            ActionType::NodeTree => self.tree.len(),
        }
    }
}

} // verus!
