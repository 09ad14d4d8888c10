//! Handles on single component maps of the node storage, keyed by node
//! identifier number.
use vstd::prelude::*;
use std::collections::HashMap;
use crate::error::PrismaError;
use crate::ids::NodeID;
use crate::scene::components::Style;
use crate::scene::family::{collect_family, family, family_result, family_terminates};
use crate::scene::tree::NodeTree;
use crate::util::Color;

verus! {

broadcast use vstd::std_specs::hash::group_hash_axioms;

/// A handle on the style components of the nodes.
pub struct StyleHandler<'a> {
    storage: &'a mut HashMap<u32, Style>,
}

impl<'a> StyleHandler<'a> {
    /// The style components, by node identifier number.
    pub closed spec fn spec_map(&self) -> Map<u32, Style> {
        self.storage@
    }

    /// A handle on `storage`.
    pub fn new(storage: &'a mut HashMap<u32, Style>) -> (h: StyleHandler<'a>)
        ensures
            h.spec_map() == old(storage)@,
    {
        StyleHandler { storage }
    }

    /// The style component of node `id`.
    ///
    /// Returns [`PrismaError::NodeComponentNotFound`] if the node has none.
    pub fn get(&self, id: NodeID) -> (r: Result<&Style, PrismaError>)
        ensures
            self.spec_map().contains_key(id.0) ==> (r matches Ok(s) && *s == self.spec_map()[id.0]),
            !self.spec_map().contains_key(id.0) ==> r == Err::<&Style, PrismaError>(PrismaError::NodeComponentNotFound(id)),
    {
        match self.storage.get(&id.0) {
            Some(s) => Ok(s),
            None => Err(PrismaError::NodeComponentNotFound(id)),
        }
    }

    /// Returns `true` if node `id` has a style component.
    pub fn contains(&self, id: NodeID) -> (r: bool)
        ensures
            r == self.spec_map().contains_key(id.0),
    {
        self.storage.contains_key(&id.0)
    }

    /// The style component of node `id`, which has one.
    pub fn context_get(&self, id: NodeID) -> (r: &Style)
        requires
            self.spec_map().contains_key(id.0),
        ensures
            *r == self.spec_map()[id.0],
    {
        self.storage.get(&id.0).unwrap()
    }

    /// Gives node `id`, which has none yet, the default style component.
    pub fn context_insert(&mut self, id: NodeID)
        requires
            !old(self).spec_map().contains_key(id.0),
        ensures
            final(self).spec_map() == old(self).spec_map().insert(id.0,
                Style { color: Color { r: 0, g: 0, b: 0, a: 0 }, border_radius: 0, size: (50u32, 50u32) }),
    {
        self.storage.insert(id.0, Style::new());
    }

    /// Removes the style component of node `id`, which has one.
    pub fn context_remove(&mut self, id: NodeID)
        requires
            old(self).spec_map().contains_key(id.0),
        ensures
            final(self).spec_map() == old(self).spec_map().remove(id.0),
    {
        self.storage.remove(&id.0);
    }
}

/// A handle on the tree components of the nodes.
pub struct TreeHandler<'a> {
    storage: &'a mut HashMap<u32, NodeTree>,
}

impl<'a> TreeHandler<'a> {
    /// The tree components, by node identifier number.
    pub closed spec fn spec_map(&self) -> Map<u32, NodeTree> {
        self.storage@
    }

    /// A handle on `storage`.
    pub fn new(storage: &'a mut HashMap<u32, NodeTree>) -> (h: TreeHandler<'a>)
        ensures
            h.spec_map() == old(storage)@,
    {
        TreeHandler { storage }
    }

    /// Returns `true` if node `id` has a tree component.
    pub fn contains(&self, id: NodeID) -> (r: bool)
        ensures
            r == self.spec_map().contains_key(id.0),
    {
        self.storage.contains_key(&id.0)
    }

    /// Returns `id` followed by its descendants, depth first, children in order.
    ///
    /// Returns [`PrismaError::NodeComponentNotFound`] with the first node met
    /// in that order that has no tree component.
    pub fn get_family(&self, id: NodeID) -> (r: Result<Vec<NodeID>, PrismaError>)
        requires
            family_terminates(self.spec_map(), id),
        ensures
            family_result(self.spec_map(), id) matches Some(Ok(s)) ==> (r matches Ok(v) && v@ == s),
            family_result(self.spec_map(), id) matches Some(Err(e)) ==> r == Err::<Vec<NodeID>, PrismaError>(PrismaError::NodeComponentNotFound(e)),
    {
        let ghost fuel = choose|f: nat| #[trigger] family(self.spec_map(), id, f) is Some;
        let mut output: Vec<NodeID> = Vec::new();
        match collect_family(&*self.storage, id, &mut output, Ghost(fuel)) {
            Ok(()) => {
                assert(Seq::<NodeID>::empty() + output@ =~= output@);
                Ok(output)
            },
            Err(e) => Err(e),
        }
    }
}

} // verus!
