//! A handle that queues style actions on one node.
use vstd::prelude::*;
use crate::ids::NodeID;
use crate::scene::action::{ActionOrigin, StyleAction};
use crate::scene::storage::{style_pushed, NodeStorage};
use crate::util::{Color, Position};

verus! {

/// Queues style actions on a node, all with the same origin.
pub struct StyleView<'a> {
    pub storage: &'a mut NodeStorage,
    pub id: NodeID,
    pub origin: ActionOrigin,
}

impl<'a> StyleView<'a> {
    /// The storage is well formed and holds the node.
    pub open spec fn wf(&self) -> bool {
        &&& self.storage.wf()
        &&& self.storage.spec_ids().contains(self.id.0)
    }

    pub open spec fn spec_id(&self) -> NodeID {
        self.id
    }

    pub open spec fn spec_origin(&self) -> ActionOrigin {
        self.origin
    }

    pub open spec fn spec_storage(&self) -> NodeStorage {
        *self.storage
    }

    /// A view on the node `id` of `storage`.
    pub fn new(storage: &'a mut NodeStorage, id: NodeID, origin: ActionOrigin) -> (s: StyleView<'a>)
        requires
            old(storage).wf(),
            old(storage).spec_ids().contains(id.0),
        ensures
            s.wf(),
            s.spec_id() == id,
            s.spec_origin() == origin,
            s.spec_storage() == *old(storage),
            *final(storage) == *final(s.storage),
    {
        StyleView { storage, id, origin }
    }

    fn push_action(&mut self, action: StyleAction)
        requires
            old(self).wf(),
        ensures
            final(self).wf(),
            final(self).spec_id() == old(self).spec_id(),
            final(self).spec_origin() == old(self).spec_origin(),
            style_pushed(old(self).spec_storage(), final(self).spec_storage(), old(self).spec_id(), (action, old(self).spec_origin())),
        *final(final(self).storage) == *final(old(self).storage),
    {
        self.storage.queue_push_style(self.id, action, self.origin);
    }

    /// Queues a move of the node to `(x, y)`.
    pub fn position(&mut self, x: i32, y: i32) -> (r: &mut Self)
        requires
            old(self).wf(),
        ensures
            r.wf(),
            r.spec_id() == old(self).spec_id(),
            r.spec_origin() == old(self).spec_origin(),
            style_pushed(old(self).spec_storage(), r.spec_storage(), old(self).spec_id(),
                (StyleAction::Position { position: Some(Position { x, y }), absolute: None }, old(self).spec_origin())),
            *final(self) == *final(r),
        *final(r.storage) == *final(old(self).storage),
    {
        self.push_action(StyleAction::Position { position: Some(Position { x, y }), absolute: None });
        self
    }

    /// Queues making the node's position relative to the scene.
    pub fn position_absolute(&mut self) -> (r: &mut Self)
        requires
            old(self).wf(),
        ensures
            r.wf(),
            r.spec_id() == old(self).spec_id(),
            r.spec_origin() == old(self).spec_origin(),
            style_pushed(old(self).spec_storage(), r.spec_storage(), old(self).spec_id(),
                (StyleAction::Position { position: None, absolute: Some(true) }, old(self).spec_origin())),
            *final(self) == *final(r),
        *final(r.storage) == *final(old(self).storage),
    {
        self.push_action(StyleAction::Position { position: None, absolute: Some(true) });
        self
    }

    /// Queues making the node's position relative to its parent.
    pub fn position_relative(&mut self) -> (r: &mut Self)
        requires
            old(self).wf(),
        ensures
            r.wf(),
            r.spec_id() == old(self).spec_id(),
            r.spec_origin() == old(self).spec_origin(),
            style_pushed(old(self).spec_storage(), r.spec_storage(), old(self).spec_id(),
                (StyleAction::Position { position: None, absolute: Some(false) }, old(self).spec_origin())),
            *final(self) == *final(r),
        *final(r.storage) == *final(old(self).storage),
    {
        self.push_action(StyleAction::Position { position: None, absolute: Some(false) });
        self
    }

    /// Queues a scale change; each factor is the bit pattern of an `f32`.
    pub fn scale(&mut self, x: u32, y: u32) -> (r: &mut Self)
        requires
            old(self).wf(),
        ensures
            r.wf(),
            r.spec_id() == old(self).spec_id(),
            r.spec_origin() == old(self).spec_origin(),
            style_pushed(old(self).spec_storage(), r.spec_storage(), old(self).spec_id(),
                (StyleAction::Scale { x, y }, old(self).spec_origin())),
            *final(self) == *final(r),
        *final(r.storage) == *final(old(self).storage),
    {
        self.push_action(StyleAction::Scale { x, y });
        self
    }

    /// Queues a size change.
    pub fn size(&mut self, width: u32, height: u32) -> (r: &mut Self)
        requires
            old(self).wf(),
        ensures
            r.wf(),
            r.spec_id() == old(self).spec_id(),
            r.spec_origin() == old(self).spec_origin(),
            style_pushed(old(self).spec_storage(), r.spec_storage(), old(self).spec_id(),
                (StyleAction::Size { width, height }, old(self).spec_origin())),
            *final(self) == *final(r),
        *final(r.storage) == *final(old(self).storage),
    {
        self.push_action(StyleAction::Size { width, height });
        self
    }

    /// Queues a background color change.
    pub fn bg_color(&mut self, color: Color) -> (r: &mut Self)
        requires
            old(self).wf(),
        ensures
            r.wf(),
            r.spec_id() == old(self).spec_id(),
            r.spec_origin() == old(self).spec_origin(),
            style_pushed(old(self).spec_storage(), r.spec_storage(), old(self).spec_id(),
                (StyleAction::BGColor { color }, old(self).spec_origin())),
            *final(self) == *final(r),
        *final(r.storage) == *final(old(self).storage),
    {
        self.push_action(StyleAction::BGColor { color });
        self
    }

    /// Queues a render layer change. Higher layers are drawn on top.
    pub fn layer(&mut self, layer: usize) -> (r: &mut Self)
        requires
            old(self).wf(),
        ensures
            r.wf(),
            r.spec_id() == old(self).spec_id(),
            r.spec_origin() == old(self).spec_origin(),
            style_pushed(old(self).spec_storage(), r.spec_storage(), old(self).spec_id(),
                (StyleAction::Layer { layer }, old(self).spec_origin())),
            *final(self) == *final(r),
        *final(r.storage) == *final(old(self).storage),
    {
        self.push_action(StyleAction::Layer { layer });
        self
    }

    /// Queues a border radius change.
    pub fn border_radius(&mut self, radius: u32) -> (r: &mut Self)
        requires
            old(self).wf(),
        ensures
            r.wf(),
            r.spec_id() == old(self).spec_id(),
            r.spec_origin() == old(self).spec_origin(),
            style_pushed(old(self).spec_storage(), r.spec_storage(), old(self).spec_id(),
                (StyleAction::BorderRadius { radius }, old(self).spec_origin())),
            *final(self) == *final(r),
        *final(r.storage) == *final(old(self).storage),
    {
        self.push_action(StyleAction::BorderRadius { radius });
        self
    }

    /// Queues a pause of `ms` milliseconds before the following style actions.
    pub fn wait(&mut self, ms: u64) -> (r: &mut Self)
        requires
            old(self).wf(),
        ensures
            r.wf(),
            r.spec_id() == old(self).spec_id(),
            r.spec_origin() == old(self).spec_origin(),
            style_pushed(old(self).spec_storage(), r.spec_storage(), old(self).spec_id(),
                (StyleAction::Wait { ms }, old(self).spec_origin())),
            *final(self) == *final(r),
        *final(r.storage) == *final(old(self).storage),
    {
        self.push_action(StyleAction::Wait { ms });
        self
    }
}

} // verus!
