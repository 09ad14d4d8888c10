//! A handle through which every change of a node is made.
use vstd::prelude::*;
use crate::error::PrismaError;
use crate::event::EventType;
use crate::ids::{EventCallbackID, NodeID};
use crate::scene::action::{ActionOrigin, EventListenerAction, NodeTreeAction, StyleAction};
use crate::scene::family::{family_result, family_terminates};
use crate::scene::state::NodeState;
use crate::scene::storage::{listener_pushed, style_pushed, tree_pushed, NodeStorage};
use crate::scene::tree::NodeTree;
use crate::scene::visual::NodeVisual;
use crate::util::{position_sum_fits, Color, Position, Size};

verus! {

/// The position of `id` relative to the scene, following relative positions up
/// the parents for at most `fuel` levels: `None` when the levels run out, when
/// a node on the way is missing or when a sum does not fit in `i32`.
pub open spec fn absolute_position(st: NodeStorage, id: NodeID, fuel: nat) -> Option<Position>
    decreases fuel,
{
    if fuel == 0 || !st.spec_ids().contains(id.0) {
        None
    } else {
        let t = st.spec_visual()[id.0].current_state().transform;
        match st.spec_tree()[id.0].spec_parent() {
            Some(parent) if !t.position_absolute => match absolute_position(st, parent, (fuel - 1) as nat) {
                Some(p) => if position_sum_fits(p, t.position) {
                    Some(Position { x: (p.x + t.position.x) as i32, y: (p.y + t.position.y) as i32 })
                } else {
                    None
                },
                None => None,
            },
            _ => Some(t.position),
        }
    }
}

/// The absolute position of `id` is defined.
pub open spec fn absolute_position_defined(st: NodeStorage, id: NodeID) -> bool {
    exists|f: nat| #[trigger] absolute_position(st, id, f) is Some
}

/// The absolute position of `id` (meaningful when defined).
pub open spec fn absolute_position_of(st: NodeStorage, id: NodeID) -> Option<Position> {
    absolute_position(st, id, choose|f: nat| #[trigger] absolute_position(st, id, f) is Some)
}

/// More fuel does not change a position that was found.
pub proof fn lemma_absolute_position_fuel(st: NodeStorage, id: NodeID, f: nat, g: nat)
    requires
        absolute_position(st, id, f) is Some,
        f <= g,
    ensures
        absolute_position(st, id, g) == absolute_position(st, id, f),
    decreases f,
{
    let t = st.spec_visual()[id.0].current_state().transform;
    match st.spec_tree()[id.0].spec_parent() {
        Some(parent) if !t.position_absolute => {
            lemma_absolute_position_fuel(st, parent, (f - 1) as nat, (g - 1) as nat);
        },
        _ => {},
    }
}

/// Whether `a + b` fits in `i32` in both coordinates.
fn sum_fits(a: Position, b: Position) -> (r: bool)
    ensures
        r == position_sum_fits(a, b),
{
    let x: i64 = a.x as i64 + b.x as i64;
    let y: i64 = a.y as i64 + b.y as i64;
    i32::MIN as i64 <= x && x <= i32::MAX as i64 && i32::MIN as i64 <= y && y <= i32::MAX as i64
}

/// Provides mutable access to a node. All modifications to a node are made
/// through this type; style, tree and listener changes are queued and take
/// effect when the scene processes its nodes.
pub struct NodeView<'a> {
    pub id: NodeID,
    pub origin: ActionOrigin,
    pub storage: &'a mut NodeStorage,
}

impl<'a> NodeView<'a> {
    /// The storage is well formed and holds the node.
    pub open spec fn wf(&self) -> bool {
        &&& self.storage.wf()
        &&& self.storage.spec_ids().contains(self.id.0)
    }

    pub open spec fn spec_id(&self) -> NodeID {
        self.id
    }

    pub open spec fn spec_origin(&self) -> ActionOrigin {
        self.origin
    }

    pub open spec fn spec_storage(&self) -> NodeStorage {
        *self.storage
    }

    /// A view on the node `id`, or [`PrismaError::NodeNotFound`] if `nodes` does not hold it.
    pub fn new(id: NodeID, nodes: &'a mut NodeStorage, origin: ActionOrigin) -> (r: Result<NodeView<'a>, PrismaError>)
        requires
            old(nodes).wf(),
        ensures
            old(nodes).spec_ids().contains(id.0) ==> (r matches Ok(v) && v.wf() && v.spec_id() == id
                && v.spec_origin() == origin && v.spec_storage() == *old(nodes)),
            !old(nodes).spec_ids().contains(id.0) ==> (r matches Err(PrismaError::NodeNotFound(e)) && e == id),
            r matches Ok(v) ==> *final(nodes) == *final(v.storage),
            r is Err ==> *final(nodes) == *old(nodes),
    {
        if nodes.has_node(id) {
            Ok(NodeView { id, origin, storage: nodes })
        } else {
            Err(PrismaError::NodeNotFound(id))
        }
    }

    /// Returns the node's unique identifier.
    pub fn get_id(&self) -> (r: NodeID)
        ensures
            r == self.spec_id(),
    {
        self.id
    }

    /// The node's tree component.
    pub fn get_tree(&self) -> (r: &NodeTree)
        requires
            self.wf(),
        ensures
            *r == self.spec_storage().spec_tree()[self.spec_id().0],
    {
        self.storage.tree_of(self.id)
    }

    /// The node's visual component.
    pub fn get_visual(&self) -> (r: NodeVisual)
        requires
            self.wf(),
        ensures
            r == self.spec_storage().spec_visual()[self.spec_id().0],
    {
        self.storage.visual_of(self.id)
    }

    /// The node's state component.
    pub fn get_node_state(&self) -> (r: NodeState)
        requires
            self.wf(),
        ensures
            r == self.spec_storage().spec_state()[self.spec_id().0],
    {
        self.storage.state_of(self.id)
    }

    /// Returns `id` followed by its descendants, depth first.
    pub fn get_family(&self, id: NodeID) -> (r: Result<Vec<NodeID>, PrismaError>)
        requires
            self.wf(),
            family_terminates(self.spec_storage().spec_tree(), id),
        ensures
            family_result(self.spec_storage().spec_tree(), id) matches Some(Ok(s)) ==> (r matches Ok(v) && v@ == s),
            family_result(self.spec_storage().spec_tree(), id) matches Some(Err(e)) ==> r == Err::<Vec<NodeID>, PrismaError>(PrismaError::NodeComponentNotFound(e)),
    {
        self.storage.get_family(id)
    }

    /// Schedules the node for destruction on the next frame.
    pub fn destroy(&mut self)
        requires
            old(self).wf(),
        ensures
            final(self).wf(),
            final(self).spec_id() == old(self).spec_id(),
            final(self).spec_origin() == old(self).spec_origin(),
            final(self).spec_storage().spec_state() == old(self).spec_storage().spec_state().insert(
                old(self).spec_id().0, NodeState { destruction_requested: true }),
            final(self).spec_storage().spec_tree() == old(self).spec_storage().spec_tree(),
            final(self).spec_storage().spec_visual() == old(self).spec_storage().spec_visual(),
            final(self).spec_storage().spec_queue() == old(self).spec_storage().spec_queue(),
        *final(final(self).storage) == *final(old(self).storage),
    {
        let mut st = self.storage.state_of(self.id);
        st.destruction_requested = true;
        self.storage.set_state(self.id, st);
    }

    /// Queues adding `child_id` as a child of this node, and this node as the
    /// child's parent.
    ///
    /// Returns [`PrismaError::NodeNotFound`] if the child does not exist, and
    /// [`PrismaError::InvalidTree`] if the child is the node itself or its parent.
    pub fn add_child(&mut self, child_id: NodeID) -> (r: Result<&mut Self, PrismaError>)
        requires
            old(self).wf(),
        ensures
            ({
                let st = old(self).spec_storage();
                let me = old(self).spec_id();
                if !st.spec_ids().contains(child_id.0) {
                    r matches Err(PrismaError::NodeNotFound(e)) && e == child_id
                        && *final(self) == *old(self)
                } else if me == child_id || st.spec_tree()[me.0].spec_parent() == Some(child_id) {
                    r matches Err(PrismaError::InvalidTree(a, b)) && a == me && b == child_id
                        && *final(self) == *old(self)
                } else {
                    r matches Ok(v) && v.wf() && v.spec_id() == me && v.spec_origin() == old(self).spec_origin()
                        && exists|mid: NodeStorage| tree_pushed(st, mid, me, (NodeTreeAction::AddChild { child: child_id }, old(self).spec_origin()))
                            && tree_pushed(mid, v.spec_storage(), child_id, (NodeTreeAction::SetParent { parent: Some(me) }, old(self).spec_origin()))
                        && *final(self) == *final(v)
                }
            }),
        r matches Ok(rr) ==> *final(rr.storage) == *final(old(self).storage),
        r is Err ==> *final(final(self).storage) == *final(old(self).storage),
    {
        if !self.storage.has_node(child_id) {
            return Err(PrismaError::NodeNotFound(child_id));
        }
        if self.id == child_id {
            return Err(PrismaError::InvalidTree(self.id, child_id));
        }
        if let Some(parent) = self.get_parent() {
            if parent == child_id {
                return Err(PrismaError::InvalidTree(self.id, child_id));
            }
        }
        let origin = self.origin;
        let ghost st0 = *self.storage;
        self.storage.queue_push_tree(self.id, NodeTreeAction::AddChild { child: child_id }, origin);
        let ghost mid = *self.storage;
        self.storage.queue_push_tree(child_id, NodeTreeAction::SetParent { parent: Some(self.id) }, origin);
        assert(tree_pushed(st0, mid, self.id, (NodeTreeAction::AddChild { child: child_id }, origin)));
        Ok(self)
    }

    /// Queues removing `child_id` from the children of this node, and the
    /// child's parent.
    ///
    /// Returns [`PrismaError::NodeNotFound`] if the child does not exist.
    pub fn remove_child(&mut self, child_id: NodeID) -> (r: Result<&mut Self, PrismaError>)
        requires
            old(self).wf(),
        ensures
            !old(self).spec_storage().spec_ids().contains(child_id.0) ==> (r matches Err(PrismaError::NodeNotFound(e))
                && e == child_id && *final(self) == *old(self)),
            old(self).spec_storage().spec_ids().contains(child_id.0) ==> (r matches Ok(v) && v.wf()
                && v.spec_id() == old(self).spec_id() && v.spec_origin() == old(self).spec_origin()
                && (exists|mid: NodeStorage| tree_pushed(old(self).spec_storage(), mid, old(self).spec_id(),
                    (NodeTreeAction::RemoveChild { child: child_id }, old(self).spec_origin()))
                    && tree_pushed(mid, v.spec_storage(), child_id,
                    (NodeTreeAction::SetParent { parent: None }, old(self).spec_origin())))
                && *final(self) == *final(v)),
        r matches Ok(rr) ==> *final(rr.storage) == *final(old(self).storage),
        r is Err ==> *final(final(self).storage) == *final(old(self).storage),
    {
        if !self.storage.has_node(child_id) {
            return Err(PrismaError::NodeNotFound(child_id));
        }
        let origin = self.origin;
        let ghost st0 = *self.storage;
        self.storage.queue_push_tree(self.id, NodeTreeAction::RemoveChild { child: child_id }, origin);
        let ghost mid = *self.storage;
        self.storage.queue_push_tree(child_id, NodeTreeAction::SetParent { parent: None }, origin);
        assert(tree_pushed(st0, mid, self.id, (NodeTreeAction::RemoveChild { child: child_id }, origin)));
        assert(tree_pushed(mid, self.spec_storage(), child_id, (NodeTreeAction::SetParent { parent: None }, origin)));
        Ok(self)
    }

    /// Returns the identifier of the parent node, if any.
    pub fn get_parent(&self) -> (r: Option<NodeID>)
        requires
            self.wf(),
        ensures
            r == self.spec_storage().spec_tree()[self.spec_id().0].spec_parent(),
    {
        self.storage.tree_of(self.id).get_parent()
    }

    /// Returns the node's children, in the order they were added.
    pub fn get_children(&self) -> (r: Vec<NodeID>)
        requires
            self.wf(),
        ensures
            r@ == self.spec_storage().spec_tree()[self.spec_id().0].spec_children(),
    {
        self.storage.tree_of(self.id).get_children()
    }

    /// Returns the size of the node's box before its scale is applied.
    pub fn get_size(&self) -> (r: Size)
        requires
            self.wf(),
        ensures
            r == self.spec_storage().spec_visual()[self.spec_id().0].current_state().style.size,
    {
        self.storage.visual_of(self.id).get_size()
    }

    /// Returns the node's position relative to its parent.
    pub fn get_relative_position(&self) -> (r: Position)
        requires
            self.wf(),
        ensures
            r == self.spec_storage().spec_visual()[self.spec_id().0].current_state().transform.position,
    {
        self.storage.visual_of(self.id).get_relative_position()
    }

    fn absolute_position(&self, id: NodeID, Ghost(fuel): Ghost<nat>) -> (r: Result<Position, PrismaError>)
        requires
            self.wf(),
            absolute_position(self.spec_storage(), id, fuel) is Some,
        ensures
            r == Ok::<Position, PrismaError>(absolute_position(self.spec_storage(), id, fuel)->Some_0),
        decreases fuel,
    {
        if !self.storage.has_node(id) {
            return Err(PrismaError::NodeNotFound(id));
        }
        let visual = self.storage.visual_of(id);
        let relative = visual.get_relative_position();
        if !visual.is_position_absolute() {
            if let Some(parent) = self.storage.tree_of(id).get_parent() {
                let p = self.absolute_position(parent, Ghost((fuel - 1) as nat))?;
                return Ok(p.add(relative));
            }
        }
        Ok(relative)
    }

    /// Returns the node's position relative to the scene.
    pub fn get_absolute_position(&mut self) -> (r: Position)
        requires
            old(self).wf(),
            absolute_position_defined(old(self).spec_storage(), old(self).spec_id()),
        ensures
            *final(self) == *old(self),
            Some(r) == absolute_position_of(old(self).spec_storage(), old(self).spec_id()),
        *final(final(self).storage) == *final(old(self).storage),
    {
        let ghost fuel = choose|f: nat| #[trigger] absolute_position(self.spec_storage(), self.id, f) is Some;
        match self.absolute_position(self.id, Ghost(fuel)) {
            Ok(p) => p,
            Err(_) => Position::new(),
        }
    }

    fn absolute_position_within(&self, id: NodeID, fuel: usize) -> (r: Option<Position>)
        requires
            self.wf(),
        ensures
            r == absolute_position(self.spec_storage(), id, fuel as nat),
        decreases fuel,
    {
        if fuel == 0 || !self.storage.has_node(id) {
            return None;
        }
        let visual = self.storage.visual_of(id);
        let relative = visual.get_relative_position();
        if !visual.is_position_absolute() {
            if let Some(parent) = self.storage.tree_of(id).get_parent() {
                return match self.absolute_position_within(parent, fuel - 1) {
                    Some(p) => if sum_fits(p, relative) {
                        Some(p.add(relative))
                    } else {
                        None
                    },
                    None => None,
                };
            }
        }
        Some(relative)
    }

    /// The node's position relative to the scene, following at most as many
    /// parents as the scene has nodes; `None` where the chain of parents does
    /// not end within that many nodes (a cycle), a node on it is missing, or a
    /// sum leaves `i32`.
    pub fn try_absolute_position(&self) -> (r: Option<Position>)
        requires
            self.wf(),
        ensures
            r == absolute_position(self.spec_storage(), self.spec_id(), self.spec_storage().spec_order().len()),
            r is Some ==> absolute_position_defined(self.spec_storage(), self.spec_id())
                && r == absolute_position_of(self.spec_storage(), self.spec_id()),
    {
        let n = self.storage.get_nodes_id().len();
        let r = self.absolute_position_within(self.id, n);
        proof {
            let st = self.spec_storage();
            if r is Some {
                assert(absolute_position(st, self.id, n as nat) is Some);
                let f = choose|f: nat| #[trigger] absolute_position(st, self.id, f) is Some;
                if f <= n {
                    lemma_absolute_position_fuel(st, self.id, f, n as nat);
                } else {
                    lemma_absolute_position_fuel(st, self.id, n as nat, f);
                }
            }
        }
        r
    }

    fn push_style(&mut self, action: StyleAction)
        requires
            old(self).wf(),
        ensures
            final(self).wf(),
            final(self).spec_id() == old(self).spec_id(),
            final(self).spec_origin() == old(self).spec_origin(),
            style_pushed(old(self).spec_storage(), final(self).spec_storage(), old(self).spec_id(), (action, old(self).spec_origin())),
        *final(final(self).storage) == *final(old(self).storage),
    {
        let origin = self.origin;
        self.storage.queue_push_style(self.id, action, origin);
    }

    /// Queues a move of the node to `(x, y)`.
    pub fn position(&mut self, x: i32, y: i32) -> (r: &mut Self)
        requires
            old(self).wf(),
        ensures
            r.wf(),
            r.spec_id() == old(self).spec_id(),
            r.spec_origin() == old(self).spec_origin(),
            style_pushed(old(self).spec_storage(), r.spec_storage(), old(self).spec_id(), (StyleAction::Position { position: Some(Position { x, y }), absolute: None }, old(self).spec_origin())),
            *final(self) == *final(r),
        *final(r.storage) == *final(old(self).storage),
    {
        self.push_style(StyleAction::Position { position: Some(Position { x, y }), absolute: None });
        self
    }

    /// Queues making the node's position relative to the scene.
    pub fn position_absolute(&mut self) -> (r: &mut Self)
        requires
            old(self).wf(),
        ensures
            r.wf(),
            r.spec_id() == old(self).spec_id(),
            r.spec_origin() == old(self).spec_origin(),
            style_pushed(old(self).spec_storage(), r.spec_storage(), old(self).spec_id(), (StyleAction::Position { position: None, absolute: Some(true) }, old(self).spec_origin())),
            *final(self) == *final(r),
        *final(r.storage) == *final(old(self).storage),
    {
        self.push_style(StyleAction::Position { position: None, absolute: Some(true) });
        self
    }

    /// Queues making the node's position relative to its parent, or to the scene if it has none.
    pub fn position_relative(&mut self) -> (r: &mut Self)
        requires
            old(self).wf(),
        ensures
            r.wf(),
            r.spec_id() == old(self).spec_id(),
            r.spec_origin() == old(self).spec_origin(),
            style_pushed(old(self).spec_storage(), r.spec_storage(), old(self).spec_id(), (StyleAction::Position { position: None, absolute: Some(false) }, old(self).spec_origin())),
            *final(self) == *final(r),
        *final(r.storage) == *final(old(self).storage),
    {
        self.push_style(StyleAction::Position { position: None, absolute: Some(false) });
        self
    }

    /// Queues a scale change; each factor is the bit pattern of an `f32`.
    pub fn scale(&mut self, x: u32, y: u32) -> (r: &mut Self)
        requires
            old(self).wf(),
        ensures
            r.wf(),
            r.spec_id() == old(self).spec_id(),
            r.spec_origin() == old(self).spec_origin(),
            style_pushed(old(self).spec_storage(), r.spec_storage(), old(self).spec_id(), (StyleAction::Scale { x, y }, old(self).spec_origin())),
            *final(self) == *final(r),
        *final(r.storage) == *final(old(self).storage),
    {
        self.push_style(StyleAction::Scale { x, y });
        self
    }

    /// Queues a size change.
    pub fn size(&mut self, width: u32, height: u32) -> (r: &mut Self)
        requires
            old(self).wf(),
        ensures
            r.wf(),
            r.spec_id() == old(self).spec_id(),
            r.spec_origin() == old(self).spec_origin(),
            style_pushed(old(self).spec_storage(), r.spec_storage(), old(self).spec_id(), (StyleAction::Size { width, height }, old(self).spec_origin())),
            *final(self) == *final(r),
        *final(r.storage) == *final(old(self).storage),
    {
        self.push_style(StyleAction::Size { width, height });
        self
    }

    /// Queues a background color change.
    pub fn bg_color(&mut self, color: Color) -> (r: &mut Self)
        requires
            old(self).wf(),
        ensures
            r.wf(),
            r.spec_id() == old(self).spec_id(),
            r.spec_origin() == old(self).spec_origin(),
            style_pushed(old(self).spec_storage(), r.spec_storage(), old(self).spec_id(), (StyleAction::BGColor { color }, old(self).spec_origin())),
            *final(self) == *final(r),
        *final(r.storage) == *final(old(self).storage),
    {
        self.push_style(StyleAction::BGColor { color });
        self
    }

    /// Queues a render layer change. Higher layers are drawn on top of lower ones.
    pub fn layer(&mut self, layer: usize) -> (r: &mut Self)
        requires
            old(self).wf(),
        ensures
            r.wf(),
            r.spec_id() == old(self).spec_id(),
            r.spec_origin() == old(self).spec_origin(),
            style_pushed(old(self).spec_storage(), r.spec_storage(), old(self).spec_id(), (StyleAction::Layer { layer }, old(self).spec_origin())),
            *final(self) == *final(r),
        *final(r.storage) == *final(old(self).storage),
    {
        self.push_style(StyleAction::Layer { layer });
        self
    }

    /// Queues a border radius change.
    pub fn border_radius(&mut self, radius: u32) -> (r: &mut Self)
        requires
            old(self).wf(),
        ensures
            r.wf(),
            r.spec_id() == old(self).spec_id(),
            r.spec_origin() == old(self).spec_origin(),
            style_pushed(old(self).spec_storage(), r.spec_storage(), old(self).spec_id(), (StyleAction::BorderRadius { radius }, old(self).spec_origin())),
            *final(self) == *final(r),
        *final(r.storage) == *final(old(self).storage),
    {
        self.push_style(StyleAction::BorderRadius { radius });
        self
    }

    /// Queues a pause of `ms` milliseconds before the node's following style actions.
    pub fn wait(&mut self, ms: u64) -> (r: &mut Self)
        requires
            old(self).wf(),
        ensures
            r.wf(),
            r.spec_id() == old(self).spec_id(),
            r.spec_origin() == old(self).spec_origin(),
            style_pushed(old(self).spec_storage(), r.spec_storage(), old(self).spec_id(), (StyleAction::Wait { ms }, old(self).spec_origin())),
            *final(self) == *final(r),
        *final(r.storage) == *final(old(self).storage),
    {
        self.push_style(StyleAction::Wait { ms });
        self
    }

    /// Queues registering a listener for `event_type`; the callback itself is
    /// kept by the caller, in the order of these requests.
    pub fn on_event(&mut self, event_type: EventType) -> (r: &mut Self)
        requires
            old(self).wf(),
        ensures
            r.wf(),
            r.spec_id() == old(self).spec_id(),
            r.spec_origin() == old(self).spec_origin(),
            listener_pushed(old(self).spec_storage(), r.spec_storage(), old(self).spec_id(),
                (EventListenerAction::Add { event_type }, ActionOrigin::Code)),
            *final(self) == *final(r),
        *final(r.storage) == *final(old(self).storage),
    {
        self.storage.queue_push_listener(self.id, EventListenerAction::Add { event_type }, ActionOrigin::Code);
        self
    }

    /// Queues removing the callback identified by `target`.
    pub fn off_event(&mut self, target: EventCallbackID) -> (r: &mut Self)
        requires
            old(self).wf(),
        ensures
            r.wf(),
            r.spec_id() == old(self).spec_id(),
            r.spec_origin() == old(self).spec_origin(),
            listener_pushed(old(self).spec_storage(), r.spec_storage(), old(self).spec_id(),
                (EventListenerAction::Remove { target }, ActionOrigin::Code)),
            *final(self) == *final(r),
        *final(r.storage) == *final(old(self).storage),
    {
        self.storage.queue_push_listener(self.id, EventListenerAction::Remove { target }, ActionOrigin::Code);
        self
    }
}

} // verus!
