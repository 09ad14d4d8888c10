//! The scene: the nodes of a window, its listeners, and the work done on
//! them every frame.
use vstd::prelude::*;
use crate::error::PrismaError;
use crate::event::event_manager::{
    lookup_table_exists, registry_add_node, registry_remove, same_close, same_managers, same_pointer,
    same_registry, CloseRequest, EventManager, RegistryView,
};
use crate::event::EventType;
use crate::ids::{CallbackID, EventCallbackID, NodeID};
use crate::scene::action::{Action, ActionOrigin, EventListenerAction, NodeTreeAction, StyleAction};
use crate::scene::family::{
    children_map, family, family_of_children, family_result, family_terminates, lemma_family_of_children,
    lemma_family_result,
};
use crate::scene::node_view::NodeView;
use crate::scene::state::NodeState;
use crate::scene::storage::NodeStorage;
use crate::scene::tree::remove_first;
use crate::scene::visual::{CurrentVisualState, NodeVisual, Style, VisualUpdate};
use crate::util::{Color, Scale, Size};

verus! {

broadcast use vstd::std_specs::hash::group_hash_axioms;

/// Nodes created, and nodes to destroy, since the last frame.
pub struct PendingNodesHandler {
    created: Vec<NodeID>,
    destroyed: Vec<NodeID>,
}

impl PendingNodesHandler {
    pub closed spec fn spec_created(&self) -> Seq<NodeID> {
        self.created@
    }

    pub closed spec fn spec_destroyed(&self) -> Seq<NodeID> {
        self.destroyed@
    }

    /// Nothing pending.
    pub fn new() -> (h: PendingNodesHandler)
        ensures
            h.spec_created() == Seq::<NodeID>::empty(),
            h.spec_destroyed() == Seq::<NodeID>::empty(),
    {
        PendingNodesHandler { created: Vec::new(), destroyed: Vec::new() }
    }

    /// Appends the nodes a dispatch created and scheduled for destruction.
    pub fn extend_pending(&mut self, created: Vec<NodeID>, destroyed: Vec<NodeID>)
        ensures
            final(self).spec_created() == old(self).spec_created() + created@,
            final(self).spec_destroyed() == old(self).spec_destroyed() + destroyed@,
    {
        let mut created = created;
        let mut destroyed = destroyed;
        self.created.append(&mut created);
        self.destroyed.append(&mut destroyed);
    }

    /// Returns the created nodes and forgets them.
    pub fn take_created(&mut self) -> (r: Vec<NodeID>)
        ensures
            r@ == old(self).spec_created(),
            final(self).spec_created() == Seq::<NodeID>::empty(),
            final(self).spec_destroyed() == old(self).spec_destroyed(),
    {
        let mut r: Vec<NodeID> = Vec::new();
        std::mem::swap(&mut r, &mut self.created);
        r
    }

    /// Returns the nodes to destroy and forgets them.
    pub fn take_destroyed(&mut self) -> (r: Vec<NodeID>)
        ensures
            r@ == old(self).spec_destroyed(),
            final(self).spec_destroyed() == Seq::<NodeID>::empty(),
            final(self).spec_created() == old(self).spec_created(),
    {
        let mut r: Vec<NodeID> = Vec::new();
        std::mem::swap(&mut r, &mut self.destroyed);
        r
    }

    pub fn push_created(&mut self, id: NodeID)
        ensures
            final(self).spec_created() == old(self).spec_created().push(id),
            final(self).spec_destroyed() == old(self).spec_destroyed(),
    {
        self.created.push(id);
    }

    pub fn push_destroyed(&mut self, id: NodeID)
        ensures
            final(self).spec_destroyed() == old(self).spec_destroyed().push(id),
            final(self).spec_created() == old(self).spec_created(),
    {
        self.destroyed.push(id);
    }

    /// Returns `true` if `id` is among the nodes to destroy.
    pub fn destroyed_contains(&self, id: NodeID) -> (r: bool)
        ensures
            r == self.spec_destroyed().contains(id),
    {
        let mut i: usize = 0;
        while i < self.destroyed.len()
            invariant
                i <= self.destroyed@.len(),
                forall|j: int| 0 <= j < i ==> self.destroyed@[j] != id,
            decreases self.destroyed@.len() - i,
        {
            if self.destroyed[i] == id {
                assert(self.destroyed@[i as int] == id);
                return true;
            }
            i = i + 1;
        }
        false
    }
}

/// `true` once `duration` milliseconds have passed since `requested_at` at time `now`.
pub open spec fn close_elapsed(c: CloseRequest, now: u64) -> bool {
    now >= c.requested_at && now - c.requested_at >= c.duration
}

/// Follows close requests and decides when the window quits.
pub struct CloseHandler {
    close_request: Option<CloseRequest>,
    quitting: bool,
}

impl CloseHandler {
    pub closed spec fn spec_close_request(&self) -> Option<CloseRequest> {
        self.close_request
    }

    pub closed spec fn spec_quitting(&self) -> bool {
        self.quitting
    }

    /// No request, not quitting.
    pub fn new() -> (h: CloseHandler)
        ensures
            h.spec_close_request() is None,
            !h.spec_quitting(),
    {
        CloseHandler { close_request: None, quitting: false }
    }

    /// Takes in the close request and the cancellation made during a
    /// dispatch, at time `now`: a new request is recorded and announced; once
    /// the recorded request is due the handler quits, announces it, and
    /// returns `true` (every node is then to be destroyed); a cancellation
    /// forgets the request and is announced.
    pub fn handle_close(
        &mut self,
        context_request: Option<CloseRequest>,
        cancel_requested: bool,
        now: u64,
        event_manager: &mut EventManager,
    ) -> (destroy_all: bool)
        requires
            old(event_manager).wf(),
        ensures
            final(event_manager).wf(),
            ({
                let c1 = if context_request is Some { context_request } else { old(self).spec_close_request() };
                let due = c1 matches Some(c) && close_elapsed(c, now);
                &&& destroy_all == due
                &&& final(self).spec_quitting() == (old(self).spec_quitting() || due)
                &&& final(self).spec_close_request() == (if cancel_requested { None } else { c1 })
                &&& final(event_manager).spec_quitting() == (old(event_manager).spec_quitting() || due)
                &&& final(event_manager).spec_close_request() == (if cancel_requested { None } else if due {
                    None
                } else if context_request is Some {
                    context_request
                } else {
                    old(event_manager).spec_close_request()
                })
                &&& final(event_manager).spec_cancel_close_requested() == (cancel_requested || old(event_manager).spec_cancel_close_requested())
            }),
            final(event_manager).spec_close_request_dispatched() == old(event_manager).spec_close_request_dispatched(),
            final(event_manager).spec_quit_request_dispatched() == old(event_manager).spec_quit_request_dispatched(),
            same_registry(*old(event_manager), *final(event_manager)),
            same_pointer(*old(event_manager), *final(event_manager)),
            same_managers(*old(event_manager), *final(event_manager)),
    {
        if let Some(close_request) = context_request {
            self.close_request = Some(close_request);
            event_manager.send_close_request(close_request);
        }
        let mut destroy_all = false;
        if let Some(close_request) = self.close_request {
            if now >= close_request.requested_at && now - close_request.requested_at >= close_request.duration {
                self.quitting = true;
                event_manager.send_quit();
                destroy_all = true;
            }
        }
        if cancel_requested {
            self.close_request = None;
            event_manager.cancel_close();
        }
        destroy_all
    }
}

/// The visual component after one style action.
pub open spec fn apply_style_action(v: NodeVisual, a: StyleAction) -> NodeVisual {
    match a {
        StyleAction::BGColor { color } => v.fused(VisualUpdate::Color(color)),
        StyleAction::Layer { layer } => v.fused(VisualUpdate::Layer(layer)),
        StyleAction::BorderRadius { radius } => v.fused(VisualUpdate::BorderRadius(radius)),
        StyleAction::Scale { x, y } => v.fused(VisualUpdate::Scale(Scale { x, y })),
        StyleAction::Position { position, absolute } => {
            let v1 = match position {
                Some(p) => v.fused(VisualUpdate::Position(p)),
                None => v,
            };
            match absolute {
                Some(b) => v1.fused(VisualUpdate::Absolute(b)),
                None => v1,
            }
        },
        StyleAction::Size { width, height } => v.fused(VisualUpdate::Size(Size { width, height })),
        StyleAction::Wait { .. } => v,
    }
}

/// The visual component with its current state replaced by `c`.
pub open spec fn with_current(v: NodeVisual, c: CurrentVisualState) -> NodeVisual {
    NodeVisual { current: c, ..v }
}

/// The state an action of origin `o` is applied in: a style callback's
/// action applies to the hovered and then the active look, as the node is.
pub open spec fn enter_origin(v: NodeVisual, o: ActionOrigin, hovered: bool, active: bool) -> NodeVisual {
    if o == ActionOrigin::Visual {
        let v1 = if hovered { with_current(v, CurrentVisualState::Hover) } else { v };
        if active { with_current(v1, CurrentVisualState::Active) } else { v1 }
    } else {
        v
    }
}

/// Applies the queued style actions in order until a `Wait`, which starts a
/// timer of its length at time `now` and stops the run: the visual component
/// and the actions left.
pub open spec fn run_style_actions(
    v: NodeVisual,
    q: Seq<(StyleAction, ActionOrigin)>,
    hovered: bool,
    active: bool,
    now: u64,
) -> (NodeVisual, Seq<(StyleAction, ActionOrigin)>)
    decreases q.len(),
{
    if q.len() == 0 {
        (v, q)
    } else {
        let v1 = enter_origin(v, q[0].1, hovered, active);
        match q[0].0 {
            StyleAction::Wait { ms } => (
                v1.with_current_style(Style { timer: Some(ms), timer_start: Some(now), ..v1.current_state().style }),
                q.drop_first(),
            ),
            a => run_style_actions(apply_style_action(v1, a), q.drop_first(), hovered, active, now),
        }
    }
}

/// `true` while the timer of the current look runs at time `now`.
pub open spec fn timer_running(v: NodeVisual, now: u64) -> bool {
    let st = v.current_state().style;
    st.timer matches Some(t) && st.timer_start matches Some(s) && now < s + t
}

/// One frame of style processing: nothing while a timer runs; else the timer
/// is cleared, the node is drawn as normal, and the queued actions run.
pub open spec fn style_frame(
    v: NodeVisual,
    q: Seq<(StyleAction, ActionOrigin)>,
    hovered: bool,
    active: bool,
    now: u64,
) -> (NodeVisual, Seq<(StyleAction, ActionOrigin)>) {
    if timer_running(v, now) {
        (v, q)
    } else {
        let st = v.current_state().style;
        let v0 = if st.timer is Some && st.timer_start is Some {
            v.with_current_style(Style { timer: None, timer_start: None, ..st })
        } else {
            v
        };
        run_style_actions(with_current(v0, CurrentVisualState::Normal), q, hovered, active, now)
    }
}

/// The tree links of a node after its queued tree actions, in order.
pub open spec fn run_tree_actions(
    parent: Option<NodeID>,
    children: Seq<NodeID>,
    q: Seq<(NodeTreeAction, ActionOrigin)>,
) -> (Option<NodeID>, Seq<NodeID>)
    decreases q.len(),
{
    if q.len() == 0 {
        (parent, children)
    } else {
        match q[0].0 {
            NodeTreeAction::AddChild { child } => run_tree_actions(
                parent,
                if children.contains(child) { children } else { children.push(child) },
                q.drop_first(),
            ),
            NodeTreeAction::RemoveChild { child } => run_tree_actions(parent, remove_first(children, child), q.drop_first()),
            NodeTreeAction::SetParent { parent: p } => run_tree_actions(p, children, q.drop_first()),
        }
    }
}

/// The registry after the queued listener actions of `node`, in order, with
/// the identifiers handed out to its additions, the actions left, and
/// whether the run went through: it stops at a removal whose lookup names a
/// listener table that no longer exists.
pub open spec fn run_listener_actions(
    r: RegistryView,
    node: NodeID,
    q: Seq<(EventListenerAction, ActionOrigin)>,
) -> (RegistryView, Seq<CallbackID>, Seq<(EventListenerAction, ActionOrigin)>, bool)
    decreases q.len(),
{
    if q.len() == 0 {
        (r, Seq::empty(), q, true)
    } else {
        match q[0].0 {
            EventListenerAction::Add { event_type } => {
                let rest = run_listener_actions(registry_add_node(r, node, event_type), node, q.drop_first());
                (rest.0, seq![EventCallbackID(r.next)] + rest.1, rest.2, rest.3)
            },
            EventListenerAction::Remove { target } => if lookup_table_exists(r.node_lookup, r.listener_maps, target) {
                run_listener_actions(registry_remove(r, target), node, q.drop_first())
            } else {
                (r, Seq::empty(), q.drop_first(), false)
            },
        }
    }
}

/// `d` followed by the elements of `f` it does not hold yet, each once, in order.
pub open spec fn append_new(d: Seq<NodeID>, f: Seq<NodeID>) -> Seq<NodeID>
    decreases f.len(),
{
    if f.len() == 0 {
        d
    } else {
        append_new(if d.contains(f[0]) { d } else { d.push(f[0]) }, f.drop_first())
    }
}

/// The first of `ids` that is missing when they are destroyed in order from
/// the nodes `present`, if any.
pub open spec fn first_missing(present: Set<u32>, ids: Seq<NodeID>) -> Option<NodeID>
    decreases ids.len(),
{
    if ids.len() == 0 {
        None
    } else if !present.contains(ids[0].0) {
        Some(ids[0])
    } else {
        first_missing(present.remove(ids[0].0), ids.drop_first())
    }
}

/// The nodes `present` without every node of `ids`.
pub open spec fn without_all(present: Set<u32>, ids: Seq<NodeID>) -> Set<u32>
    decreases ids.len(),
{
    if ids.len() == 0 {
        present
    } else {
        without_all(present.remove(ids[0].0), ids.drop_first())
    }
}

/// The registry after the listeners of every node of `ids` are dropped, in order.
pub open spec fn clear_all(r: RegistryView, ids: Seq<NodeID>) -> RegistryView
    decreases ids.len(),
{
    if ids.len() == 0 {
        r
    } else {
        clear_all(crate::event::event_manager::registry_clear(r, ids[0]), ids.drop_first())
    }
}

/// What one frame of node processing reads and changes, as plain values:
/// parents and children, visuals, states, the three action queues of every
/// node, the listener registry and the nodes to destroy.
pub struct FrameView {
    pub parents: Map<u32, Option<NodeID>>,
    pub children: Map<u32, Seq<NodeID>>,
    pub visual: Map<u32, NodeVisual>,
    pub state: Map<u32, NodeState>,
    pub tree_q: Map<u32, Seq<(NodeTreeAction, ActionOrigin)>>,
    pub listener_q: Map<u32, Seq<(EventListenerAction, ActionOrigin)>>,
    pub style_q: Map<u32, Seq<(StyleAction, ActionOrigin)>>,
    pub registry: RegistryView,
    pub destroyed: Seq<NodeID>,
}

/// The frame view of the nodes `st`, the registry `r` and the nodes to destroy `d`.
pub open spec fn frame_view(st: NodeStorage, r: RegistryView, d: Seq<NodeID>) -> FrameView {
    FrameView {
        parents: Map::new(|k: u32| st.spec_tree().contains_key(k), |k: u32| st.spec_tree()[k].spec_parent()),
        children: children_map(st.spec_tree()),
        visual: st.spec_visual(),
        state: st.spec_state(),
        tree_q: Map::new(|k: u32| st.spec_queue().contains_key(k), |k: u32| st.spec_queue()[k].spec_tree()),
        listener_q: Map::new(|k: u32| st.spec_queue().contains_key(k), |k: u32| st.spec_queue()[k].spec_listener()),
        style_q: Map::new(|k: u32| st.spec_queue().contains_key(k), |k: u32| st.spec_queue()[k].spec_style()),
        registry: r,
        destroyed: d,
    }
}

/// Each identifier of `ids` paired with `node`.
pub open spec fn paired(node: NodeID, ids: Seq<CallbackID>) -> Seq<(NodeID, CallbackID)> {
    ids.map_values(|c: CallbackID| (node, c))
}

/// The style step of a node: its look and style queue after one frame.
pub open spec fn style_step(f: FrameView, id: NodeID, hovered: bool, active: bool, now: u64) -> FrameView {
    let r = style_frame(f.visual[id.0], f.style_q[id.0], hovered, active, now);
    FrameView { visual: f.visual.insert(id.0, r.0), style_q: f.style_q.insert(id.0, r.1), ..f }
}

/// One node's processing in a frame: its tree actions, its listener actions,
/// its destruction request (the family is walked for at most `fuel` levels)
/// and its style actions. Returns the view after it, the listeners it added,
/// and the error that stopped it, if any.
pub open spec fn node_step(f: FrameView, id: NodeID, hovered: bool, active: bool, now: u64, fuel: nat)
    -> (FrameView, Seq<CallbackID>, Option<PrismaError>)
{
    let links = run_tree_actions(f.parents[id.0], f.children[id.0], f.tree_q[id.0]);
    let f1 = FrameView {
        parents: f.parents.insert(id.0, links.0),
        children: f.children.insert(id.0, links.1),
        tree_q: f.tree_q.insert(id.0, Seq::empty()),
        ..f
    };
    let run = run_listener_actions(f1.registry, id, f1.listener_q[id.0]);
    let f2 = FrameView { registry: run.0, listener_q: f1.listener_q.insert(id.0, run.2), ..f1 };
    if !run.3 {
        (f2, run.1, Some(PrismaError::NodeComponentNotFound(id)))
    } else if f2.state[id.0].destruction_requested {
        match family_of_children(f2.children, id, fuel) {
            None => (f2, run.1, Some(PrismaError::InvalidTree(id, id))),
            Some(Err(e)) => (f2, run.1, Some(PrismaError::NodeComponentNotFound(e))),
            Some(Ok(fam)) => (style_step(FrameView { destroyed: append_new(f2.destroyed, fam), ..f2 }, id, hovered, active, now), run.1, None),
        }
    } else {
        (style_step(f2, id, hovered, active, now), run.1, None)
    }
}

/// The processing of the nodes `ids` in order; it stops at the first error.
/// Returns the view after it, the listeners added with their nodes, and the
/// error, if any.
pub open spec fn frames(
    f: FrameView,
    ids: Seq<NodeID>,
    hovered: Option<NodeID>,
    active: Option<NodeID>,
    now: u64,
    fuel: nat,
) -> (FrameView, Seq<(NodeID, CallbackID)>, Option<PrismaError>)
    decreases ids.len(),
{
    if ids.len() == 0 {
        (f, Seq::empty(), None)
    } else {
        let id = ids[0];
        let s = node_step(f, id, hovered == Some(id), active == Some(id), now, fuel);
        if s.2 is Some {
            (s.0, paired(id, s.1), s.2)
        } else {
            let rest = frames(s.0, ids.drop_first(), hovered, active, now, fuel);
            (rest.0, paired(id, s.1) + rest.1, rest.2)
        }
    }
}

/// How many levels a family walk explores in a frame of `n` nodes: one more
/// than there are nodes, within `u64`.
pub open spec fn frame_fuel(n: nat) -> nat {
    if n < u64::MAX { (n + 1) as nat } else { n }
}

/// A UI scene displayed inside a window: it owns all nodes and processes the
/// events of its window.
pub struct Scene {
    pub color: Color,
    nodes: NodeStorage,
    event_manager: EventManager,
    pending_nodes_handler: PendingNodesHandler,
    close_handler: CloseHandler,
}

impl Scene {
    pub closed spec fn spec_color(&self) -> Color {
        self.color
    }

    pub closed spec fn spec_nodes(&self) -> NodeStorage {
        self.nodes
    }

    pub closed spec fn spec_events(&self) -> EventManager {
        self.event_manager
    }

    pub closed spec fn spec_pending(&self) -> PendingNodesHandler {
        self.pending_nodes_handler
    }

    pub closed spec fn spec_close(&self) -> CloseHandler {
        self.close_handler
    }

    /// The node storage and the event manager are well formed.
    pub open spec fn wf(&self) -> bool {
        &&& self.spec_nodes().wf()
        &&& self.spec_events().wf()
    }

    /// An empty scene on a white background.
    pub fn new() -> (s: Scene)
        ensures
            s.wf(),
            s.spec_color() == (Color { r: 255, g: 255, b: 255, a: 255 }),
            s.spec_nodes().spec_ids() == Set::<u32>::empty(),
            s.spec_nodes().spec_next_id() == 0,
            s.spec_events().spec_registry().node_listeners.len() == 0,
            s.spec_events().spec_registry().scene_listeners.len() == 0,
            s.spec_events().spec_next_callback_id() == 0,
            s.spec_events().spec_close_request() is None,
            !s.spec_events().spec_quitting(),
            s.spec_pending().spec_created().len() == 0,
            s.spec_pending().spec_destroyed().len() == 0,
            s.spec_close().spec_close_request() is None,
            !s.spec_close().spec_quitting(),
    {
        Scene {
            color: Color::rgb(255, 255, 255),
            nodes: NodeStorage::new(),
            event_manager: EventManager::new(),
            pending_nodes_handler: PendingNodesHandler::new(),
            close_handler: CloseHandler::new(),
        }
    }

    /// The node storage, for reading and changing nodes directly.
    pub fn storage(&mut self) -> (r: &mut NodeStorage)
        ensures
            *r == old(self).spec_nodes(),
            final(self).spec_nodes() == *final(r),
            final(self).spec_events() == old(self).spec_events(),
            final(self).spec_pending() == old(self).spec_pending(),
            final(self).spec_close() == old(self).spec_close(),
            final(self).spec_color() == old(self).spec_color(),
    {
        &mut self.nodes
    }

    /// The node storage and the event manager at once, for a dispatch.
    pub fn dispatch_parts(&mut self) -> (r: (&mut NodeStorage, &mut EventManager))
        ensures
            *r.0 == old(self).spec_nodes(),
            *r.1 == old(self).spec_events(),
            final(self).spec_nodes() == *final(r.0),
            final(self).spec_events() == *final(r.1),
            final(self).spec_pending() == old(self).spec_pending(),
            final(self).spec_close() == old(self).spec_close(),
            final(self).spec_color() == old(self).spec_color(),
    {
        (&mut self.nodes, &mut self.event_manager)
    }

    /// Creates a node, records it as created, and returns a view of it for
    /// configuration.
    pub fn new_node(&mut self) -> (v: NodeView<'_>)
        requires
            old(self).wf(),
            old(self).spec_nodes().spec_next_id() < u32::MAX,
        ensures
            v.wf(),
            v.spec_id().0 == old(self).spec_nodes().spec_next_id(),
            !old(self).spec_nodes().spec_ids().contains(v.spec_id().0),
            v.spec_storage().spec_ids() == old(self).spec_nodes().spec_ids().insert(v.spec_id().0),
            v.spec_origin() == ActionOrigin::Code,
            crate::scene::storage::fresh_node(old(self).spec_nodes(), v.spec_storage(), v.spec_id()),
            v.spec_storage().spec_next_id() == old(self).spec_nodes().spec_next_id() + 1,
            final(self).spec_pending().spec_created() == old(self).spec_pending().spec_created().push(v.spec_id()),
            final(self).spec_nodes() == *final(v.storage),
            final(self).spec_pending().spec_destroyed() == old(self).spec_pending().spec_destroyed(),
            final(self).spec_events() == old(self).spec_events(),
            final(self).spec_close() == old(self).spec_close(),
            final(self).spec_color() == old(self).spec_color(),
    {
        let id = self.nodes.insert_new_node();
        self.pending_nodes_handler.push_created(id);
        NodeView::new(id, &mut self.nodes, ActionOrigin::Code).unwrap()
    }

    /// Returns `true` if the scene holds a node with the given identifier.
    pub fn contains(&mut self, id: NodeID) -> (r: bool)
        requires
            old(self).wf(),
        ensures
            r == old(self).spec_nodes().spec_ids().contains(id.0),
            *final(self) == *old(self),
    {
        self.nodes.has_node(id)
    }

    /// The identifiers of all nodes, each once, oldest first.
    pub fn get_nodes_id(&self) -> (r: Vec<NodeID>)
        requires
            self.wf(),
        ensures
            r@.no_duplicates(),
            forall|i: int| 0 <= i < r@.len() ==> self.spec_nodes().spec_ids().contains(#[trigger] r@[i].0),
            forall|k: u32| self.spec_nodes().spec_ids().contains(k) ==> r@.contains(NodeID(k)),
    {
        self.nodes.get_nodes_id()
    }

    /// A view of the node `id`.
    ///
    /// Returns [`PrismaError::NodeNotFound`] if there is no such node.
    pub fn get_node(&mut self, id: NodeID) -> (r: Result<NodeView<'_>, PrismaError>)
        requires
            old(self).wf(),
        ensures
            old(self).spec_nodes().spec_ids().contains(id.0) ==> (r matches Ok(v) && v.wf() && v.spec_id() == id
                && v.spec_origin() == ActionOrigin::Code && v.spec_storage() == old(self).spec_nodes()),
            !old(self).spec_nodes().spec_ids().contains(id.0) ==> (r matches Err(PrismaError::NodeNotFound(e)) && e == id),
            r matches Ok(v) ==> final(self).spec_nodes() == *final(v.storage),
            r is Err ==> *final(self) == *old(self),
            final(self).spec_pending() == old(self).spec_pending(),
            final(self).spec_events() == old(self).spec_events(),
            final(self).spec_close() == old(self).spec_close(),
            final(self).spec_color() == old(self).spec_color(),
    {
        NodeView::new(id, &mut self.nodes, ActionOrigin::Code)
    }

    /// Registers a scene listener for `event_type` and returns its identifier.
    pub fn on_event(&mut self, event_type: EventType) -> (id: CallbackID)
        requires
            old(self).wf(),
        ensures
            final(self).wf(),
            id.0 == old(self).spec_events().spec_next_callback_id(),
            final(self).spec_events().spec_registry() == crate::event::event_manager::registry_add_scene(old(self).spec_events().spec_registry(), event_type),
            final(self).spec_nodes() == old(self).spec_nodes(),
            final(self).spec_pending() == old(self).spec_pending(),
            final(self).spec_close() == old(self).spec_close(),
            final(self).spec_color() == old(self).spec_color(),
    {
        self.event_manager.add_scene_event_listener(event_type)
    }

    /// Removes the listener identified by `target`.
    pub fn off_event(&mut self, target: CallbackID)
        requires
            old(self).wf(),
            lookup_table_exists(old(self).spec_events().spec_node_lookup(), old(self).spec_events().spec_listener_maps(), target),
        ensures
            final(self).wf(),
            final(self).spec_events().spec_registry() == registry_remove(old(self).spec_events().spec_registry(), target),
            crate::event::event_manager::listener_gone(old(self).spec_events(), final(self).spec_events(), target),
            final(self).spec_nodes() == old(self).spec_nodes(),
            final(self).spec_pending() == old(self).spec_pending(),
            final(self).spec_close() == old(self).spec_close(),
            final(self).spec_color() == old(self).spec_color(),
    {
        self.event_manager.remove_event_listener(target);
    }

    /// Sets the background color, always opaque.
    pub fn bg_color(&mut self, color: Color)
        ensures
            final(self).spec_color() == (Color { a: 255, ..color }),
            final(self).spec_nodes() == old(self).spec_nodes(),
            final(self).spec_events() == old(self).spec_events(),
            final(self).spec_pending() == old(self).spec_pending(),
            final(self).spec_close() == old(self).spec_close(),
    {
        self.color = Color { a: 255, ..color };
    }

    pub fn get_bg_color(&self) -> (c: Color)
        ensures
            c == self.spec_color(),
    {
        self.color
    }

    /// Returns `true` once the window is about to close.
    pub fn is_quitting(&self) -> (r: bool)
        ensures
            r == self.spec_close().spec_quitting(),
    {
        self.close_handler.quitting
    }

    /// Applies the queued tree actions of node `id`, in order.
    pub fn process_node_tree_actions(&mut self, id: NodeID)
        requires
            old(self).wf(),
            old(self).spec_nodes().spec_ids().contains(id.0),
        ensures
            final(self).wf(),
            ({
                let t0 = old(self).spec_nodes().spec_tree()[id.0];
                let r = run_tree_actions(t0.spec_parent(), t0.spec_children(), old(self).spec_nodes().spec_queue()[id.0].spec_tree());
                &&& final(self).spec_nodes().spec_tree()[id.0].spec_parent() == r.0
                &&& final(self).spec_nodes().spec_tree()[id.0].spec_children() == r.1
            }),
            final(self).spec_nodes().spec_tree().dom() == old(self).spec_nodes().spec_tree().dom(),
            forall|k: u32| k != id.0 && #[trigger] old(self).spec_nodes().spec_tree().contains_key(k)
                ==> final(self).spec_nodes().spec_tree()[k] == old(self).spec_nodes().spec_tree()[k],
            final(self).spec_nodes().spec_queue()[id.0].spec_tree().len() == 0,
            final(self).spec_nodes().spec_queue()[id.0].spec_style() == old(self).spec_nodes().spec_queue()[id.0].spec_style(),
            final(self).spec_nodes().spec_queue()[id.0].spec_listener() == old(self).spec_nodes().spec_queue()[id.0].spec_listener(),
            final(self).spec_nodes().spec_queue().dom() == old(self).spec_nodes().spec_queue().dom(),
            forall|k: u32| k != id.0 && #[trigger] old(self).spec_nodes().spec_queue().contains_key(k)
                ==> final(self).spec_nodes().spec_queue()[k] == old(self).spec_nodes().spec_queue()[k],
            final(self).spec_nodes().spec_visual() == old(self).spec_nodes().spec_visual(),
            final(self).spec_nodes().spec_state() == old(self).spec_nodes().spec_state(),
            final(self).spec_nodes().spec_next_id() == old(self).spec_nodes().spec_next_id(),
            final(self).spec_events() == old(self).spec_events(),
            final(self).spec_pending() == old(self).spec_pending(),
            final(self).spec_close() == old(self).spec_close(),
            final(self).spec_color() == old(self).spec_color(),
            final(self).spec_nodes().spec_order() == old(self).spec_nodes().spec_order(),
    {
        let ghost t0 = self.nodes.spec_tree()[id.0];
        let ghost target = run_tree_actions(t0.spec_parent(), t0.spec_children(), self.nodes.spec_queue()[id.0].spec_tree());
        loop
            invariant
                self.wf(),
                self.nodes.spec_ids().contains(id.0),
                run_tree_actions(self.nodes.spec_tree()[id.0].spec_parent(), self.nodes.spec_tree()[id.0].spec_children(),
                    self.nodes.spec_queue()[id.0].spec_tree()) == target,
                self.nodes.spec_tree().dom() == old(self).spec_nodes().spec_tree().dom(),
                forall|k: u32| k != id.0 && #[trigger] old(self).spec_nodes().spec_tree().contains_key(k)
                    ==> self.nodes.spec_tree()[k] == old(self).spec_nodes().spec_tree()[k],
                self.nodes.spec_queue()[id.0].spec_style() == old(self).spec_nodes().spec_queue()[id.0].spec_style(),
                self.nodes.spec_queue()[id.0].spec_listener() == old(self).spec_nodes().spec_queue()[id.0].spec_listener(),
                self.nodes.spec_queue().dom() == old(self).spec_nodes().spec_queue().dom(),
                forall|k: u32| k != id.0 && #[trigger] old(self).spec_nodes().spec_queue().contains_key(k)
                    ==> self.nodes.spec_queue()[k] == old(self).spec_nodes().spec_queue()[k],
                self.nodes.spec_visual() == old(self).spec_nodes().spec_visual(),
                self.nodes.spec_state() == old(self).spec_nodes().spec_state(),
                self.nodes.spec_next_id() == old(self).spec_nodes().spec_next_id(),
                self.nodes.spec_order() == old(self).spec_nodes().spec_order(),
                self.event_manager == old(self).spec_events(),
                self.pending_nodes_handler == old(self).spec_pending(),
                self.close_handler == old(self).spec_close(),
                self.color == old(self).spec_color(),
            ensures
                self.nodes.spec_queue()[id.0].spec_tree().len() == 0,
            decreases self.nodes.spec_queue()[id.0].spec_tree().len(),
        {
            match self.nodes.queue_pop_tree(id) {
                None => {
                    break;
                },
                Some(action) => {
                    match action {
                        NodeTreeAction::AddChild { child } => {
                            self.nodes.tree_add_child(id, child);
                        },
                        NodeTreeAction::RemoveChild { child } => {
                            self.nodes.tree_remove_child(id, child);
                        },
                        NodeTreeAction::SetParent { parent } => {
                            self.nodes.tree_set_parent(id, parent);
                        },
                    }
                },
            }
        }
    }

    /// Applies the queued listener actions of node `id`, in order, and returns
    /// the identifiers given to the listeners it added, in order.
    ///
    /// Returns [`PrismaError::NodeComponentNotFound`] with `id`, after the
    /// actions before it, at a removal whose lookup names a listener table
    /// that no longer exists.
    pub fn process_node_event_listener_actions(&mut self, id: NodeID) -> (r: Result<Vec<CallbackID>, PrismaError>)
        requires
            old(self).wf(),
            old(self).spec_nodes().spec_ids().contains(id.0),
        ensures
            final(self).wf(),
            ({
                let run = run_listener_actions(old(self).spec_events().spec_registry(), id,
                    old(self).spec_nodes().spec_queue()[id.0].spec_listener());
                &&& final(self).spec_events().spec_registry() == run.0
                &&& final(self).spec_nodes().spec_queue()[id.0].spec_listener() == run.2
                &&& (r is Ok <==> run.3)
                &&& (r matches Ok(v) ==> v@ == run.1)
                &&& (r matches Err(e) ==> e == PrismaError::NodeComponentNotFound(id))
            }),
            final(self).spec_nodes().spec_queue()[id.0].spec_style() == old(self).spec_nodes().spec_queue()[id.0].spec_style(),
            final(self).spec_nodes().spec_queue()[id.0].spec_tree() == old(self).spec_nodes().spec_queue()[id.0].spec_tree(),
            final(self).spec_nodes().spec_queue().dom() == old(self).spec_nodes().spec_queue().dom(),
            forall|k: u32| k != id.0 && #[trigger] old(self).spec_nodes().spec_queue().contains_key(k)
                ==> final(self).spec_nodes().spec_queue()[k] == old(self).spec_nodes().spec_queue()[k],
            final(self).spec_nodes().spec_tree() == old(self).spec_nodes().spec_tree(),
            final(self).spec_nodes().spec_visual() == old(self).spec_nodes().spec_visual(),
            final(self).spec_nodes().spec_state() == old(self).spec_nodes().spec_state(),
            final(self).spec_nodes().spec_next_id() == old(self).spec_nodes().spec_next_id(),
            same_pointer(old(self).spec_events(), final(self).spec_events()),
            same_close(old(self).spec_events(), final(self).spec_events()),
            same_managers(old(self).spec_events(), final(self).spec_events()),
            final(self).spec_pending() == old(self).spec_pending(),
            final(self).spec_close() == old(self).spec_close(),
            final(self).spec_color() == old(self).spec_color(),
            final(self).spec_nodes().spec_order() == old(self).spec_nodes().spec_order(),
    {
        let ghost target = run_listener_actions(self.event_manager.spec_registry(), id, self.nodes.spec_queue()[id.0].spec_listener());
        let mut added: Vec<CallbackID> = Vec::new();
        loop
            invariant
                self.wf(),
                self.nodes.spec_ids().contains(id.0),
                target == run_listener_actions(old(self).spec_events().spec_registry(), id,
                    old(self).spec_nodes().spec_queue()[id.0].spec_listener()),
                ({
                    let cur = run_listener_actions(self.event_manager.spec_registry(), id, self.nodes.spec_queue()[id.0].spec_listener());
                    &&& target.0 == cur.0
                    &&& target.1 == added@ + cur.1
                    &&& target.2 == cur.2
                    &&& target.3 == cur.3
                }),
                self.nodes.spec_queue()[id.0].spec_style() == old(self).spec_nodes().spec_queue()[id.0].spec_style(),
                self.nodes.spec_queue()[id.0].spec_tree() == old(self).spec_nodes().spec_queue()[id.0].spec_tree(),
                self.nodes.spec_queue().dom() == old(self).spec_nodes().spec_queue().dom(),
                forall|k: u32| k != id.0 && #[trigger] old(self).spec_nodes().spec_queue().contains_key(k)
                    ==> self.nodes.spec_queue()[k] == old(self).spec_nodes().spec_queue()[k],
                self.nodes.spec_tree() == old(self).spec_nodes().spec_tree(),
                self.nodes.spec_visual() == old(self).spec_nodes().spec_visual(),
                self.nodes.spec_state() == old(self).spec_nodes().spec_state(),
                self.nodes.spec_next_id() == old(self).spec_nodes().spec_next_id(),
                self.nodes.spec_order() == old(self).spec_nodes().spec_order(),
                same_pointer(old(self).spec_events(), self.event_manager),
                same_close(old(self).spec_events(), self.event_manager),
                same_managers(old(self).spec_events(), self.event_manager),
                self.pending_nodes_handler == old(self).spec_pending(),
                self.close_handler == old(self).spec_close(),
                self.color == old(self).spec_color(),
            decreases self.nodes.spec_queue()[id.0].spec_listener().len(),
        {
            let ghost q = self.nodes.spec_queue()[id.0].spec_listener();
            let ghost reg = self.event_manager.spec_registry();
            match self.nodes.queue_pop_listener(id) {
                None => {
                    proof {
                        assert(added@ + Seq::<CallbackID>::empty() =~= added@);
                    }
                    return Ok(added);
                },
                Some(action) => {
                    match action {
                        EventListenerAction::Add { event_type } => {
                            let cid = self.event_manager.add_node_event_listener(id, event_type);
                            proof {
                                let rest = run_listener_actions(registry_add_node(reg, id, event_type), id, q.drop_first());
                                assert(added@.push(cid) + rest.1 =~= added@ + (seq![cid] + rest.1));
                            }
                            added.push(cid);
                        },
                        EventListenerAction::Remove { target: t } => {
                            match self.event_manager.stale_lookup_node(t) {
                                None => {
                                    self.event_manager.remove_event_listener(t);
                                },
                                Some(_) => {
                                    return Err(PrismaError::NodeComponentNotFound(id));
                                },
                            }
                        },
                    }
                },
            }
        }
    }

    /// Schedules node `id` and all its descendants for destruction when the
    /// node asked for it; each node is listed once.
    pub fn process_node_destruction_queue(&mut self, id: NodeID)
        requires
            old(self).wf(),
            old(self).spec_nodes().spec_ids().contains(id.0),
            old(self).spec_nodes().spec_state()[id.0].destruction_requested ==> {
                &&& family_terminates(old(self).spec_nodes().spec_tree(), id)
                &&& family_result(old(self).spec_nodes().spec_tree(), id) matches Some(Ok(_))
            },
        ensures
            final(self).wf(),
            old(self).spec_nodes().spec_state()[id.0].destruction_requested ==> (
                family_result(old(self).spec_nodes().spec_tree(), id) matches Some(Ok(f))
                && final(self).spec_pending().spec_destroyed() == append_new(old(self).spec_pending().spec_destroyed(), f)),
            !old(self).spec_nodes().spec_state()[id.0].destruction_requested
                ==> final(self).spec_pending().spec_destroyed() == old(self).spec_pending().spec_destroyed(),
            final(self).spec_pending().spec_created() == old(self).spec_pending().spec_created(),
            final(self).spec_nodes() == old(self).spec_nodes(),
            final(self).spec_events() == old(self).spec_events(),
            final(self).spec_close() == old(self).spec_close(),
            final(self).spec_color() == old(self).spec_color(),
            final(self).spec_nodes().spec_order() == old(self).spec_nodes().spec_order(),
    {
        let st = self.nodes.state_of(id);
        if st.destruction_requested {
            let family = self.nodes.get_family(id);
            match family {
                Ok(f) => {
                    let ghost d0 = self.pending_nodes_handler.spec_destroyed();
                    let mut i: usize = 0;
                    proof {
                        assert(f@.subrange(0, f@.len() as int) =~= f@);
                    }
                    while i < f.len()
                        invariant
                            i <= f@.len(),
                            append_new(self.pending_nodes_handler.spec_destroyed(), f@.subrange(i as int, f@.len() as int))
                                == append_new(d0, f@),
                            d0 == old(self).spec_pending().spec_destroyed(),
                            self.pending_nodes_handler.spec_created() == old(self).spec_pending().spec_created(),
                            self.nodes == old(self).spec_nodes(),
                            self.event_manager == old(self).spec_events(),
                            self.close_handler == old(self).spec_close(),
                            self.color == old(self).spec_color(),
                        decreases f@.len() - i,
                    {
                        proof {
                            let rest = f@.subrange(i as int, f@.len() as int);
                            assert(rest.drop_first() =~= f@.subrange(i + 1, f@.len() as int));
                            assert(rest[0] == f@[i as int]);
                        }
                        if !self.pending_nodes_handler.destroyed_contains(f[i]) {
                            self.pending_nodes_handler.push_destroyed(f[i]);
                        }
                        i = i + 1;
                    }
                    proof {
                        assert(f@.subrange(i as int, f@.len() as int) =~= Seq::<NodeID>::empty());
                    }
                },
                Err(_) => {},
            }
        }
    }

    /// One frame of the style actions of node `id` at time `now`: nothing
    /// while a timer started by a `Wait` runs; else the timer is cleared, the
    /// node is drawn as normal, and its queued style actions apply in order
    /// up to the next `Wait`. Actions queued by the hover and active style
    /// callbacks apply to the hovered and active looks, as the node is.
    pub fn process_node_style_actions(&mut self, id: NodeID, now: u64)
        requires
            old(self).wf(),
            old(self).spec_nodes().spec_ids().contains(id.0),
        ensures
            final(self).wf(),
            ({
                let r = style_frame(old(self).spec_nodes().spec_visual()[id.0], old(self).spec_nodes().spec_queue()[id.0].spec_style(),
                    old(self).spec_events().spec_hovered() == Some(id), old(self).spec_events().spec_active() == Some(id), now);
                &&& final(self).spec_nodes().spec_visual() == old(self).spec_nodes().spec_visual().insert(id.0, r.0)
                &&& final(self).spec_nodes().spec_queue()[id.0].spec_style() == r.1
            }),
            final(self).spec_nodes().spec_queue()[id.0].spec_listener() == old(self).spec_nodes().spec_queue()[id.0].spec_listener(),
            final(self).spec_nodes().spec_queue()[id.0].spec_tree() == old(self).spec_nodes().spec_queue()[id.0].spec_tree(),
            final(self).spec_nodes().spec_queue().dom() == old(self).spec_nodes().spec_queue().dom(),
            forall|k: u32| k != id.0 && #[trigger] old(self).spec_nodes().spec_queue().contains_key(k)
                ==> final(self).spec_nodes().spec_queue()[k] == old(self).spec_nodes().spec_queue()[k],
            final(self).spec_nodes().spec_tree() == old(self).spec_nodes().spec_tree(),
            final(self).spec_nodes().spec_state() == old(self).spec_nodes().spec_state(),
            final(self).spec_nodes().spec_next_id() == old(self).spec_nodes().spec_next_id(),
            final(self).spec_events() == old(self).spec_events(),
            final(self).spec_pending() == old(self).spec_pending(),
            final(self).spec_close() == old(self).spec_close(),
            final(self).spec_color() == old(self).spec_color(),
            final(self).spec_nodes().spec_order() == old(self).spec_nodes().spec_order(),
    {
        let hovered = self.event_manager.is_node_hovered(id);
        let active = self.event_manager.is_node_active(id);
        let mut v = self.nodes.visual_of(id);
        let ghost v_start = v;
        let ghost q_start = self.nodes.spec_queue()[id.0].spec_style();
        match (v.get_timer(), v.get_timer_start()) {
            (Some(timer), Some(start)) => {
                if now < start || now - start < timer {
                    proof {
                        assert(self.nodes.spec_visual().insert(id.0, v) =~= self.nodes.spec_visual());
                    }
                    return;
                }
                v.clear_timer();
            },
            _ => {},
        }
        v.set_normal();
        let ghost target = run_style_actions(v, q_start, hovered, active, now);
        proof {
            assert(target == style_frame(v_start, q_start, hovered, active, now));
        }
        loop
            invariant_except_break
                run_style_actions(v, self.nodes.spec_queue()[id.0].spec_style(), hovered, active, now) == target,
            invariant
                self.wf(),
                self.nodes.spec_ids().contains(id.0),
                target == style_frame(v_start, q_start, hovered, active, now),
                v_start == old(self).spec_nodes().spec_visual()[id.0],
                q_start == old(self).spec_nodes().spec_queue()[id.0].spec_style(),
                hovered == (old(self).spec_events().spec_hovered() == Some(id)),
                active == (old(self).spec_events().spec_active() == Some(id)),
                self.nodes.spec_queue()[id.0].spec_listener() == old(self).spec_nodes().spec_queue()[id.0].spec_listener(),
                self.nodes.spec_queue()[id.0].spec_tree() == old(self).spec_nodes().spec_queue()[id.0].spec_tree(),
                self.nodes.spec_queue().dom() == old(self).spec_nodes().spec_queue().dom(),
                forall|k: u32| k != id.0 && #[trigger] old(self).spec_nodes().spec_queue().contains_key(k)
                    ==> self.nodes.spec_queue()[k] == old(self).spec_nodes().spec_queue()[k],
                self.nodes.spec_tree() == old(self).spec_nodes().spec_tree(),
                self.nodes.spec_visual() == old(self).spec_nodes().spec_visual(),
                self.nodes.spec_state() == old(self).spec_nodes().spec_state(),
                self.nodes.spec_next_id() == old(self).spec_nodes().spec_next_id(),
                self.nodes.spec_order() == old(self).spec_nodes().spec_order(),
                self.event_manager == old(self).spec_events(),
                self.pending_nodes_handler == old(self).spec_pending(),
                self.close_handler == old(self).spec_close(),
                self.color == old(self).spec_color(),
            ensures
                (v, self.nodes.spec_queue()[id.0].spec_style()) == target,
            decreases self.nodes.spec_queue()[id.0].spec_style().len(),
        {
            match self.nodes.queue_pop_style_action(id) {
                Some(Action::Style { action, origin }) => {
                    if origin == ActionOrigin::Visual {
                        if hovered {
                            v.set_hover();
                        }
                        if active {
                            v.set_active();
                        }
                    }
                    match action {
                        StyleAction::BGColor { color } => {
                            v.set_color(color);
                        },
                        StyleAction::Layer { layer } => {
                            v.set_layer(layer);
                        },
                        StyleAction::BorderRadius { radius } => {
                            v.set_border_radius(radius);
                        },
                        StyleAction::Scale { x, y } => {
                            v.set_scale(x, y);
                        },
                        StyleAction::Position { position, absolute } => {
                            if let Some(p) = position {
                                v.set_position(p);
                            }
                            if let Some(b) = absolute {
                                if b {
                                    v.set_position_absolute();
                                } else {
                                    v.set_position_relative();
                                }
                            }
                        },
                        StyleAction::Size { width, height } => {
                            v.set_size(width, height);
                        },
                        StyleAction::Wait { ms } => {
                            v.set_timer(ms, now);
                            break;
                        },
                    }
                },
                _ => {
                    break;
                },
            }
        }
        self.nodes.set_visual(id, v);
    }

    /// The frame view of the scene.
    pub open spec fn spec_frame_view(&self) -> FrameView {
        frame_view(self.spec_nodes(), self.spec_events().spec_registry(), self.spec_pending().spec_destroyed())
    }

    /// Processes node `id` for one frame at time `now`, walking its family for
    /// at most `fuel` levels, and returns the listeners it added.
    fn process_node(&mut self, id: NodeID, fuel: u64, now: u64) -> (r: Result<Vec<CallbackID>, PrismaError>)
        requires
            old(self).wf(),
            old(self).spec_nodes().spec_ids().contains(id.0),
        ensures
            final(self).wf(),
            ({
                let s = node_step(old(self).spec_frame_view(), id, old(self).spec_events().spec_hovered() == Some(id),
                    old(self).spec_events().spec_active() == Some(id), now, fuel as nat);
                &&& final(self).spec_frame_view() == s.0
                &&& (r is Ok <==> s.2 is None)
                &&& (r matches Ok(v) ==> v@ == s.1)
                &&& (r matches Err(e) ==> s.2 == Some(e))
            }),
            final(self).spec_nodes().spec_ids() == old(self).spec_nodes().spec_ids(),
            final(self).spec_nodes().spec_next_id() == old(self).spec_nodes().spec_next_id(),
            final(self).spec_pending().spec_created() == old(self).spec_pending().spec_created(),
            same_pointer(old(self).spec_events(), final(self).spec_events()),
            same_close(old(self).spec_events(), final(self).spec_events()),
            same_managers(old(self).spec_events(), final(self).spec_events()),
            final(self).spec_close() == old(self).spec_close(),
            final(self).spec_color() == old(self).spec_color(),
            final(self).spec_nodes().spec_order() == old(self).spec_nodes().spec_order(),
    {
        proof {
            self.nodes.lemma_components();
        }
        let ghost f0 = self.spec_frame_view();
        let ghost hovered = self.event_manager.spec_hovered() == Some(id);
        let ghost active = self.event_manager.spec_active() == Some(id);
        let ghost links = run_tree_actions(f0.parents[id.0], f0.children[id.0], f0.tree_q[id.0]);
        let ghost f1 = FrameView {
            parents: f0.parents.insert(id.0, links.0),
            children: f0.children.insert(id.0, links.1),
            tree_q: f0.tree_q.insert(id.0, Seq::empty()),
            ..f0
        };
        let ghost t0 = self.nodes.spec_tree();
        let ghost q0 = self.nodes.spec_queue();
        self.process_node_tree_actions(id);
        proof {
            let v = self.spec_frame_view();
            let t1 = self.nodes.spec_tree();
            let q1 = self.nodes.spec_queue();
            assert forall|k: u32| #[trigger] t1.contains_key(k) && k != id.0 implies t1[k] == t0[k] by {
                assert(t0.contains_key(k));
            }
            assert forall|k: u32| #[trigger] q1.contains_key(k) && k != id.0 implies q1[k] == q0[k] by {
                assert(q0.contains_key(k));
            }
            assert(q1[id.0].spec_tree() =~= Seq::<(NodeTreeAction, ActionOrigin)>::empty());
            assert(v.parents =~= f1.parents);
            assert(v.children =~= f1.children);
            assert(v.tree_q =~= f1.tree_q);
            assert(v.listener_q =~= f1.listener_q);
            assert(v.style_q =~= f1.style_q);
            assert(v == f1);
        }
        let ghost run = run_listener_actions(f1.registry, id, f1.listener_q[id.0]);
        let ghost f2 = FrameView { registry: run.0, listener_q: f1.listener_q.insert(id.0, run.2), ..f1 };
        let res = self.process_node_event_listener_actions(id);
        proof {
            let v = self.spec_frame_view();
            assert(v.parents =~= f2.parents);
            assert(v.children =~= f2.children);
            assert(v.tree_q =~= f2.tree_q);
            assert(v.listener_q =~= f2.listener_q);
            assert(v.style_q =~= f2.style_q);
            assert(v == f2);
        }
        let cids = match res {
            Ok(v) => v,
            Err(e) => {
                return Err(e);
            },
        };
        let st = self.nodes.state_of(id);
        let ghost f3 = f2;
        if st.destruction_requested {
            match self.nodes.family_within(id, fuel) {
                Some(None) => {
                    proof {
                        lemma_family_result(self.nodes.spec_tree(), id, fuel as nat);
                        lemma_family_of_children(self.nodes.spec_tree(), id, fuel as nat);
                    }
                    let ghost fam = family_of_children(f2.children, id, fuel as nat)->Some_0->Ok_0;
                    self.process_node_destruction_queue(id);
                    proof {
                        f3 = FrameView { destroyed: append_new(f2.destroyed, fam), ..f2 };
                        let v = self.spec_frame_view();
                        assert(v == f3);
                    }
                },
                Some(Some(e)) => {
                    proof {
                        lemma_family_of_children(self.nodes.spec_tree(), id, fuel as nat);
                    }
                    return Err(PrismaError::NodeComponentNotFound(e));
                },
                None => {
                    proof {
                        lemma_family_of_children(self.nodes.spec_tree(), id, fuel as nat);
                    }
                    return Err(PrismaError::InvalidTree(id, id));
                },
            }
        }
        self.process_node_style_actions(id, now);
        proof {
            let v = self.spec_frame_view();
            let g = style_step(f3, id, hovered, active, now);
            assert(v.visual =~= g.visual);
            assert(v.style_q =~= g.style_q);
            assert(v.tree_q =~= g.tree_q);
            assert(v.listener_q =~= g.listener_q);
            assert(v == g);
        }
        Ok(cids)
    }

    /// Processes every node, oldest first: its tree actions, its listener
    /// actions, its destruction request and its style actions at time `now`.
    /// Returns the listeners added, with their nodes, in order.
    ///
    /// Fails with the error of the first node whose listener removal names a
    /// missing listener table ([`PrismaError::NodeComponentNotFound`] with the
    /// node), whose family meets a node without a tree component
    /// ([`PrismaError::NodeComponentNotFound`] with that node), or whose
    /// family does not end within as many levels as there are nodes
    /// ([`PrismaError::InvalidTree`] with the node twice).
    fn process_nodes(&mut self, now: u64) -> (r: Result<Vec<(NodeID, CallbackID)>, PrismaError>)
        requires
            old(self).wf(),
        ensures
            final(self).wf(),
            ({
                let out = frames(old(self).spec_frame_view(), old(self).spec_nodes().spec_order(),
                    old(self).spec_events().spec_hovered(), old(self).spec_events().spec_active(), now,
                    frame_fuel(old(self).spec_nodes().spec_order().len()));
                &&& final(self).spec_frame_view() == out.0
                &&& (r is Ok <==> out.2 is None)
                &&& (r matches Ok(v) ==> v@ == out.1)
                &&& (r matches Err(e) ==> out.2 == Some(e))
            }),
            final(self).spec_nodes().spec_ids() == old(self).spec_nodes().spec_ids(),
            final(self).spec_nodes().spec_next_id() == old(self).spec_nodes().spec_next_id(),
            final(self).spec_pending().spec_created() == old(self).spec_pending().spec_created(),
            same_pointer(old(self).spec_events(), final(self).spec_events()),
            same_close(old(self).spec_events(), final(self).spec_events()),
            same_managers(old(self).spec_events(), final(self).spec_events()),
            final(self).spec_close() == old(self).spec_close(),
            final(self).spec_color() == old(self).spec_color(),
            final(self).spec_nodes().spec_order() == old(self).spec_nodes().spec_order(),
    {
        let ids = self.nodes.get_nodes_id();
        let n: u64 = ids.len() as u64;
        let fuel: u64 = if n < u64::MAX { n + 1 } else { n };
        let ghost h = self.event_manager.spec_hovered();
        let ghost a = self.event_manager.spec_active();
        let ghost target = frames(self.spec_frame_view(), ids@, h, a, now, fuel as nat);
        let mut added: Vec<(NodeID, CallbackID)> = Vec::new();
        let mut i: usize = 0;
        proof {
            assert(ids@.subrange(0, ids@.len() as int) =~= ids@);
            assert(Seq::<(NodeID, CallbackID)>::empty() + target.1 =~= target.1);
        }
        while i < ids.len()
            invariant
                self.wf(),
                i <= ids@.len(),
                ids@ == old(self).spec_nodes().spec_order(),
                fuel as nat == frame_fuel(ids@.len()),
                forall|j: int| 0 <= j < ids@.len() ==> old(self).spec_nodes().spec_ids().contains(#[trigger] ids@[j].0),
                h == old(self).spec_events().spec_hovered(),
                a == old(self).spec_events().spec_active(),
                target == frames(old(self).spec_frame_view(), ids@, h, a, now, fuel as nat),
                ({
                    let cur = frames(self.spec_frame_view(), ids@.subrange(i as int, ids@.len() as int), h, a, now, fuel as nat);
                    &&& target.0 == cur.0
                    &&& target.1 == added@ + cur.1
                    &&& target.2 == cur.2
                }),
                self.nodes.spec_ids() == old(self).spec_nodes().spec_ids(),
                self.nodes.spec_next_id() == old(self).spec_nodes().spec_next_id(),
                self.nodes.spec_order() == old(self).spec_nodes().spec_order(),
                self.pending_nodes_handler.spec_created() == old(self).spec_pending().spec_created(),
                same_pointer(old(self).spec_events(), self.event_manager),
                same_close(old(self).spec_events(), self.event_manager),
                same_managers(old(self).spec_events(), self.event_manager),
                self.close_handler == old(self).spec_close(),
                self.color == old(self).spec_color(),
            decreases ids@.len() - i,
        {
            let ghost rest = ids@.subrange(i as int, ids@.len() as int);
            proof {
                assert(rest.drop_first() =~= ids@.subrange(i + 1, ids@.len() as int));
                assert(rest[0] == ids@[i as int]);
            }
            let id = ids[i];
            let ghost a0 = added@;
            match self.process_node(id, fuel, now) {
                Ok(cids) => {
                    let mut j: usize = 0;
                    while j < cids.len()
                        invariant
                            j <= cids@.len(),
                            added@ == a0 + paired(id, cids@.subrange(0, j as int)),
                        decreases cids@.len() - j,
                    {
                        added.push((id, cids[j]));
                        j = j + 1;
                        proof {
                            assert(added@ =~= a0 + paired(id, cids@.subrange(0, j as int)));
                        }
                    }
                    proof {
                        assert(cids@.subrange(0, j as int) =~= cids@);
                        assert(a0 + (paired(id, cids@) + frames(self.spec_frame_view(), rest.drop_first(), h, a, now, fuel as nat).1)
                            =~= (a0 + paired(id, cids@)) + frames(self.spec_frame_view(), rest.drop_first(), h, a, now, fuel as nat).1);
                    }
                },
                Err(e) => {
                    return Err(e);
                },
            }
            i = i + 1;
        }
        proof {
            assert(ids@.subrange(i as int, ids@.len() as int) =~= Seq::<NodeID>::empty());
            assert(added@ + Seq::<(NodeID, CallbackID)>::empty() =~= added@);
        }
        Ok(added)
    }

    /// Starts a frame at time `now`: processes every node, then queues the
    /// lifecycle events of the nodes created and destroyed since the last
    /// frame, and forgets them. Returns the listeners the nodes added, with
    /// their nodes, and the nodes to destroy once the events are dispatched.
    pub fn begin_lifecycle(&mut self, now: u64) -> (r: Result<(Vec<(NodeID, CallbackID)>, Vec<NodeID>), PrismaError>)
        requires
            old(self).wf(),
        ensures
            final(self).wf(),
            final(self).spec_nodes().spec_ids() == old(self).spec_nodes().spec_ids(),
            ({
                let out = frames(old(self).spec_frame_view(), old(self).spec_nodes().spec_order(),
                    old(self).spec_events().spec_hovered(), old(self).spec_events().spec_active(), now,
                    frame_fuel(old(self).spec_nodes().spec_order().len()));
                &&& (r is Ok <==> out.2 is None)
                &&& (r matches Err(e) ==> out.2 == Some(e) && final(self).spec_frame_view() == out.0)
                &&& (r matches Ok((added, destroyed)) ==> {
                    &&& added@ == out.1
                    &&& destroyed@ == out.0.destroyed
                    &&& final(self).spec_frame_view() == (FrameView { destroyed: Seq::empty(), ..out.0 })
                    &&& final(self).spec_pending().spec_created().len() == 0
                    &&& final(self).spec_events().spec_lifecycle().spec_queue() == old(self).spec_events().spec_lifecycle().spec_queue()
                        + crate::event::event_manager::updates_of(crate::event::event_manager::update_targets(
                            out.0.registry.node_lookup, old(self).spec_pending().spec_created(), destroyed@))
                        + crate::event::event_manager::creations_of(old(self).spec_pending().spec_created())
                        + crate::event::event_manager::destructions_of(destroyed@)
                })
            }),
            final(self).spec_nodes().spec_order() == old(self).spec_nodes().spec_order(),
            final(self).spec_nodes().spec_next_id() == old(self).spec_nodes().spec_next_id(),
            same_pointer(old(self).spec_events(), final(self).spec_events()),
            same_close(old(self).spec_events(), final(self).spec_events()),
            final(self).spec_events().spec_mouse() == old(self).spec_events().spec_mouse(),
            final(self).spec_events().spec_window() == old(self).spec_events().spec_window(),
            r is Err ==> final(self).spec_events().spec_lifecycle() == old(self).spec_events().spec_lifecycle(),
            r is Err ==> final(self).spec_pending().spec_created() == old(self).spec_pending().spec_created(),
            final(self).spec_close() == old(self).spec_close(),
            final(self).spec_color() == old(self).spec_color(),
    {
        let added = self.process_nodes(now)?;
        let created = self.pending_nodes_handler.take_created();
        let destroyed = self.pending_nodes_handler.take_destroyed();
        self.event_manager.manage_lifecycle_events(&created, &destroyed);
        Ok((added, destroyed))
    }

    /// Hands one input of the windowing system to the event manager.
    pub fn manage_sdl_event(&mut self, mouse: crate::event::mouse_manager::MouseInput, window: crate::event::window_manager::WindowInput)
        requires
            old(self).wf(),
        ensures
            final(self).wf(),
            same_registry(old(self).spec_events(), final(self).spec_events()),
            same_pointer(old(self).spec_events(), final(self).spec_events()),
            same_close(old(self).spec_events(), final(self).spec_events()),
            crate::event::mouse_manager::mouse_step(old(self).spec_events().spec_mouse(), final(self).spec_events().spec_mouse(), mouse),
            final(self).spec_events().spec_window().spec_queue() == old(self).spec_events().spec_window().spec_queue()
                + crate::event::window_manager::window_events_of(window),
            final(self).spec_events().spec_lifecycle() == old(self).spec_events().spec_lifecycle(),
            final(self).spec_nodes() == old(self).spec_nodes(),
            final(self).spec_pending() == old(self).spec_pending(),
            final(self).spec_close() == old(self).spec_close(),
            final(self).spec_color() == old(self).spec_color(),
    {
        self.event_manager.manage_sdl_event(mouse, window);
    }

    /// Ends a dispatch at time `now`: records the nodes it created and
    /// scheduled for destruction, and handles its close request and
    /// cancellation; once the close request is due, every node asks to be
    /// destroyed.
    pub fn end_dispatch(
        &mut self,
        created: Vec<NodeID>,
        destroyed: Vec<NodeID>,
        close_request: Option<CloseRequest>,
        cancel_requested: bool,
        now: u64,
    )
        requires
            old(self).wf(),
        ensures
            final(self).wf(),
            final(self).spec_pending().spec_created() == old(self).spec_pending().spec_created() + created@,
            final(self).spec_pending().spec_destroyed() == old(self).spec_pending().spec_destroyed() + destroyed@,
            ({
                let c1 = if close_request is Some { close_request } else { old(self).spec_close().spec_close_request() };
                let due = c1 matches Some(c) && close_elapsed(c, now);
                &&& final(self).spec_close().spec_quitting() == (old(self).spec_close().spec_quitting() || due)
                &&& final(self).spec_close().spec_close_request() == (if cancel_requested { None } else { c1 })
                &&& final(self).spec_events().spec_quitting() == (old(self).spec_events().spec_quitting() || due)
                &&& (due ==> forall|k: u32| #[trigger] final(self).spec_nodes().spec_ids().contains(k)
                    ==> final(self).spec_nodes().spec_state()[k].destruction_requested)
                &&& (!due ==> final(self).spec_nodes() == old(self).spec_nodes())
            }),
            final(self).spec_nodes().spec_ids() == old(self).spec_nodes().spec_ids(),
            final(self).spec_nodes().spec_tree() == old(self).spec_nodes().spec_tree(),
            final(self).spec_nodes().spec_visual() == old(self).spec_nodes().spec_visual(),
            final(self).spec_nodes().spec_queue() == old(self).spec_nodes().spec_queue(),
            same_registry(old(self).spec_events(), final(self).spec_events()),
            same_pointer(old(self).spec_events(), final(self).spec_events()),
            same_managers(old(self).spec_events(), final(self).spec_events()),
            final(self).spec_color() == old(self).spec_color(),
    {
        self.pending_nodes_handler.extend_pending(created, destroyed);
        let destroy_all = self.close_handler.handle_close(close_request, cancel_requested, now, &mut self.event_manager);
        if destroy_all {
            let ids = self.nodes.get_nodes_id();
            let ghost p1 = self.pending_nodes_handler;
            let ghost c1 = self.close_handler;
            let ghost e1 = self.event_manager;
            let mut i: usize = 0;
            while i < ids.len()
                invariant
                    self.nodes.wf(),
                    self.pending_nodes_handler == p1,
                    self.close_handler == c1,
                    self.event_manager == e1,
                    e1.wf(),
                    self.color == old(self).spec_color(),
                    i <= ids@.len(),
                    ids@.no_duplicates(),
                    forall|j: int| 0 <= j < ids@.len() ==> old(self).spec_nodes().spec_ids().contains(#[trigger] ids@[j].0),
                    forall|k: u32| old(self).spec_nodes().spec_ids().contains(k) ==> ids@.contains(NodeID(k)),
                    self.nodes.spec_ids() == old(self).spec_nodes().spec_ids(),
                    self.nodes.spec_tree() == old(self).spec_nodes().spec_tree(),
                    self.nodes.spec_visual() == old(self).spec_nodes().spec_visual(),
                    self.nodes.spec_queue() == old(self).spec_nodes().spec_queue(),
                    self.nodes.spec_next_id() == old(self).spec_nodes().spec_next_id(),
                    forall|j: int| 0 <= j < i ==> self.nodes.spec_state()[#[trigger] ids@[j].0].destruction_requested,
                decreases ids@.len() - i,
            {
                self.nodes.set_state(ids[i], NodeState { destruction_requested: true });
                i = i + 1;
            }
            proof {
                assert forall|k: u32| #[trigger] self.nodes.spec_ids().contains(k) implies self.nodes.spec_state()[k].destruction_requested by {
                    assert(ids@.contains(NodeID(k)));
                    let j = choose|j: int| 0 <= j < ids@.len() && ids@[j] == NodeID(k);
                    assert(self.nodes.spec_state()[ids@[j].0].destruction_requested);
                }
            }
        }
    }

    /// Destroys the nodes `ids` in order, dropping their listeners first.
    ///
    /// Stops with [`PrismaError::NodeNotFound`] at the first node that is not
    /// (or no longer) stored.
    pub fn destroy_nodes(&mut self, ids: Vec<NodeID>) -> (r: Result<(), PrismaError>)
        requires
            old(self).wf(),
        ensures
            final(self).wf(),
            first_missing(old(self).spec_nodes().spec_ids(), ids@) matches Some(e)
                ==> r == Err::<(), PrismaError>(PrismaError::NodeNotFound(e)),
            first_missing(old(self).spec_nodes().spec_ids(), ids@) is None ==> {
                &&& r is Ok
                &&& final(self).spec_nodes().spec_ids() == without_all(old(self).spec_nodes().spec_ids(), ids@)
                &&& final(self).spec_events().spec_registry() == clear_all(old(self).spec_events().spec_registry(), ids@)
            },
            same_pointer(old(self).spec_events(), final(self).spec_events()),
            same_close(old(self).spec_events(), final(self).spec_events()),
            same_managers(old(self).spec_events(), final(self).spec_events()),
            final(self).spec_pending() == old(self).spec_pending(),
            final(self).spec_close() == old(self).spec_close(),
            final(self).spec_color() == old(self).spec_color(),
    {
        let mut i: usize = 0;
        proof {
            assert(ids@.subrange(0, ids@.len() as int) =~= ids@);
        }
        while i < ids.len()
            invariant
                self.wf(),
                i <= ids@.len(),
                first_missing(self.nodes.spec_ids(), ids@.subrange(i as int, ids@.len() as int))
                    == first_missing(old(self).spec_nodes().spec_ids(), ids@),
                without_all(self.nodes.spec_ids(), ids@.subrange(i as int, ids@.len() as int))
                    == without_all(old(self).spec_nodes().spec_ids(), ids@),
                clear_all(self.event_manager.spec_registry(), ids@.subrange(i as int, ids@.len() as int))
                    == clear_all(old(self).spec_events().spec_registry(), ids@),
                same_pointer(old(self).spec_events(), self.event_manager),
                same_close(old(self).spec_events(), self.event_manager),
                same_managers(old(self).spec_events(), self.event_manager),
                self.pending_nodes_handler == old(self).spec_pending(),
                self.close_handler == old(self).spec_close(),
                self.color == old(self).spec_color(),
            decreases ids@.len() - i,
        {
            proof {
                let rest = ids@.subrange(i as int, ids@.len() as int);
                assert(rest.drop_first() =~= ids@.subrange(i + 1, ids@.len() as int));
                assert(rest[0] == ids@[i as int]);
            }
            let id = ids[i];
            self.event_manager.clear_node_listeners(id);
            let res = self.nodes.destroy_node(id);
            match res {
                Ok(()) => {},
                Err(e) => {
                    return Err(e);
                },
            }
            i = i + 1;
        }
        proof {
            assert(ids@.subrange(i as int, ids@.len() as int) =~= Seq::<NodeID>::empty());
        }
        Ok(())
    }
}

} // verus!
