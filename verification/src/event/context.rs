//! What an event listener sees and asks for while an event is dispatched:
//! the event, its targets, the nodes, and the actions to carry out afterwards.
use vstd::prelude::*;
use crate::error::PrismaError;
use crate::event::event_manager::{
    first_stale, registry_add_scene, registry_remove, same_close, same_managers, same_pointer,
    CloseRequest, EventManager, PropagationState, RegistryView,
};
use crate::event::types::{Event, EventType};
use crate::ids::{CallbackID, EventCallbackID, NodeID};
use crate::scene::action::{ActionOrigin, NodeTreeAction};
use crate::scene::node_view::NodeView;
use crate::scene::state::NodeState;
use crate::scene::storage::{only_tree_queues_changed, tree_queues, NodeStorage};
use crate::scene::tree::NodeTree;

verus! {

/// An action a listener asks for, carried out after the dispatch.
#[derive(Clone, Copy, Debug, PartialEq, Eq, Structural)]
pub enum ContextAction {
    Create { target: NodeID },
    Destroy { target: NodeID },
    AddChild { parent: NodeID, child: NodeID },
    RemoveChild { parent: NodeID, child: NodeID },
    /// The callback itself is kept by the caller, in the order of these actions.
    AddSceneEventListener { event_type: EventType },
    RemoveSceneEventListener { target: CallbackID },
}

/// What the actions of a dispatch have produced so far: the tree-action
/// queues, the registry, the created and destroyed nodes, the identifiers of
/// the scene listeners added, and the error that stopped them, if any.
pub struct ContextOutcome {
    pub tree_queues: Map<u32, Seq<(NodeTreeAction, ActionOrigin)>>,
    pub registry: RegistryView,
    pub created: Seq<NodeID>,
    pub destroyed: Seq<NodeID>,
    pub added: Seq<CallbackID>,
    pub error: Option<PrismaError>,
}

/// Carries out `actions` in order, over the nodes `ids` with tree `tree`,
/// stopping at the first that fails.
pub open spec fn run_context_actions(ids: Set<u32>, tree: Map<u32, NodeTree>, o: ContextOutcome, actions: Seq<ContextAction>) -> ContextOutcome
    decreases actions.len(),
{
    if actions.len() == 0 {
        o
    } else {
        let rest = actions.drop_first();
        match actions[0] {
            ContextAction::Create { target } => run_context_actions(ids, tree, ContextOutcome { created: o.created.push(target), ..o }, rest),
            ContextAction::Destroy { target } => run_context_actions(ids, tree, ContextOutcome { destroyed: o.destroyed.push(target), ..o }, rest),
            ContextAction::AddChild { parent, child } => if !ids.contains(parent.0) {
                ContextOutcome { error: Some(PrismaError::NodeNotFound(parent)), ..o }
            } else if !ids.contains(child.0) {
                ContextOutcome { error: Some(PrismaError::NodeNotFound(child)), ..o }
            } else if parent == child || tree[parent.0].spec_parent() == Some(child) {
                ContextOutcome { error: Some(PrismaError::InvalidTree(parent, child)), ..o }
            } else {
                let q = o.tree_queues;
                run_context_actions(ids, tree, ContextOutcome {
                    tree_queues: q.insert(parent.0, q[parent.0].push((NodeTreeAction::AddChild { child }, ActionOrigin::Event)))
                        .insert(child.0, q[child.0].push((NodeTreeAction::SetParent { parent: Some(parent) }, ActionOrigin::Event))),
                    ..o
                }, rest)
            },
            ContextAction::RemoveChild { parent, child } => if !ids.contains(parent.0) {
                ContextOutcome { error: Some(PrismaError::NodeNotFound(parent)), ..o }
            } else if !ids.contains(child.0) {
                ContextOutcome { error: Some(PrismaError::NodeNotFound(child)), ..o }
            } else {
                let q1 = o.tree_queues.insert(parent.0, o.tree_queues[parent.0].push((NodeTreeAction::RemoveChild { child }, ActionOrigin::Event)));
                run_context_actions(ids, tree, ContextOutcome {
                    tree_queues: q1.insert(child.0, q1[child.0].push((NodeTreeAction::SetParent { parent: None }, ActionOrigin::Event))),
                    ..o
                }, rest)
            },
            ContextAction::AddSceneEventListener { event_type } => run_context_actions(ids, tree, ContextOutcome {
                registry: registry_add_scene(o.registry, event_type),
                added: o.added.push(EventCallbackID(o.registry.next)),
                ..o
            }, rest),
            ContextAction::RemoveSceneEventListener { target } => match first_stale(o.registry.node_lookup, o.registry.listener_maps, target) {
                Some(n) => ContextOutcome { error: Some(PrismaError::NodeComponentNotFound(n)), ..o },
                None => run_context_actions(ids, tree, ContextOutcome { registry: registry_remove(o.registry, target), ..o }, rest),
            },
        }
    }
}

/// The requests of `a` and `b` are the same: close, cancellation,
/// propagation, queued actions, created and destroyed nodes, nodes and clock.
pub open spec fn same_requests(a: EventContext, b: EventContext) -> bool {
    &&& a.spec_close_request() == b.spec_close_request()
    &&& a.spec_cancel_close_requested() == b.spec_cancel_close_requested()
    &&& a.spec_propagation() == b.spec_propagation()
    &&& a.spec_actions() == b.spec_actions()
    &&& a.spec_created() == b.spec_created()
    &&& a.spec_destroyed() == b.spec_destroyed()
    &&& a.spec_nodes() == b.spec_nodes()
    &&& a.spec_now() == b.spec_now()
}

/// The event, its targets and the current callback are the same in `a` and `b`.
pub open spec fn same_dispatch(a: EventContext, b: EventContext) -> bool {
    &&& a.spec_target() == b.spec_target()
    &&& a.spec_current_target() == b.spec_current_target()
    &&& a.spec_current_callback() == b.spec_current_callback()
    &&& a.spec_event() == b.spec_event()
}

/// `b` is `a`, but for the nodes.
pub open spec fn same_but_nodes(a: EventContext, b: EventContext) -> bool {
    &&& b.spec_actions() == a.spec_actions()
    &&& same_dispatch(a, b)
    &&& a.spec_close_request() == b.spec_close_request()
    &&& a.spec_cancel_close_requested() == b.spec_cancel_close_requested()
    &&& a.spec_propagation() == b.spec_propagation()
    &&& a.spec_created() == b.spec_created()
    &&& a.spec_destroyed() == b.spec_destroyed()
    &&& a.spec_now() == b.spec_now()
}

/// `b` is `a` with `action` queued.
pub open spec fn action_queued(a: EventContext, b: EventContext, action: ContextAction) -> bool {
    &&& b.spec_actions() == a.spec_actions().push(action)
    &&& same_dispatch(a, b)
    &&& a.spec_close_request() == b.spec_close_request()
    &&& a.spec_cancel_close_requested() == b.spec_cancel_close_requested()
    &&& a.spec_propagation() == b.spec_propagation()
    &&& a.spec_created() == b.spec_created()
    &&& a.spec_destroyed() == b.spec_destroyed()
    &&& a.spec_now() == b.spec_now()
}

/// The context of one dispatch.
pub struct EventContext<'a> {
    pub target: Option<NodeID>,
    pub current_target: Option<NodeID>,
    pub current_callback: Option<CallbackID>,
    pub event: Option<Event>,
    pub close_request: Option<CloseRequest>,
    pub propagation_state: PropagationState,
    pub action_queue: Vec<ContextAction>,
    pub cancel_close_requested: bool,
    pub pending_created_nodes: Vec<NodeID>,
    pub pending_destroyed_nodes: Vec<NodeID>,
    pub nodes: &'a mut NodeStorage,
    pub now: u64,
}

impl<'a> EventContext<'a> {
    pub closed spec fn spec_target(&self) -> Option<NodeID> {
        self.target
    }

    pub closed spec fn spec_current_target(&self) -> Option<NodeID> {
        self.current_target
    }

    pub closed spec fn spec_current_callback(&self) -> Option<CallbackID> {
        self.current_callback
    }

    pub closed spec fn spec_event(&self) -> Option<Event> {
        self.event
    }

    pub closed spec fn spec_close_request(&self) -> Option<CloseRequest> {
        self.close_request
    }

    pub closed spec fn spec_propagation(&self) -> PropagationState {
        self.propagation_state
    }

    pub closed spec fn spec_actions(&self) -> Seq<ContextAction> {
        self.action_queue@
    }

    pub closed spec fn spec_cancel_close_requested(&self) -> bool {
        self.cancel_close_requested
    }

    pub closed spec fn spec_created(&self) -> Seq<NodeID> {
        self.pending_created_nodes@
    }

    pub closed spec fn spec_destroyed(&self) -> Seq<NodeID> {
        self.pending_destroyed_nodes@
    }

    pub closed spec fn spec_nodes(&self) -> NodeStorage {
        *self.nodes
    }

    pub closed spec fn spec_now(&self) -> u64 {
        self.now
    }

    /// The nodes are well formed.
    pub open spec fn wf(&self) -> bool {
        self.spec_nodes().wf()
    }

    /// A context over `nodes` at time `now`, with nothing set and nothing asked.
    pub fn new(nodes: &'a mut NodeStorage, now: u64) -> (c: EventContext<'a>)
        ensures
            c.spec_nodes() == *old(nodes),
            c.spec_now() == now,
            c.spec_target() is None,
            c.spec_current_target() is None,
            c.spec_current_callback() is None,
            c.spec_event() is None,
            c.spec_close_request() is None,
            c.spec_propagation() == PropagationState::Unset,
            c.spec_actions().len() == 0,
            !c.spec_cancel_close_requested(),
            c.spec_created().len() == 0,
            c.spec_destroyed().len() == 0,
            *final(nodes) == *final(c.nodes),
    {
        EventContext {
            target: None,
            current_target: None,
            current_callback: None,
            event: None,
            close_request: None,
            propagation_state: PropagationState::Unset,
            action_queue: Vec::new(),
            cancel_close_requested: false,
            pending_created_nodes: Vec::new(),
            pending_destroyed_nodes: Vec::new(),
            nodes,
            now,
        }
    }

    /// Sets the event being dispatched.
    pub fn set_event(&mut self, event: Option<Event>)
        ensures
            final(self).spec_event() == event,
            final(self).spec_target() == old(self).spec_target(),
            final(self).spec_current_target() == old(self).spec_current_target(),
            final(self).spec_current_callback() == old(self).spec_current_callback(),
            same_requests(*old(self), *final(self)),
        *final(final(self).nodes) == *final(old(self).nodes),
    {
        self.event = event;
    }

    /// Sets the node the event was first sent to.
    pub fn set_target(&mut self, target: Option<NodeID>)
        ensures
            final(self).spec_target() == target,
            final(self).spec_event() == old(self).spec_event(),
            final(self).spec_current_target() == old(self).spec_current_target(),
            final(self).spec_current_callback() == old(self).spec_current_callback(),
            same_requests(*old(self), *final(self)),
        *final(final(self).nodes) == *final(old(self).nodes),
    {
        self.target = target;
    }

    /// Sets the node whose listeners run now.
    pub fn set_current_target(&mut self, target: Option<NodeID>)
        ensures
            final(self).spec_current_target() == target,
            final(self).spec_event() == old(self).spec_event(),
            final(self).spec_target() == old(self).spec_target(),
            final(self).spec_current_callback() == old(self).spec_current_callback(),
            same_requests(*old(self), *final(self)),
        *final(final(self).nodes) == *final(old(self).nodes),
    {
        self.current_target = target;
    }

    /// Sets the callback that runs now.
    pub fn set_current_callback(&mut self, callback: Option<CallbackID>)
        ensures
            final(self).spec_current_callback() == callback,
            final(self).spec_event() == old(self).spec_event(),
            final(self).spec_target() == old(self).spec_target(),
            final(self).spec_current_target() == old(self).spec_current_target(),
            same_requests(*old(self), *final(self)),
        *final(final(self).nodes) == *final(old(self).nodes),
    {
        self.current_callback = callback;
    }

    /// The event being dispatched.
    pub fn event(&self) -> (e: Event)
        requires
            self.spec_event() is Some,
        ensures
            Some(e) == self.spec_event(),
    {
        self.event.unwrap()
    }

    /// A view of the node the event was first sent to, if any.
    pub fn og_target(&mut self) -> (r: Option<NodeView<'_>>)
        requires
            old(self).wf(),
            old(self).spec_target() matches Some(t) ==> old(self).spec_nodes().spec_ids().contains(t.0),
        ensures
            r is Some <==> old(self).spec_target() is Some,
            r matches Some(v) ==> v.wf() && Some(v.spec_id()) == old(self).spec_target()
                && v.spec_storage() == old(self).spec_nodes() && v.spec_origin() == ActionOrigin::Event,
            same_but_nodes(*old(self), *final(self)),
        *final(final(self).nodes) == *final(old(self).nodes),
        r matches Some(v) ==> final(self).spec_nodes() == *final(v.storage),
        r is None ==> final(self).spec_nodes() == old(self).spec_nodes(),
    {
        match self.target {
            Some(t) => Some(NodeView::new(t, &mut *self.nodes, ActionOrigin::Event).unwrap()),
            None => None,
        }
    }

    /// A view of the node whose listeners run now, if any.
    pub fn target(&mut self) -> (r: Option<NodeView<'_>>)
        requires
            old(self).wf(),
            old(self).spec_current_target() matches Some(t) ==> old(self).spec_nodes().spec_ids().contains(t.0),
        ensures
            r is Some <==> old(self).spec_current_target() is Some,
            r matches Some(v) ==> v.wf() && Some(v.spec_id()) == old(self).spec_current_target()
                && v.spec_storage() == old(self).spec_nodes() && v.spec_origin() == ActionOrigin::Event,
            same_but_nodes(*old(self), *final(self)),
        *final(final(self).nodes) == *final(old(self).nodes),
        r matches Some(v) ==> final(self).spec_nodes() == *final(v.storage),
        r is None ==> final(self).spec_nodes() == old(self).spec_nodes(),
    {
        match self.current_target {
            Some(t) => Some(NodeView::new(t, &mut *self.nodes, ActionOrigin::Event).unwrap()),
            None => None,
        }
    }

    /// Keeps the event from going on to the parents.
    pub fn stop_propagation(&mut self)
        ensures
            final(self).spec_propagation() == PropagationState::Stopped,
            same_dispatch(*old(self), *final(self)),
            final(self).spec_actions() == old(self).spec_actions(),
            final(self).spec_close_request() == old(self).spec_close_request(),
            final(self).spec_cancel_close_requested() == old(self).spec_cancel_close_requested(),
            final(self).spec_nodes() == old(self).spec_nodes(),
        *final(final(self).nodes) == *final(old(self).nodes),
    {
        self.propagation_state = PropagationState::Stopped;
    }

    /// Sends the event on to the parents, whatever its type.
    pub fn bubble(&mut self)
        ensures
            final(self).spec_propagation() == PropagationState::Bubble,
            same_dispatch(*old(self), *final(self)),
            final(self).spec_actions() == old(self).spec_actions(),
            final(self).spec_close_request() == old(self).spec_close_request(),
            final(self).spec_cancel_close_requested() == old(self).spec_cancel_close_requested(),
            final(self).spec_nodes() == old(self).spec_nodes(),
        *final(final(self).nodes) == *final(old(self).nodes),
    {
        self.propagation_state = PropagationState::Bubble;
    }

    /// The callback that runs now.
    pub fn current_callback(&mut self) -> (c: CallbackID)
        requires
            old(self).spec_current_callback() is Some,
        ensures
            Some(c) == old(self).spec_current_callback(),
            *final(self) == *old(self),
        *final(final(self).nodes) == *final(old(self).nodes),
    {
        self.current_callback.unwrap()
    }

    /// The identifiers of all nodes, each once, oldest first.
    pub fn get_nodes_id(&mut self) -> (r: Vec<NodeID>)
        requires
            old(self).wf(),
        ensures
            r@.no_duplicates(),
            forall|i: int| 0 <= i < r@.len() ==> old(self).spec_nodes().spec_ids().contains(#[trigger] r@[i].0),
            forall|k: u32| old(self).spec_nodes().spec_ids().contains(k) ==> r@.contains(NodeID(k)),
            *final(self) == *old(self),
        *final(final(self).nodes) == *final(old(self).nodes),
    {
        self.nodes.get_nodes_id()
    }

    /// Asks for a scene listener of `event_type`.
    pub fn on_scene(&mut self, event_type: EventType)
        ensures
            action_queued(*old(self), *final(self), ContextAction::AddSceneEventListener { event_type }),
            final(self).spec_nodes() == old(self).spec_nodes(),
        *final(final(self).nodes) == *final(old(self).nodes),
    {
        self.action_queue.push(ContextAction::AddSceneEventListener { event_type });
    }

    /// Asks for the scene listener `target` to be removed.
    pub fn off_scene(&mut self, target: CallbackID)
        ensures
            action_queued(*old(self), *final(self), ContextAction::RemoveSceneEventListener { target }),
            final(self).spec_nodes() == old(self).spec_nodes(),
        *final(final(self).nodes) == *final(old(self).nodes),
    {
        self.action_queue.push(ContextAction::RemoveSceneEventListener { target });
    }

    /// Creates a node, records its creation, and returns a view of it.
    pub fn new_node(&mut self) -> (v: NodeView<'_>)
        requires
            old(self).wf(),
            old(self).spec_nodes().spec_next_id() < u32::MAX,
        ensures
            v.wf(),
            v.spec_id().0 == old(self).spec_nodes().spec_next_id(),
            !old(self).spec_nodes().spec_ids().contains(v.spec_id().0),
            v.spec_storage().spec_ids() == old(self).spec_nodes().spec_ids().insert(v.spec_id().0),
            v.spec_origin() == ActionOrigin::Event,
            crate::scene::storage::fresh_node(old(self).spec_nodes(), v.spec_storage(), v.spec_id()),
            v.spec_storage().spec_next_id() == old(self).spec_nodes().spec_next_id() + 1,
            action_queued(*old(self), *final(self), ContextAction::Create { target: v.spec_id() }),
        *final(final(self).nodes) == *final(old(self).nodes),
        final(self).spec_nodes() == *final(v.storage),
    {
        let id = self.nodes.insert_new_node();
        self.action_queue.push(ContextAction::Create { target: id });
        NodeView::new(id, &mut *self.nodes, ActionOrigin::Event).unwrap()
    }

    /// Asks for node `target` and its descendants to be destroyed.
    pub fn destroy(&mut self, target: NodeID)
        requires
            old(self).wf(),
            old(self).spec_nodes().spec_ids().contains(target.0),
        ensures
            final(self).wf(),
            action_queued(*old(self), *final(self), ContextAction::Destroy { target }),
            final(self).spec_nodes().spec_state() == old(self).spec_nodes().spec_state().insert(target.0, NodeState { destruction_requested: true }),
            final(self).spec_nodes().spec_tree() == old(self).spec_nodes().spec_tree(),
            final(self).spec_nodes().spec_visual() == old(self).spec_nodes().spec_visual(),
            final(self).spec_nodes().spec_queue() == old(self).spec_nodes().spec_queue(),
            final(self).spec_nodes().spec_next_id() == old(self).spec_nodes().spec_next_id(),
        *final(final(self).nodes) == *final(old(self).nodes),
    {
        self.nodes.set_state(target, NodeState { destruction_requested: true });
        self.action_queue.push(ContextAction::Destroy { target });
    }

    /// Asks for `child` to become a child of `parent`.
    pub fn add_child(&mut self, parent: NodeID, child: NodeID)
        ensures
            action_queued(*old(self), *final(self), ContextAction::AddChild { parent, child }),
            final(self).spec_nodes() == old(self).spec_nodes(),
        *final(final(self).nodes) == *final(old(self).nodes),
    {
        self.action_queue.push(ContextAction::AddChild { parent, child });
    }

    /// Asks for `child` to stop being a child of `parent`.
    pub fn remove_child(&mut self, parent: NodeID, child: NodeID)
        ensures
            action_queued(*old(self), *final(self), ContextAction::RemoveChild { parent, child }),
            final(self).spec_nodes() == old(self).spec_nodes(),
        *final(final(self).nodes) == *final(old(self).nodes),
    {
        self.action_queue.push(ContextAction::RemoveChild { parent, child });
    }

    /// Asks for the window to close in `timer` milliseconds from now, and
    /// withdraws any cancellation.
    pub fn close(&mut self, timer: u64)
        ensures
            final(self).spec_close_request() == Some(CloseRequest { duration: timer, requested_at: old(self).spec_now() }),
            !final(self).spec_cancel_close_requested(),
            same_dispatch(*old(self), *final(self)),
            final(self).spec_actions() == old(self).spec_actions(),
            final(self).spec_propagation() == old(self).spec_propagation(),
            final(self).spec_nodes() == old(self).spec_nodes(),
            final(self).spec_now() == old(self).spec_now(),
        *final(final(self).nodes) == *final(old(self).nodes),
    {
        self.cancel_close_requested = false;
        self.close_request = Some(CloseRequest { duration: timer, requested_at: self.now });
    }

    /// Withdraws the request to close the window.
    pub fn cancel_close(&mut self)
        ensures
            final(self).spec_close_request() is None,
            final(self).spec_cancel_close_requested(),
            same_dispatch(*old(self), *final(self)),
            final(self).spec_actions() == old(self).spec_actions(),
            final(self).spec_propagation() == old(self).spec_propagation(),
            final(self).spec_nodes() == old(self).spec_nodes(),
            final(self).spec_now() == old(self).spec_now(),
        *final(final(self).nodes) == *final(old(self).nodes),
    {
        self.cancel_close_requested = true;
        self.close_request = None;
    }

    pub fn is_cancel_close_requested(&self) -> (r: bool)
        ensures
            r == self.spec_cancel_close_requested(),
    {
        self.cancel_close_requested
    }

    /// Whether the listeners asked for the event to go on to the parents.
    pub fn propagation_state(&self) -> (r: PropagationState)
        ensures
            r == self.spec_propagation(),
    {
        self.propagation_state
    }

    /// The close request made during the dispatch, if any.
    pub fn close_request(&self) -> (r: Option<CloseRequest>)
        ensures
            r == self.spec_close_request(),
    {
        self.close_request
    }

    /// Returns the queued actions and forgets them.
    pub fn take_actions(&mut self) -> (r: Vec<ContextAction>)
        ensures
            r@ == old(self).spec_actions(),
            final(self).spec_actions().len() == 0,
            same_dispatch(*old(self), *final(self)),
            final(self).spec_close_request() == old(self).spec_close_request(),
            final(self).spec_cancel_close_requested() == old(self).spec_cancel_close_requested(),
            final(self).spec_propagation() == old(self).spec_propagation(),
            final(self).spec_created() == old(self).spec_created(),
            final(self).spec_destroyed() == old(self).spec_destroyed(),
            final(self).spec_nodes() == old(self).spec_nodes(),
            final(self).spec_now() == old(self).spec_now(),
        *final(final(self).nodes) == *final(old(self).nodes),
    {
        let mut r: Vec<ContextAction> = Vec::new();
        std::mem::swap(&mut r, &mut self.action_queue);
        r
    }

    /// A view of node `id`.
    ///
    /// Returns [`PrismaError::NodeNotFound`] if there is no such node.
    pub fn get_node(&mut self, id: NodeID) -> (r: Result<NodeView<'_>, PrismaError>)
        requires
            old(self).wf(),
        ensures
            old(self).spec_nodes().spec_ids().contains(id.0) ==> (r matches Ok(v) && v.wf() && v.spec_id() == id
                && v.spec_origin() == ActionOrigin::Event && v.spec_storage() == old(self).spec_nodes()),
            !old(self).spec_nodes().spec_ids().contains(id.0) ==> (r matches Err(PrismaError::NodeNotFound(e)) && e == id),
            same_but_nodes(*old(self), *final(self)),
        *final(final(self).nodes) == *final(old(self).nodes),
        r matches Ok(v) ==> final(self).spec_nodes() == *final(v.storage),
        r is Err ==> final(self).spec_nodes() == old(self).spec_nodes(),
    {
        NodeView::new(id, &mut *self.nodes, ActionOrigin::Event)
    }

    /// Returns the nodes created by the carried out actions and forgets them.
    pub fn take_created_nodes(&mut self) -> (r: Vec<NodeID>)
        ensures
            r@ == old(self).spec_created(),
            final(self).spec_created().len() == 0,
            final(self).spec_destroyed() == old(self).spec_destroyed(),
            final(self).spec_close_request() == old(self).spec_close_request(),
            final(self).spec_cancel_close_requested() == old(self).spec_cancel_close_requested(),
            final(self).spec_nodes() == old(self).spec_nodes(),
        *final(final(self).nodes) == *final(old(self).nodes),
    {
        let mut r: Vec<NodeID> = Vec::new();
        std::mem::swap(&mut r, &mut self.pending_created_nodes);
        r
    }

    /// Returns the nodes scheduled for destruction by the carried out actions
    /// and forgets them.
    pub fn take_destroyed_nodes(&mut self) -> (r: Vec<NodeID>)
        ensures
            r@ == old(self).spec_destroyed(),
            final(self).spec_destroyed().len() == 0,
            final(self).spec_created() == old(self).spec_created(),
            final(self).spec_close_request() == old(self).spec_close_request(),
            final(self).spec_cancel_close_requested() == old(self).spec_cancel_close_requested(),
            final(self).spec_nodes() == old(self).spec_nodes(),
        *final(final(self).nodes) == *final(old(self).nodes),
    {
        let mut r: Vec<NodeID> = Vec::new();
        std::mem::swap(&mut r, &mut self.pending_destroyed_nodes);
        r
    }

    /// Carries out the queued actions in order: created and destroyed nodes
    /// are recorded, child changes are queued on the nodes, and scene
    /// listeners are added to or removed from `event_manager`. Returns the
    /// identifiers of the scene listeners added, in order.
    ///
    /// Stops at the first action that fails: a child change naming a missing
    /// node ([`PrismaError::NodeNotFound`]) or an invalid link
    /// ([`PrismaError::InvalidTree`]), or a removal whose lookup names a
    /// missing listener table ([`PrismaError::NodeComponentNotFound`] with
    /// its node).
    pub fn process_context_actions(&mut self, event_manager: &mut EventManager) -> (r: Result<Vec<CallbackID>, PrismaError>)
        requires
            old(self).wf(),
            old(event_manager).wf(),
        ensures
            final(self).wf(),
            final(event_manager).wf(),
            ({
                let o0 = ContextOutcome {
                    tree_queues: tree_queues(old(self).spec_nodes()),
                    registry: old(event_manager).spec_registry(),
                    created: old(self).spec_created(),
                    destroyed: old(self).spec_destroyed(),
                    added: Seq::empty(),
                    error: None,
                };
                let out = run_context_actions(old(self).spec_nodes().spec_ids(), old(self).spec_nodes().spec_tree(), o0, old(self).spec_actions());
                &&& tree_queues(final(self).spec_nodes()) == out.tree_queues
                &&& only_tree_queues_changed(old(self).spec_nodes(), final(self).spec_nodes())
                &&& final(event_manager).spec_registry() == out.registry
                &&& final(self).spec_created() == out.created
                &&& final(self).spec_destroyed() == out.destroyed
                &&& (r is Ok <==> out.error is None)
                &&& (r matches Ok(v) ==> v@ == out.added)
                &&& (r matches Err(e) ==> out.error == Some(e))
            }),
            final(self).spec_actions().len() == 0,
            same_dispatch(*old(self), *final(self)),
            final(self).spec_close_request() == old(self).spec_close_request(),
            final(self).spec_cancel_close_requested() == old(self).spec_cancel_close_requested(),
            final(self).spec_propagation() == old(self).spec_propagation(),
            final(self).spec_now() == old(self).spec_now(),
            same_pointer(*old(event_manager), *final(event_manager)),
            same_close(*old(event_manager), *final(event_manager)),
            same_managers(*old(event_manager), *final(event_manager)),
        *final(final(self).nodes) == *final(old(self).nodes),
    {
        let ghost ids = self.spec_nodes().spec_ids();
        let ghost tree = self.spec_nodes().spec_tree();
        let ghost n0 = self.spec_nodes();
        let ghost o0 = ContextOutcome {
            tree_queues: tree_queues(self.spec_nodes()),
            registry: event_manager.spec_registry(),
            created: self.spec_created(),
            destroyed: self.spec_destroyed(),
            added: Seq::empty(),
            error: None,
        };
        let ghost out = run_context_actions(ids, tree, o0, self.spec_actions());
        let actions = self.take_actions();
        let mut added: Vec<CallbackID> = Vec::new();
        let mut i: usize = 0;
        proof {
            assert(actions@.subrange(0, actions@.len() as int) =~= actions@);
        }
        while i < actions.len()
            invariant
                self.wf(),
                event_manager.wf(),
                i <= actions@.len(),
                self.spec_nodes().spec_ids() == ids,
                self.spec_nodes().spec_tree() == tree,
                only_tree_queues_changed(n0, self.spec_nodes()),
                out == run_context_actions(ids, tree, o0, old(self).spec_actions()),
                ids == old(self).spec_nodes().spec_ids(),
                tree == old(self).spec_nodes().spec_tree(),
                n0 == old(self).spec_nodes(),
                o0 == (ContextOutcome {
                    tree_queues: tree_queues(old(self).spec_nodes()),
                    registry: old(event_manager).spec_registry(),
                    created: old(self).spec_created(),
                    destroyed: old(self).spec_destroyed(),
                    added: Seq::empty(),
                    error: None,
                }),
                actions@ == old(self).spec_actions(),
                run_context_actions(ids, tree, ContextOutcome {
                    tree_queues: tree_queues(self.spec_nodes()),
                    registry: event_manager.spec_registry(),
                    created: self.spec_created(),
                    destroyed: self.spec_destroyed(),
                    added: added@,
                    error: None,
                }, actions@.subrange(i as int, actions@.len() as int)) == out,
                self.spec_actions().len() == 0,
                *final(self.nodes) == *final(old(self).nodes),
                same_dispatch(*old(self), *self),
                self.spec_close_request() == old(self).spec_close_request(),
                self.spec_cancel_close_requested() == old(self).spec_cancel_close_requested(),
                self.spec_propagation() == old(self).spec_propagation(),
                self.spec_now() == old(self).spec_now(),
                same_pointer(*old(event_manager), *event_manager),
                same_close(*old(event_manager), *event_manager),
                same_managers(*old(event_manager), *event_manager),
            decreases actions@.len() - i,
        {
            let ghost rest = actions@.subrange(i as int, actions@.len() as int);
            proof {
                assert(rest.drop_first() =~= actions@.subrange(i + 1, actions@.len() as int));
                assert(rest[0] == actions@[i as int]);
            }
            match actions[i] {
                ContextAction::Create { target } => {
                    self.pending_created_nodes.push(target);
                },
                ContextAction::Destroy { target } => {
                    self.pending_destroyed_nodes.push(target);
                },
                ContextAction::AddChild { parent, child } => {
                    let res = self.nodes.link_child(parent, child, ActionOrigin::Event);
                    match res {
                        Ok(()) => {},
                        Err(e) => {
                            return Err(e);
                        },
                    }
                },
                ContextAction::RemoveChild { parent, child } => {
                    let res = self.nodes.unlink_child(parent, child, ActionOrigin::Event);
                    match res {
                        Ok(()) => {},
                        Err(e) => {
                            return Err(e);
                        },
                    }
                },
                ContextAction::AddSceneEventListener { event_type } => {
                    let id = event_manager.add_scene_event_listener(event_type);
                    added.push(id);
                },
                ContextAction::RemoveSceneEventListener { target } => {
                    match event_manager.stale_lookup_node(target) {
                        None => {
                            event_manager.remove_event_listener(target);
                        },
                        Some(n) => {
                            return Err(PrismaError::NodeComponentNotFound(n));
                        },
                    }
                },
            }
            i = i + 1;
        }
        proof {
            assert(actions@.subrange(i as int, actions@.len() as int) =~= Seq::<ContextAction>::empty());
        }
        Ok(added)
    }
}

} // verus!
