//! The event manager: listener registry, close and quit requests, pointer
//! state, and the decisions of event dispatch.
use vstd::prelude::*;
use crate::event::lifecycle_manager::LifecycleManager;
use crate::event::mouse_manager::{mouse_step, MouseInput, MouseManager};
use crate::event::types::{Event, EventType, LifecycleEvent, LifecycleEventType, MouseEvent, WindowEvent};
use crate::event::window_manager::{window_events_of, WindowInput, WindowManager};
use crate::ids::{CallbackID, EventCallbackID, NodeID};

verus! {

/// A request to close the window after `duration` milliseconds, made at time
/// `requested_at` (milliseconds on the scene's clock).
#[derive(Clone, Copy, Debug, PartialEq, Eq, Structural, Hash)]
pub struct CloseRequest {
    pub duration: u64,
    pub requested_at: u64,
}

/// Whether the current event goes on to the parent of its target.
#[derive(Clone, Copy, Debug, PartialEq, Eq, Structural)]
pub enum PropagationState {
    /// As the event type decides by default.
    Unset,
    /// Always.
    Bubble,
    /// Never.
    Stopped,
}

/// The control events produced by one build, with the resulting flags
/// `(close_request, close_request_dispatched, cancel_close_requested, quit_request_dispatched)`.
pub open spec fn control_events(
    close_request: Option<CloseRequest>,
    close_dispatched: bool,
    cancel_requested: bool,
    quitting: bool,
    quit_dispatched: bool,
) -> (Seq<Event>, Option<CloseRequest>, bool, bool, bool) {
    let (close_part, cr, cd, cc) = if !close_dispatched && close_request is Some {
        (seq![Event::AppCloseRequest], close_request, true, cancel_requested)
    } else if cancel_requested {
        (seq![Event::CancelAppCloseRequest], None::<CloseRequest>, false, false)
    } else {
        (Seq::<Event>::empty(), close_request, close_dispatched, cancel_requested)
    };
    let (quit_part, qd) = if quitting && !quit_dispatched {
        (seq![Event::Quit], true)
    } else {
        (Seq::<Event>::empty(), quit_dispatched)
    };
    (close_part + quit_part, cr, cd, cc, qd)
}

/// Returns `true` if `v` holds `x`.
pub fn vec_contains(v: &Vec<NodeID>, x: NodeID) -> (r: bool)
    ensures
        r == v@.contains(x),
{
    let mut i: usize = 0;
    while i < v.len()
        invariant
            i <= v@.len(),
            forall|j: int| 0 <= j < i ==> v@[j] != x,
        decreases v@.len() - i,
    {
        if v[i] == x {
            return true;
        }
        i = i + 1;
    }
    false
}

/// The nodes that get an update event: the targets of update listeners in
/// `lookup`, in order, each once, leaving out those in `created` or `destroyed`.
pub open spec fn update_targets(
    lookup: Seq<(CallbackID, NodeID, EventType)>,
    created: Seq<NodeID>,
    destroyed: Seq<NodeID>,
) -> Seq<NodeID>
    decreases lookup.len(),
{
    if lookup.len() == 0 {
        Seq::empty()
    } else {
        let prev = update_targets(lookup.drop_last(), created, destroyed);
        let (_, target, event_type) = lookup.last();
        if event_type == EventType::Lifecycle(LifecycleEventType::Update) && !created.contains(target)
            && !destroyed.contains(target) && !prev.contains(target) {
            prev.push(target)
        } else {
            prev
        }
    }
}

pub open spec fn wrap_mouse(s: Seq<MouseEvent>) -> Seq<Event> {
    s.map_values(|e: MouseEvent| Event::Mouse { event: e })
}

pub open spec fn wrap_window(s: Seq<WindowEvent>) -> Seq<Event> {
    s.map_values(|e: WindowEvent| Event::Window { event: e })
}

pub open spec fn wrap_lifecycle(s: Seq<LifecycleEvent>) -> Seq<Event> {
    s.map_values(|e: LifecycleEvent| Event::Lifecycle { event: e })
}

pub open spec fn updates_of(s: Seq<NodeID>) -> Seq<LifecycleEvent> {
    s.map_values(|t: NodeID| LifecycleEvent::Update { target: t })
}

pub open spec fn creations_of(s: Seq<NodeID>) -> Seq<LifecycleEvent> {
    s.map_values(|t: NodeID| LifecycleEvent::Creation { target: t })
}

pub open spec fn destructions_of(s: Seq<NodeID>) -> Seq<LifecycleEvent> {
    s.map_values(|t: NodeID| LifecycleEvent::Destruction { target: t })
}

/// The listener registry is the same in `a` and `b`.
pub open spec fn same_registry(a: EventManager, b: EventManager) -> bool {
    &&& a.spec_node_listeners() == b.spec_node_listeners()
    &&& a.spec_listener_maps() == b.spec_listener_maps()
    &&& a.spec_scene_listeners() == b.spec_scene_listeners()
    &&& a.spec_node_lookup() == b.spec_node_lookup()
    &&& a.spec_scene_lookup() == b.spec_scene_lookup()
    &&& a.spec_next_callback_id() == b.spec_next_callback_id()
}

/// The hovered, active and dragged nodes are the same in `a` and `b`.
pub open spec fn same_pointer(a: EventManager, b: EventManager) -> bool {
    &&& a.spec_hovered() == b.spec_hovered()
    &&& a.spec_active() == b.spec_active()
    &&& a.spec_dragged() == b.spec_dragged()
}

/// The close and quit flags are the same in `a` and `b`.
pub open spec fn same_close(a: EventManager, b: EventManager) -> bool {
    &&& a.spec_close_request() == b.spec_close_request()
    &&& a.spec_close_request_dispatched() == b.spec_close_request_dispatched()
    &&& a.spec_quit_request_dispatched() == b.spec_quit_request_dispatched()
    &&& a.spec_cancel_close_requested() == b.spec_cancel_close_requested()
    &&& a.spec_quitting() == b.spec_quitting()
}

/// The mouse, window and lifecycle managers are the same in `a` and `b`.
pub open spec fn same_managers(a: EventManager, b: EventManager) -> bool {
    &&& a.spec_mouse() == b.spec_mouse()
    &&& a.spec_window() == b.spec_window()
    &&& a.spec_lifecycle() == b.spec_lifecycle()
}

/// Keeps the node listener entries of callbacks other than `t`.
pub open spec fn other_node_callback(t: CallbackID) -> spec_fn((CallbackID, NodeID, EventType)) -> bool {
    |e: (CallbackID, NodeID, EventType)| e.0 != t
}

/// Keeps the scene listener entries of callbacks other than `t`.
pub open spec fn other_scene_callback(t: CallbackID) -> spec_fn((CallbackID, EventType)) -> bool {
    |e: (CallbackID, EventType)| e.0 != t
}

/// Keeps the node listener entries of nodes other than `n`.
pub open spec fn other_node_listener(n: NodeID) -> spec_fn((CallbackID, NodeID, EventType)) -> bool {
    |e: (CallbackID, NodeID, EventType)| e.1 != n
}

/// Keeps the listener tables of nodes other than `n`.
pub open spec fn other_node_map(n: NodeID) -> spec_fn((NodeID, EventType)) -> bool {
    |e: (NodeID, EventType)| e.0 != n
}

/// Keeps the node listener entries of node `n` and event type `t`.
pub open spec fn listener_of(n: NodeID, t: EventType) -> spec_fn((CallbackID, NodeID, EventType)) -> bool {
    |e: (CallbackID, NodeID, EventType)| e.1 == n && e.2 == t
}

/// Keeps the scene listener entries of event type `t`.
pub open spec fn scene_listener_of(t: EventType) -> spec_fn((CallbackID, EventType)) -> bool {
    |e: (CallbackID, EventType)| e.1 == t
}

pub open spec fn callbacks_of3(s: Seq<(CallbackID, NodeID, EventType)>) -> Seq<CallbackID> {
    s.map_values(|e: (CallbackID, NodeID, EventType)| e.0)
}

pub open spec fn callbacks_of2(s: Seq<(CallbackID, EventType)>) -> Seq<CallbackID> {
    s.map_values(|e: (CallbackID, EventType)| e.0)
}

/// Whether the listener table of (node, event type) that the lookup names for
/// `target`, if any, still exists.
pub open spec fn lookup_table_exists(lookup: Seq<(CallbackID, NodeID, EventType)>, maps: Seq<(NodeID, EventType)>, target: CallbackID) -> bool {
    forall|i: int| 0 <= i < lookup.len() && (#[trigger] lookup[i]).0 == target ==> maps.contains((lookup[i].1, lookup[i].2))
}

/// Filtering a prefix one element longer keeps that element exactly when it
/// satisfies `p`.
proof fn lemma_filter_step<A>(s: Seq<A>, p: spec_fn(A) -> bool, i: int)
    requires
        0 <= i < s.len(),
    ensures
        s.subrange(0, i + 1).filter(p) == (if p(s[i]) { s.subrange(0, i).filter(p).push(s[i]) } else {
            s.subrange(0, i).filter(p)
        }),
{
    reveal(Seq::filter);
    let t = s.subrange(0, i + 1);
    assert(t.drop_last() =~= s.subrange(0, i));
    assert(t.last() == s[i]);
}

/// The node listener entries of callbacks other than `t`, in order.
fn without_node_callback(v: &Vec<(CallbackID, NodeID, EventType)>, t: CallbackID) -> (r: Vec<(CallbackID, NodeID, EventType)>)
    ensures
        r@ == v@.filter(other_node_callback(t)),
{
    let mut kept: Vec<(CallbackID, NodeID, EventType)> = Vec::new();
    let mut i: usize = 0;
    while i < v.len()
        invariant
            i <= v@.len(),
            kept@ == v@.subrange(0, i as int).filter(other_node_callback(t)),
        decreases v@.len() - i,
    {
        proof { lemma_filter_step(v@, other_node_callback(t), i as int); }
        if v[i].0 != t {
            kept.push(v[i]);
        }
        i = i + 1;
    }
    assert(v@.subrange(0, i as int) =~= v@);
    kept
}

/// The scene listener entries of callbacks other than `t`, in order.
fn without_scene_callback(v: &Vec<(CallbackID, EventType)>, t: CallbackID) -> (r: Vec<(CallbackID, EventType)>)
    ensures
        r@ == v@.filter(other_scene_callback(t)),
{
    let mut kept: Vec<(CallbackID, EventType)> = Vec::new();
    let mut i: usize = 0;
    while i < v.len()
        invariant
            i <= v@.len(),
            kept@ == v@.subrange(0, i as int).filter(other_scene_callback(t)),
        decreases v@.len() - i,
    {
        proof { lemma_filter_step(v@, other_scene_callback(t), i as int); }
        if v[i].0 != t {
            kept.push(v[i]);
        }
        i = i + 1;
    }
    assert(v@.subrange(0, i as int) =~= v@);
    kept
}

/// The node listener entries of nodes other than `n`, in order.
fn without_node_listeners(v: &Vec<(CallbackID, NodeID, EventType)>, n: NodeID) -> (r: Vec<(CallbackID, NodeID, EventType)>)
    ensures
        r@ == v@.filter(other_node_listener(n)),
{
    let mut kept: Vec<(CallbackID, NodeID, EventType)> = Vec::new();
    let mut i: usize = 0;
    while i < v.len()
        invariant
            i <= v@.len(),
            kept@ == v@.subrange(0, i as int).filter(other_node_listener(n)),
        decreases v@.len() - i,
    {
        proof { lemma_filter_step(v@, other_node_listener(n), i as int); }
        if v[i].1 != n {
            kept.push(v[i]);
        }
        i = i + 1;
    }
    assert(v@.subrange(0, i as int) =~= v@);
    kept
}

/// The listener tables of nodes other than `n`, in order.
fn without_node_maps(v: &Vec<(NodeID, EventType)>, n: NodeID) -> (r: Vec<(NodeID, EventType)>)
    ensures
        r@ == v@.filter(other_node_map(n)),
{
    let mut kept: Vec<(NodeID, EventType)> = Vec::new();
    let mut i: usize = 0;
    while i < v.len()
        invariant
            i <= v@.len(),
            kept@ == v@.subrange(0, i as int).filter(other_node_map(n)),
        decreases v@.len() - i,
    {
        proof { lemma_filter_step(v@, other_node_map(n), i as int); }
        if v[i].0 != n {
            kept.push(v[i]);
        }
        i = i + 1;
    }
    assert(v@.subrange(0, i as int) =~= v@);
    kept
}


/// After removing `target`: where a lookup named it, no listener of that
/// kind with identifier `target` is left.
pub open spec fn listener_gone(before: EventManager, after: EventManager, target: CallbackID) -> bool {
    &&& node_lookup_has(before.spec_node_lookup(), target) ==> forall|i: int|
        0 <= i < after.spec_node_listeners().len() ==> (#[trigger] after.spec_node_listeners()[i]).0 != target
    &&& (!node_lookup_has(before.spec_node_lookup(), target) && scene_lookup_has(before.spec_scene_lookup(), target))
        ==> forall|i: int| 0 <= i < after.spec_scene_listeners().len()
            ==> (#[trigger] after.spec_scene_listeners()[i]).0 != target
}

/// The listener registry of an event manager, as plain sequences.
pub struct RegistryView {
    pub node_listeners: Seq<(CallbackID, NodeID, EventType)>,
    pub listener_maps: Seq<(NodeID, EventType)>,
    pub scene_listeners: Seq<(CallbackID, EventType)>,
    pub node_lookup: Seq<(CallbackID, NodeID, EventType)>,
    pub scene_lookup: Seq<(CallbackID, EventType)>,
    pub next: u32,
}

/// The registry after a listener of `event_type` is registered on `node`.
pub open spec fn registry_add_node(r: RegistryView, node: NodeID, event_type: EventType) -> RegistryView {
    let id = EventCallbackID(r.next);
    RegistryView {
        node_listeners: r.node_listeners.push((id, node, event_type)),
        listener_maps: if r.listener_maps.contains((node, event_type)) {
            r.listener_maps
        } else {
            r.listener_maps.push((node, event_type))
        },
        node_lookup: r.node_lookup.push((id, node, event_type)),
        next: next_callback_number(r.next),
        ..r
    }
}

/// The registry after a listener of `event_type` is registered on the scene.
pub open spec fn registry_add_scene(r: RegistryView, event_type: EventType) -> RegistryView {
    RegistryView {
        scene_listeners: r.scene_listeners.push((EventCallbackID(r.next), event_type)),
        scene_lookup: r.scene_lookup.push((EventCallbackID(r.next), event_type)),
        next: next_callback_number(r.next),
        ..r
    }
}

/// The registry after the listener `target` is removed.
pub open spec fn registry_remove(r: RegistryView, target: CallbackID) -> RegistryView {
    if node_lookup_has(r.node_lookup, target) {
        RegistryView {
            node_listeners: r.node_listeners.filter(other_node_callback(target)),
            node_lookup: r.node_lookup.filter(other_node_callback(target)),
            ..r
        }
    } else if scene_lookup_has(r.scene_lookup, target) {
        RegistryView {
            scene_listeners: r.scene_listeners.filter(other_scene_callback(target)),
            scene_lookup: r.scene_lookup.filter(other_scene_callback(target)),
            ..r
        }
    } else {
        r
    }
}

/// The registry after every listener of `node` is dropped.
pub open spec fn registry_clear(r: RegistryView, node: NodeID) -> RegistryView {
    RegistryView {
        node_listeners: r.node_listeners.filter(other_node_listener(node)),
        listener_maps: r.listener_maps.filter(other_node_map(node)),
        ..r
    }
}

/// The number handed out after `n`: the next one, wrapping around at `u32::MAX`.
pub open spec fn next_callback_number(n: u32) -> u32 {
    if n == u32::MAX { 0 } else { (n + 1) as u32 }
}

/// The lookup holds an entry for callback `t`.
pub open spec fn node_lookup_has(lookup: Seq<(CallbackID, NodeID, EventType)>, t: CallbackID) -> bool {
    exists|i: int| 0 <= i < lookup.len() && (#[trigger] lookup[i]).0 == t
}

/// The scene lookup holds an entry for callback `t`.
pub open spec fn scene_lookup_has(lookup: Seq<(CallbackID, EventType)>, t: CallbackID) -> bool {
    exists|i: int| 0 <= i < lookup.len() && (#[trigger] lookup[i]).0 == t
}

/// Returns `true` if `v` holds an entry of callback `t`.
fn node_entries_have(v: &Vec<(CallbackID, NodeID, EventType)>, t: CallbackID) -> (r: bool)
    ensures
        r == node_lookup_has(v@, t),
{
    let mut i: usize = 0;
    while i < v.len()
        invariant
            i <= v@.len(),
            forall|j: int| 0 <= j < i ==> (#[trigger] v@[j]).0 != t,
        decreases v@.len() - i,
    {
        if v[i].0 == t {
            assert(v@[i as int].0 == t);
            return true;
        }
        i = i + 1;
    }
    false
}

/// Returns `true` if `v` holds an entry of callback `t`.
fn scene_entries_have(v: &Vec<(CallbackID, EventType)>, t: CallbackID) -> (r: bool)
    ensures
        r == scene_lookup_has(v@, t),
{
    let mut i: usize = 0;
    while i < v.len()
        invariant
            i <= v@.len(),
            forall|j: int| 0 <= j < i ==> (#[trigger] v@[j]).0 != t,
        decreases v@.len() - i,
    {
        if v[i].0 == t {
            assert(v@[i as int].0 == t);
            return true;
        }
        i = i + 1;
    }
    false
}

/// A `Leave` at `(x, y)` for the hovered node, if there is one.
pub open spec fn leave_part(hovered: Option<NodeID>, x: i32, y: i32) -> Seq<(NodeID, Event)> {
    match hovered {
        Some(h) => seq![(h, Event::Mouse { event: MouseEvent::Leave { x, y } })],
        None => Seq::empty(),
    }
}

/// `e` for `target`, if there is one.
pub open spec fn deliver_to(target: Option<NodeID>, e: Event) -> Seq<(NodeID, Event)> {
    match target {
        Some(t) => seq![(t, e)],
        None => Seq::empty(),
    }
}

/// Where a mouse event goes and what it does to the pointer state, given the
/// hovered, active and dragged nodes and the topmost node under the cursor:
/// `(deliveries, hovered, active, dragged)`.
pub open spec fn mouse_route(
    hovered: Option<NodeID>,
    active: Option<NodeID>,
    dragged: Option<NodeID>,
    m: MouseEvent,
    hit: Option<NodeID>,
) -> (Seq<(NodeID, Event)>, Option<NodeID>, Option<NodeID>, Option<NodeID>) {
    let e = Event::Mouse { event: m };
    match m {
        MouseEvent::MouseDown { .. } => match hit {
            Some(t) => (seq![(t, e)], hovered, Some(t), dragged),
            None => (Seq::empty(), hovered, active, dragged),
        },
        MouseEvent::MouseUp { .. } => (deliver_to(active, e), hovered, None, dragged),
        MouseEvent::MouseMove { x, y } => match hit {
            Some(t) => if Some(t) != hovered {
                (leave_part(hovered, x, y) + seq![(t, Event::Mouse { event: MouseEvent::Enter { x, y } })], Some(t), active, dragged)
            } else {
                (Seq::empty(), hovered, active, dragged)
            },
            None => (leave_part(hovered, x, y), None, active, dragged),
        },
        MouseEvent::Click { .. } => (deliver_to(active, e), hovered, active, dragged),
        MouseEvent::DragStart { .. } => match hit {
            Some(t) => (seq![(t, e)], hovered, active, Some(t)),
            None => (Seq::empty(), hovered, active, dragged),
        },
        MouseEvent::Drag { .. } => (deliver_to(dragged, e), hovered, active, dragged),
        MouseEvent::DragEnd { .. } => (deliver_to(dragged, e), hovered, active, None),
        MouseEvent::Enter { .. } | MouseEvent::Leave { .. } => (Seq::empty(), hovered, active, dragged),
    }
}

/// Whether every node receives `e`, before any other delivery to nodes.
pub open spec fn spec_reaches_all_nodes(e: Event) -> bool {
    match e {
        Event::Mouse { event } => event is MouseMove,
        Event::Window { .. } | Event::AppCloseRequest | Event::CancelAppCloseRequest | Event::Quit => true,
        Event::Lifecycle { .. } => false,
    }
}

/// Whether routing `e` needs the topmost node under the cursor.
pub open spec fn spec_needs_hit_test(e: Event) -> bool {
    match e {
        Event::Mouse { event } => event is MouseMove || event is MouseDown || event is DragStart,
        _ => false,
    }
}

/// Returns `true` if every node receives `e`.
pub fn reaches_all_nodes(e: &Event) -> (r: bool)
    ensures
        r == spec_reaches_all_nodes(*e),
{
    match e {
        Event::Mouse { event } => matches!(event, MouseEvent::MouseMove { .. }),
        Event::Window { .. } | Event::AppCloseRequest | Event::CancelAppCloseRequest | Event::Quit => true,
        Event::Lifecycle { .. } => false,
    }
}

/// Returns `true` if routing `e` needs the topmost node under the cursor.
pub fn needs_hit_test(e: &Event) -> (r: bool)
    ensures
        r == spec_needs_hit_test(*e),
{
    match e {
        Event::Mouse { event } => matches!(event, MouseEvent::MouseMove { .. } | MouseEvent::MouseDown { .. } | MouseEvent::DragStart { .. }),
        _ => false,
    }
}

/// The node of the first entry of `target` in `lookup` whose listener table
/// is not in `maps`, if any.
pub open spec fn first_stale(
    lookup: Seq<(CallbackID, NodeID, EventType)>,
    maps: Seq<(NodeID, EventType)>,
    target: CallbackID,
) -> Option<NodeID>
    decreases lookup.len(),
{
    if lookup.len() == 0 {
        None
    } else if lookup[0].0 == target && !maps.contains((lookup[0].1, lookup[0].2)) {
        Some(lookup[0].1)
    } else {
        first_stale(lookup.drop_first(), maps, target)
    }
}

/// There is a stale entry of `target` exactly when some listener table the
/// lookup names for it is missing.
pub proof fn lemma_first_stale(
    lookup: Seq<(CallbackID, NodeID, EventType)>,
    maps: Seq<(NodeID, EventType)>,
    target: CallbackID,
)
    ensures
        first_stale(lookup, maps, target) is None <==> lookup_table_exists(lookup, maps, target),
    decreases lookup.len(),
{
    if lookup.len() > 0 {
        lemma_first_stale(lookup.drop_first(), maps, target);
        let d = lookup.drop_first();
        assert forall|i: int| 0 <= i < d.len() implies #[trigger] d[i] == lookup[i + 1] by {}
        if lookup_table_exists(lookup, maps, target) {
            assert(lookup_table_exists(d, maps, target)) by {
                assert forall|i: int| 0 <= i < d.len() && (#[trigger] d[i]).0 == target implies maps.contains((d[i].1, d[i].2)) by {
                    assert(lookup[i + 1] == d[i]);
                }
            }
        } else if lookup[0].0 == target && !maps.contains((lookup[0].1, lookup[0].2)) {
        } else {
            let i = choose|i: int| 0 <= i < lookup.len() && (#[trigger] lookup[i]).0 == target && !maps.contains((lookup[i].1, lookup[i].2));
            assert(i != 0);
            assert(d[i - 1] == lookup[i]);
        }
    }
}

/// Routes events to listeners and keeps the state of the pointer and of
/// close requests.
pub struct EventManager {
    node_event_listeners: Vec<(CallbackID, NodeID, EventType)>,
    node_listener_maps: Vec<(NodeID, EventType)>,
    scene_event_listeners: Vec<(CallbackID, EventType)>,
    node_listeners_lookup: Vec<(CallbackID, NodeID, EventType)>,
    scene_listener_lookup: Vec<(CallbackID, EventType)>,
    close_request: Option<CloseRequest>,
    close_request_dispatched: bool,
    quit_request_dispatched: bool,
    cancel_close_requested: bool,
    quitting: bool,
    hovered_node: Option<NodeID>,
    active_node: Option<NodeID>,
    dragged_node: Option<NodeID>,
    mouse_manager: MouseManager,
    window_manager: WindowManager,
    lifecycle_manager: LifecycleManager,
    next_callback_id: u32,
}

impl EventManager {
    /// The node listeners, oldest first: callback, node, event type.
    pub closed spec fn spec_node_listeners(&self) -> Seq<(CallbackID, NodeID, EventType)> {
        self.node_event_listeners@
    }

    /// The (node, event type) pairs that have a listener table.
    pub closed spec fn spec_listener_maps(&self) -> Seq<(NodeID, EventType)> {
        self.node_listener_maps@
    }

    /// The scene listeners, oldest first.
    pub closed spec fn spec_scene_listeners(&self) -> Seq<(CallbackID, EventType)> {
        self.scene_event_listeners@
    }

    /// Where each node listener was registered, by callback.
    pub closed spec fn spec_node_lookup(&self) -> Seq<(CallbackID, NodeID, EventType)> {
        self.node_listeners_lookup@
    }

    /// Where each scene listener was registered, by callback.
    pub closed spec fn spec_scene_lookup(&self) -> Seq<(CallbackID, EventType)> {
        self.scene_listener_lookup@
    }

    pub closed spec fn spec_close_request(&self) -> Option<CloseRequest> {
        self.close_request
    }

    pub closed spec fn spec_close_request_dispatched(&self) -> bool {
        self.close_request_dispatched
    }

    pub closed spec fn spec_quit_request_dispatched(&self) -> bool {
        self.quit_request_dispatched
    }

    pub closed spec fn spec_cancel_close_requested(&self) -> bool {
        self.cancel_close_requested
    }

    pub closed spec fn spec_quitting(&self) -> bool {
        self.quitting
    }

    pub closed spec fn spec_hovered(&self) -> Option<NodeID> {
        self.hovered_node
    }

    pub closed spec fn spec_active(&self) -> Option<NodeID> {
        self.active_node
    }

    pub closed spec fn spec_dragged(&self) -> Option<NodeID> {
        self.dragged_node
    }

    pub closed spec fn spec_mouse(&self) -> MouseManager {
        self.mouse_manager
    }

    pub closed spec fn spec_window(&self) -> WindowManager {
        self.window_manager
    }

    pub closed spec fn spec_lifecycle(&self) -> LifecycleManager {
        self.lifecycle_manager
    }

    pub closed spec fn spec_next_callback_id(&self) -> u32 {
        self.next_callback_id
    }

    /// The listener registry.
    pub open spec fn spec_registry(&self) -> RegistryView {
        RegistryView {
            node_listeners: self.spec_node_listeners(),
            listener_maps: self.spec_listener_maps(),
            scene_listeners: self.spec_scene_listeners(),
            node_lookup: self.spec_node_lookup(),
            scene_lookup: self.spec_scene_lookup(),
            next: self.spec_next_callback_id(),
        }
    }

    /// The mouse manager is well formed.
    pub closed spec fn wf(&self) -> bool {
        self.mouse_manager.wf()
    }

    pub fn new() -> (m: EventManager)
        ensures
            m.wf(),
            m.spec_node_listeners().len() == 0,
            m.spec_listener_maps().len() == 0,
            m.spec_scene_listeners().len() == 0,
            m.spec_node_lookup().len() == 0,
            m.spec_scene_lookup().len() == 0,
            m.spec_close_request() is None,
            !m.spec_close_request_dispatched(),
            !m.spec_quit_request_dispatched(),
            !m.spec_cancel_close_requested(),
            !m.spec_quitting(),
            m.spec_hovered() is None,
            m.spec_active() is None,
            m.spec_dragged() is None,
            m.spec_mouse().spec_queue().len() == 0,
            m.spec_window().spec_queue().len() == 0,
            m.spec_lifecycle().spec_queue().len() == 0,
            m.spec_next_callback_id() == 0,
            crate::laws::registry_ids_fresh(m.spec_registry()),
    {
        EventManager {
            node_event_listeners: Vec::new(),
            node_listener_maps: Vec::new(),
            scene_event_listeners: Vec::new(),
            node_listeners_lookup: Vec::new(),
            scene_listener_lookup: Vec::new(),
            close_request: None,
            close_request_dispatched: false,
            quit_request_dispatched: false,
            cancel_close_requested: false,
            quitting: false,
            hovered_node: None,
            active_node: None,
            dragged_node: None,
            mouse_manager: MouseManager::new(),
            window_manager: WindowManager::new(),
            lifecycle_manager: LifecycleManager::new(),
            next_callback_id: 0,
        }
    }

    /// Returns `true` if `target` is the node the pressed button went down on.
    pub fn is_node_active(&self, target: NodeID) -> (r: bool)
        ensures
            r == (self.spec_active() == Some(target)),
    {
        self.active_node == Some(target)
    }

    /// Returns `true` if `target` is the node under the cursor.
    pub fn is_node_hovered(&self, target: NodeID) -> (r: bool)
        ensures
            r == (self.spec_hovered() == Some(target)),
    {
        self.hovered_node == Some(target)
    }

    /// Records a close request; it is announced by the next build of events.
    pub fn send_close_request(&mut self, close_request: CloseRequest)
        requires
            old(self).wf(),
        ensures
            final(self).wf(),
            final(self).spec_close_request() == Some(close_request),
            final(self).spec_close_request_dispatched() == old(self).spec_close_request_dispatched(),
            final(self).spec_quit_request_dispatched() == old(self).spec_quit_request_dispatched(),
            final(self).spec_cancel_close_requested() == old(self).spec_cancel_close_requested(),
            final(self).spec_quitting() == old(self).spec_quitting(),
            same_registry(*old(self), *final(self)),
            same_pointer(*old(self), *final(self)),
            same_managers(*old(self), *final(self)),
    {
        self.close_request = Some(close_request);
    }

    /// Withdraws the close request; the next build of events announces it.
    pub fn cancel_close(&mut self)
        requires
            old(self).wf(),
        ensures
            final(self).wf(),
            final(self).spec_close_request() is None,
            final(self).spec_cancel_close_requested(),
            final(self).spec_close_request_dispatched() == old(self).spec_close_request_dispatched(),
            final(self).spec_quit_request_dispatched() == old(self).spec_quit_request_dispatched(),
            final(self).spec_quitting() == old(self).spec_quitting(),
            same_registry(*old(self), *final(self)),
            same_pointer(*old(self), *final(self)),
            same_managers(*old(self), *final(self)),
    {
        self.cancel_close_requested = true;
        self.close_request = None;
    }

    /// Starts quitting; the next build of events announces it once.
    pub fn send_quit(&mut self)
        requires
            old(self).wf(),
        ensures
            final(self).wf(),
            final(self).spec_close_request() is None,
            final(self).spec_quitting(),
            final(self).spec_close_request_dispatched() == old(self).spec_close_request_dispatched(),
            final(self).spec_quit_request_dispatched() == old(self).spec_quit_request_dispatched(),
            final(self).spec_cancel_close_requested() == old(self).spec_cancel_close_requested(),
            same_registry(*old(self), *final(self)),
            same_pointer(*old(self), *final(self)),
            same_managers(*old(self), *final(self)),
    {
        self.close_request = None;
        self.quitting = true;
    }

    /// Hands one input of the windowing system to the mouse and window managers.
    pub fn manage_sdl_event(&mut self, mouse: MouseInput, window: WindowInput)
        requires
            old(self).wf(),
        ensures
            final(self).wf(),
            same_registry(*old(self), *final(self)),
            same_pointer(*old(self), *final(self)),
            same_close(*old(self), *final(self)),
            final(self).spec_lifecycle() == old(self).spec_lifecycle(),
            mouse_step(old(self).spec_mouse(), final(self).spec_mouse(), mouse),
            final(self).spec_window().spec_queue() == old(self).spec_window().spec_queue() + window_events_of(window),
    {
        self.mouse_manager.handle_sdl_event(mouse);
        self.window_manager.handle_sdl_event(window);
    }

    /// Queues the lifecycle events of a frame: an update for every node with
    /// an update listener that was neither created nor destroyed, then the
    /// creations, then the destructions.
    pub fn manage_lifecycle_events(&mut self, pending_created: &Vec<NodeID>, pending_destroyed: &Vec<NodeID>)
        requires
            old(self).wf(),
        ensures
            final(self).wf(),
            same_registry(*old(self), *final(self)),
            same_pointer(*old(self), *final(self)),
            same_close(*old(self), *final(self)),
            final(self).spec_mouse() == old(self).spec_mouse(),
            final(self).spec_window() == old(self).spec_window(),
            final(self).spec_lifecycle().spec_queue() == old(self).spec_lifecycle().spec_queue()
                + updates_of(update_targets(old(self).spec_node_lookup(), pending_created@, pending_destroyed@))
                + creations_of(pending_created@)
                + destructions_of(pending_destroyed@),
    {
        let ghost q0 = self.lifecycle_manager.spec_queue();
        let ghost lookup = self.node_listeners_lookup@;
        let mut already_updated: Vec<NodeID> = Vec::new();
        let mut i: usize = 0;
        proof {
            assert(lookup.subrange(0, 0) =~= Seq::<(CallbackID, NodeID, EventType)>::empty());
            assert(updates_of(Seq::<NodeID>::empty()) =~= Seq::<LifecycleEvent>::empty());
            assert(q0 + Seq::<LifecycleEvent>::empty() =~= q0);
        }
        while i < self.node_listeners_lookup.len()
            invariant
                self.wf(),
                lookup == self.node_listeners_lookup@,
                same_registry(*old(self), *self),
                same_pointer(*old(self), *self),
                same_close(*old(self), *self),
                self.mouse_manager == old(self).spec_mouse(),
                self.window_manager == old(self).spec_window(),
                i <= lookup.len(),
                already_updated@ == update_targets(lookup.subrange(0, i as int), pending_created@, pending_destroyed@),
                self.lifecycle_manager.spec_queue() == q0 + updates_of(already_updated@),
            decreases lookup.len() - i,
        {
            let (_, target, event_type) = self.node_listeners_lookup[i];
            let ghost t = lookup.subrange(0, i + 1);
            proof {
                assert(t.drop_last() =~= lookup.subrange(0, i as int));
                assert(t.last() == lookup[i as int]);
            }
            if event_type == EventType::Lifecycle(LifecycleEventType::Update)
                && !vec_contains(pending_created, target)
                && !vec_contains(pending_destroyed, target)
                && !vec_contains(&already_updated, target) {
                already_updated.push(target);
                self.lifecycle_manager.handle_update(target);
                proof {
                    assert(updates_of(already_updated@) =~= updates_of(already_updated@.drop_last()).push(LifecycleEvent::Update { target }));
                    assert(already_updated@.drop_last() =~= update_targets(lookup.subrange(0, i as int), pending_created@, pending_destroyed@));
                }
            }
            i = i + 1;
        }
        proof {
            assert(lookup.subrange(0, i as int) =~= lookup);
        }
        let mut j: usize = 0;
        let ghost q1 = self.lifecycle_manager.spec_queue();
        proof {
            assert(pending_created@.subrange(0, 0) =~= Seq::<NodeID>::empty());
            assert(creations_of(Seq::<NodeID>::empty()) =~= Seq::<LifecycleEvent>::empty());
            assert(q1 + Seq::<LifecycleEvent>::empty() =~= q1);
        }
        while j < pending_created.len()
            invariant
                self.wf(),
                same_registry(*old(self), *self),
                same_pointer(*old(self), *self),
                same_close(*old(self), *self),
                self.mouse_manager == old(self).spec_mouse(),
                self.window_manager == old(self).spec_window(),
                j <= pending_created@.len(),
                self.lifecycle_manager.spec_queue() == q1 + creations_of(pending_created@.subrange(0, j as int)),
            decreases pending_created@.len() - j,
        {
            self.lifecycle_manager.handle_creation(pending_created[j]);
            proof {
                assert(creations_of(pending_created@.subrange(0, j + 1)) =~= creations_of(pending_created@.subrange(0, j as int)).push(LifecycleEvent::Creation { target: pending_created@[j as int] }));
            }
            j = j + 1;
        }
        proof {
            assert(pending_created@.subrange(0, j as int) =~= pending_created@);
        }
        let mut k: usize = 0;
        let ghost q2 = self.lifecycle_manager.spec_queue();
        proof {
            assert(pending_destroyed@.subrange(0, 0) =~= Seq::<NodeID>::empty());
            assert(destructions_of(Seq::<NodeID>::empty()) =~= Seq::<LifecycleEvent>::empty());
            assert(q2 + Seq::<LifecycleEvent>::empty() =~= q2);
        }
        while k < pending_destroyed.len()
            invariant
                self.wf(),
                same_registry(*old(self), *self),
                same_pointer(*old(self), *self),
                same_close(*old(self), *self),
                self.mouse_manager == old(self).spec_mouse(),
                self.window_manager == old(self).spec_window(),
                k <= pending_destroyed@.len(),
                self.lifecycle_manager.spec_queue() == q2 + destructions_of(pending_destroyed@.subrange(0, k as int)),
            decreases pending_destroyed@.len() - k,
        {
            self.lifecycle_manager.handle_destruction(pending_destroyed[k]);
            proof {
                assert(destructions_of(pending_destroyed@.subrange(0, k + 1)) =~= destructions_of(pending_destroyed@.subrange(0, k as int)).push(LifecycleEvent::Destruction { target: pending_destroyed@[k as int] }));
            }
            k = k + 1;
        }
        proof {
            assert(pending_destroyed@.subrange(0, k as int) =~= pending_destroyed@);
        }
    }

    /// Collects the queued mouse, window and lifecycle events, in that order,
    /// followed by the close, cancel and quit announcements that are due, and
    /// empties the queues.
    pub fn build_events(&mut self) -> (events: Vec<Event>)
        requires
            old(self).wf(),
        ensures
            final(self).wf(),
            ({
                let c = control_events(old(self).spec_close_request(), old(self).spec_close_request_dispatched(),
                    old(self).spec_cancel_close_requested(), old(self).spec_quitting(), old(self).spec_quit_request_dispatched());
                &&& events@ == wrap_mouse(old(self).spec_mouse().spec_queue()) + wrap_window(old(self).spec_window().spec_queue())
                    + wrap_lifecycle(old(self).spec_lifecycle().spec_queue()) + c.0
                &&& final(self).spec_close_request() == c.1
                &&& final(self).spec_close_request_dispatched() == c.2
                &&& final(self).spec_cancel_close_requested() == c.3
                &&& final(self).spec_quit_request_dispatched() == c.4
                &&& final(self).spec_quitting() == old(self).spec_quitting()
            }),
            final(self).spec_mouse().spec_queue().len() == 0,
            final(self).spec_mouse().spec_downs() == old(self).spec_mouse().spec_downs(),
            final(self).spec_mouse().spec_dragging() == old(self).spec_mouse().spec_dragging(),
            final(self).spec_mouse().spec_position() == old(self).spec_mouse().spec_position(),
            final(self).spec_window().spec_queue().len() == 0,
            final(self).spec_lifecycle().spec_queue().len() == 0,
            same_registry(*old(self), *final(self)),
            same_pointer(*old(self), *final(self)),
    {
        let mut events: Vec<Event> = Vec::new();
        let mouse_events = self.mouse_manager.take_events();
        let mut i: usize = 0;
        while i < mouse_events.len()
            invariant
                i <= mouse_events@.len(),
                events@ == wrap_mouse(mouse_events@.subrange(0, i as int)),
            decreases mouse_events@.len() - i,
        {
            events.push(Event::Mouse { event: mouse_events[i] });
            i = i + 1;
            assert(events@ =~= wrap_mouse(mouse_events@.subrange(0, i as int)));
        }
        assert(mouse_events@.subrange(0, i as int) =~= mouse_events@);
        let ghost e1 = events@;
        let window_events = self.window_manager.take_events();
        let mut j: usize = 0;
        assert(e1 + wrap_window(window_events@.subrange(0, 0)) =~= e1);
        while j < window_events.len()
            invariant
                j <= window_events@.len(),
                events@ == e1 + wrap_window(window_events@.subrange(0, j as int)),
            decreases window_events@.len() - j,
        {
            events.push(Event::Window { event: window_events[j] });
            j = j + 1;
            assert(events@ =~= e1 + wrap_window(window_events@.subrange(0, j as int)));
        }
        assert(window_events@.subrange(0, j as int) =~= window_events@);
        let ghost e2 = events@;
        let lifecycle_events = self.lifecycle_manager.take_events();
        let mut k: usize = 0;
        assert(e2 + wrap_lifecycle(lifecycle_events@.subrange(0, 0)) =~= e2);
        while k < lifecycle_events.len()
            invariant
                k <= lifecycle_events@.len(),
                events@ == e2 + wrap_lifecycle(lifecycle_events@.subrange(0, k as int)),
            decreases lifecycle_events@.len() - k,
        {
            events.push(Event::Lifecycle { event: lifecycle_events[k] });
            k = k + 1;
            assert(events@ =~= e2 + wrap_lifecycle(lifecycle_events@.subrange(0, k as int)));
        }
        assert(lifecycle_events@.subrange(0, k as int) =~= lifecycle_events@);
        let ghost e3 = events@;
        if !self.close_request_dispatched && self.close_request.is_some() {
            self.close_request_dispatched = true;
            events.push(Event::AppCloseRequest);
        } else if self.cancel_close_requested {
            self.close_request_dispatched = false;
            self.cancel_close_requested = false;
            self.close_request = None;
            events.push(Event::CancelAppCloseRequest);
        }
        let ghost e4 = events@;
        if self.quitting && !self.quit_request_dispatched {
            self.quit_request_dispatched = true;
            events.push(Event::Quit);
        }
        proof {
            let c = control_events(old(self).spec_close_request(), old(self).spec_close_request_dispatched(),
                old(self).spec_cancel_close_requested(), old(self).spec_quitting(), old(self).spec_quit_request_dispatched());
            assert(e3 == wrap_mouse(old(self).spec_mouse().spec_queue()) + wrap_window(old(self).spec_window().spec_queue())
                + wrap_lifecycle(old(self).spec_lifecycle().spec_queue()));
            assert(events@ =~= e3 + c.0);
        }
        events
    }

    /// Registers a listener of `event_type` on `node_id` and returns its
    /// identifier, the next one in order.
    pub fn add_node_event_listener(&mut self, node_id: NodeID, event_type: EventType) -> (id: CallbackID)
        requires
            old(self).wf(),
        ensures
            final(self).wf(),
            id.0 == old(self).spec_next_callback_id(),
            final(self).spec_registry() == registry_add_node(old(self).spec_registry(), node_id, event_type),
            final(self).spec_next_callback_id() == next_callback_number(old(self).spec_next_callback_id()),
            final(self).spec_node_listeners() == old(self).spec_node_listeners().push((id, node_id, event_type)),
            final(self).spec_listener_maps() == (if old(self).spec_listener_maps().contains((node_id, event_type)) {
                old(self).spec_listener_maps()
            } else {
                old(self).spec_listener_maps().push((node_id, event_type))
            }),
            final(self).spec_node_lookup() == old(self).spec_node_lookup().push((id, node_id, event_type)),
            final(self).spec_scene_listeners() == old(self).spec_scene_listeners(),
            final(self).spec_scene_lookup() == old(self).spec_scene_lookup(),
            same_pointer(*old(self), *final(self)),
            same_close(*old(self), *final(self)),
            same_managers(*old(self), *final(self)),
    {
        let id = CallbackID::next(&mut self.next_callback_id);
        let mut has_map = false;
        let mut i: usize = 0;
        while i < self.node_listener_maps.len()
            invariant
                i <= self.node_listener_maps@.len(),
                has_map == self.node_listener_maps@.subrange(0, i as int).contains((node_id, event_type)),
            decreases self.node_listener_maps@.len() - i,
        {
            proof {
                let t = self.node_listener_maps@.subrange(0, i + 1);
                assert(t.drop_last() =~= self.node_listener_maps@.subrange(0, i as int));
                assert(t.last() == self.node_listener_maps@[i as int]);
                assert(t.contains((node_id, event_type)) == (t.drop_last().contains((node_id, event_type)) || t.last() == (node_id, event_type))) by {
                    if t.contains((node_id, event_type)) {
                        let k = choose|k: int| 0 <= k < t.len() && t[k] == (node_id, event_type);
                        if k < t.len() - 1 {
                            assert(t.drop_last()[k] == t[k]);
                        }
                    }
                    if t.drop_last().contains((node_id, event_type)) {
                        let k = choose|k: int| 0 <= k < t.drop_last().len() && t.drop_last()[k] == (node_id, event_type);
                        assert(t[k] == t.drop_last()[k]);
                    }
                    if t.last() == (node_id, event_type) {
                        assert(t[t.len() - 1] == (node_id, event_type));
                    }
                }
            }
            if self.node_listener_maps[i].0 == node_id && self.node_listener_maps[i].1 == event_type {
                has_map = true;
            }
            i = i + 1;
        }
        assert(self.node_listener_maps@.subrange(0, i as int) =~= self.node_listener_maps@);
        if !has_map {
            self.node_listener_maps.push((node_id, event_type));
        }
        self.node_event_listeners.push((id, node_id, event_type));
        self.node_listeners_lookup.push((id, node_id, event_type));
        id
    }

    /// Registers a listener of `event_type` on the scene and returns its
    /// identifier, the next one in order. The listener is entered in the
    /// scene lookup, so `remove_event_listener` can remove it.
    pub fn add_scene_event_listener(&mut self, event_type: EventType) -> (id: CallbackID)
        requires
            old(self).wf(),
        ensures
            final(self).wf(),
            id.0 == old(self).spec_next_callback_id(),
            final(self).spec_registry() == registry_add_scene(old(self).spec_registry(), event_type),
            final(self).spec_next_callback_id() == next_callback_number(old(self).spec_next_callback_id()),
            final(self).spec_scene_listeners() == old(self).spec_scene_listeners().push((id, event_type)),
            final(self).spec_scene_lookup() == old(self).spec_scene_lookup().push((id, event_type)),
            final(self).spec_node_listeners() == old(self).spec_node_listeners(),
            final(self).spec_listener_maps() == old(self).spec_listener_maps(),
            final(self).spec_node_lookup() == old(self).spec_node_lookup(),
            same_pointer(*old(self), *final(self)),
            same_close(*old(self), *final(self)),
            same_managers(*old(self), *final(self)),
    {
        let id = CallbackID::next(&mut self.next_callback_id);
        self.scene_event_listeners.push((id, event_type));
        self.scene_listener_lookup.push((id, event_type));
        id
    }

    /// Removes the listener `target`: a node listener where the lookup names
    /// it, else a scene listener where the scene lookup names it; any other
    /// identifier leaves the registry as it is.
    pub fn remove_event_listener(&mut self, target: CallbackID)
        requires
            old(self).wf(),
            lookup_table_exists(old(self).spec_node_lookup(), old(self).spec_listener_maps(), target),
        ensures
            final(self).wf(),
            final(self).spec_registry() == registry_remove(old(self).spec_registry(), target),
            if node_lookup_has(old(self).spec_node_lookup(), target) {
                &&& final(self).spec_node_listeners() == old(self).spec_node_listeners().filter(other_node_callback(target))
                &&& final(self).spec_node_lookup() == old(self).spec_node_lookup().filter(other_node_callback(target))
                &&& final(self).spec_scene_listeners() == old(self).spec_scene_listeners()
                &&& final(self).spec_scene_lookup() == old(self).spec_scene_lookup()
            } else if scene_lookup_has(old(self).spec_scene_lookup(), target) {
                &&& final(self).spec_node_listeners() == old(self).spec_node_listeners()
                &&& final(self).spec_node_lookup() == old(self).spec_node_lookup()
                &&& final(self).spec_scene_listeners() == old(self).spec_scene_listeners().filter(other_scene_callback(target))
                &&& final(self).spec_scene_lookup() == old(self).spec_scene_lookup().filter(other_scene_callback(target))
            } else {
                &&& final(self).spec_node_listeners() == old(self).spec_node_listeners()
                &&& final(self).spec_node_lookup() == old(self).spec_node_lookup()
                &&& final(self).spec_scene_listeners() == old(self).spec_scene_listeners()
                &&& final(self).spec_scene_lookup() == old(self).spec_scene_lookup()
            },
            final(self).spec_listener_maps() == old(self).spec_listener_maps(),
            final(self).spec_next_callback_id() == old(self).spec_next_callback_id(),
            listener_gone(*old(self), *final(self), target),
            same_pointer(*old(self), *final(self)),
            same_close(*old(self), *final(self)),
            same_managers(*old(self), *final(self)),
    {
        proof {
            let o = old(self).spec_registry();
            if node_lookup_has(o.node_lookup, target) {
                assert forall|i: int| 0 <= i < o.node_listeners.filter(other_node_callback(target)).len()
                    implies (#[trigger] o.node_listeners.filter(other_node_callback(target))[i]).0 != target by {
                    o.node_listeners.lemma_filter_pred(other_node_callback(target), i);
                }
            } else if scene_lookup_has(o.scene_lookup, target) {
                assert forall|i: int| 0 <= i < o.scene_listeners.filter(other_scene_callback(target)).len()
                    implies (#[trigger] o.scene_listeners.filter(other_scene_callback(target))[i]).0 != target by {
                    o.scene_listeners.lemma_filter_pred(other_scene_callback(target), i);
                }
            }
        }
        if node_entries_have(&self.node_listeners_lookup, target) {
            let listeners = without_node_callback(&self.node_event_listeners, target);
            let lookup = without_node_callback(&self.node_listeners_lookup, target);
            self.node_event_listeners = listeners;
            self.node_listeners_lookup = lookup;
        } else if scene_entries_have(&self.scene_listener_lookup, target) {
            let listeners = without_scene_callback(&self.scene_event_listeners, target);
            let lookup = without_scene_callback(&self.scene_listener_lookup, target);
            self.scene_event_listeners = listeners;
            self.scene_listener_lookup = lookup;
        }
    }

    /// Drops every listener registered on node `id` together with its listener
    /// tables. The lookup keeps its entries.
    pub fn clear_node_listeners(&mut self, id: NodeID)
        requires
            old(self).wf(),
        ensures
            final(self).wf(),
            final(self).spec_registry() == registry_clear(old(self).spec_registry(), id),
            final(self).spec_node_listeners() == old(self).spec_node_listeners().filter(other_node_listener(id)),
            final(self).spec_listener_maps() == old(self).spec_listener_maps().filter(other_node_map(id)),
            final(self).spec_node_lookup() == old(self).spec_node_lookup(),
            final(self).spec_scene_listeners() == old(self).spec_scene_listeners(),
            final(self).spec_scene_lookup() == old(self).spec_scene_lookup(),
            final(self).spec_next_callback_id() == old(self).spec_next_callback_id(),
            same_pointer(*old(self), *final(self)),
            same_close(*old(self), *final(self)),
            same_managers(*old(self), *final(self)),
    {
        let listeners = without_node_listeners(&self.node_event_listeners, id);
        let maps = without_node_maps(&self.node_listener_maps, id);
        self.node_event_listeners = listeners;
        self.node_listener_maps = maps;
    }

    /// The callbacks listening for `event_type` on node `node`, in the order
    /// they were registered.
    pub fn listeners_for(&self, node: NodeID, event_type: EventType) -> (r: Vec<CallbackID>)
        ensures
            r@ == callbacks_of3(self.spec_node_listeners().filter(listener_of(node, event_type))),
    {
        let v = &self.node_event_listeners;
        let mut r: Vec<CallbackID> = Vec::new();
        let mut i: usize = 0;
        while i < v.len()
            invariant
                v == &self.node_event_listeners,
                i <= v@.len(),
                r@ == callbacks_of3(v@.subrange(0, i as int).filter(listener_of(node, event_type))),
            decreases v@.len() - i,
        {
            proof { lemma_filter_step(v@, listener_of(node, event_type), i as int); }
            let e = v[i];
            if e.1 == node && e.2 == event_type {
                r.push(e.0);
                proof {
                    let f = v@.subrange(0, i as int).filter(listener_of(node, event_type));
                    assert(callbacks_of3(f.push(e)) =~= callbacks_of3(f).push(e.0));
                }
            }
            i = i + 1;
        }
        assert(v@.subrange(0, i as int) =~= v@);
        r
    }

    /// The callbacks listening for `event_type` on the scene, in the order
    /// they were registered.
    pub fn scene_listeners_for(&self, event_type: EventType) -> (r: Vec<CallbackID>)
        ensures
            r@ == callbacks_of2(self.spec_scene_listeners().filter(scene_listener_of(event_type))),
    {
        let v = &self.scene_event_listeners;
        let mut r: Vec<CallbackID> = Vec::new();
        let mut i: usize = 0;
        while i < v.len()
            invariant
                v == &self.scene_event_listeners,
                i <= v@.len(),
                r@ == callbacks_of2(v@.subrange(0, i as int).filter(scene_listener_of(event_type))),
            decreases v@.len() - i,
        {
            proof { lemma_filter_step(v@, scene_listener_of(event_type), i as int); }
            let e = v[i];
            if e.1 == event_type {
                r.push(e.0);
                proof {
                    let f = v@.subrange(0, i as int).filter(scene_listener_of(event_type));
                    assert(callbacks_of2(f.push(e)) =~= callbacks_of2(f).push(e.0));
                }
            }
            i = i + 1;
        }
        assert(v@.subrange(0, i as int) =~= v@);
        r
    }

    /// Routes `e` to its targets after the scene listeners and, where
    /// `reaches_all_nodes` says so, every node have received it; `hit` is the
    /// topmost node under the cursor, consulted only where `needs_hit_test`
    /// says so. Returns the deliveries in order, each to be bubbled from its
    /// node, and updates the hovered, active and dragged nodes. A cancelled
    /// close request is forgotten.
    pub fn route_event(&mut self, e: Event, hit: Option<NodeID>) -> (deliveries: Vec<(NodeID, Event)>)
        requires
            old(self).wf(),
        ensures
            final(self).wf(),
            same_registry(*old(self), *final(self)),
            same_managers(*old(self), *final(self)),
            match e {
                Event::Mouse { event } => {
                    let r = mouse_route(old(self).spec_hovered(), old(self).spec_active(), old(self).spec_dragged(), event, hit);
                    &&& deliveries@ == r.0
                    &&& final(self).spec_hovered() == r.1
                    &&& final(self).spec_active() == r.2
                    &&& final(self).spec_dragged() == r.3
                },
                Event::Lifecycle { event } => {
                    &&& deliveries@ == seq![(match event {
                        LifecycleEvent::Update { target } => target,
                        LifecycleEvent::Creation { target } => target,
                        LifecycleEvent::Destruction { target } => target,
                    }, e)]
                    &&& same_pointer(*old(self), *final(self))
                },
                _ => {
                    &&& deliveries@.len() == 0
                    &&& same_pointer(*old(self), *final(self))
                },
            },
            e is CancelAppCloseRequest ==> final(self).spec_close_request() is None,
            !(e is CancelAppCloseRequest) ==> final(self).spec_close_request() == old(self).spec_close_request(),
            final(self).spec_close_request_dispatched() == old(self).spec_close_request_dispatched(),
            final(self).spec_quit_request_dispatched() == old(self).spec_quit_request_dispatched(),
            final(self).spec_cancel_close_requested() == old(self).spec_cancel_close_requested(),
            final(self).spec_quitting() == old(self).spec_quitting(),
    {
        let mut deliveries: Vec<(NodeID, Event)> = Vec::new();
        match e {
            Event::Mouse { event } => {
                match event {
                    MouseEvent::MouseDown { .. } => {
                        if let Some(target) = hit {
                            deliveries.push((target, e));
                            self.active_node = Some(target);
                        }
                    },
                    MouseEvent::MouseUp { .. } => {
                        if let Some(active) = self.active_node {
                            deliveries.push((active, e));
                        }
                        self.active_node = None;
                    },
                    MouseEvent::MouseMove { x, y } => {
                        if let Some(target) = hit {
                            if Some(target) != self.hovered_node {
                                if let Some(hovered) = self.hovered_node {
                                    deliveries.push((hovered, Event::Mouse { event: MouseEvent::Leave { x, y } }));
                                }
                                deliveries.push((target, Event::Mouse { event: MouseEvent::Enter { x, y } }));
                                self.hovered_node = Some(target);
                            }
                        } else {
                            if let Some(hovered) = self.hovered_node {
                                deliveries.push((hovered, Event::Mouse { event: MouseEvent::Leave { x, y } }));
                                self.hovered_node = None;
                            }
                        }
                    },
                    MouseEvent::Click { .. } => {
                        if let Some(target) = self.active_node {
                            deliveries.push((target, e));
                        }
                    },
                    MouseEvent::DragStart { .. } => {
                        if let Some(target) = hit {
                            deliveries.push((target, e));
                            self.dragged_node = Some(target);
                        }
                    },
                    MouseEvent::Drag { .. } => {
                        if let Some(target) = self.dragged_node {
                            deliveries.push((target, e));
                        }
                    },
                    MouseEvent::DragEnd { .. } => {
                        if let Some(target) = self.dragged_node {
                            deliveries.push((target, e));
                        }
                        self.dragged_node = None;
                    },
                    _ => {},
                }
            },
            Event::Lifecycle { event } => {
                match event {
                    LifecycleEvent::Creation { target }
                    | LifecycleEvent::Update { target }
                    | LifecycleEvent::Destruction { target } => {
                        deliveries.push((target, e));
                    },
                }
            },
            Event::CancelAppCloseRequest => {
                self.close_request = None;
            },
            _ => {},
        }
        proof {
            if let Event::Mouse { event } = e {
                assert(deliveries@ =~= mouse_route(old(self).spec_hovered(), old(self).spec_active(), old(self).spec_dragged(), event, hit).0);
            }
        }
        deliveries
    }

    /// The node of the first lookup entry of `target` whose listener table no
    /// longer exists, if any.
    pub fn stale_lookup_node(&self, target: CallbackID) -> (r: Option<NodeID>)
        ensures
            r == first_stale(self.spec_node_lookup(), self.spec_listener_maps(), target),
            r is None <==> lookup_table_exists(self.spec_node_lookup(), self.spec_listener_maps(), target),
    {
        let lookup = &self.node_listeners_lookup;
        let maps = &self.node_listener_maps;
        proof {
            lemma_first_stale(lookup@, maps@, target);
            assert(lookup@.subrange(0, lookup@.len() as int) =~= lookup@);
        }
        let mut i: usize = 0;
        while i < lookup.len()
            invariant
                lookup == &self.node_listeners_lookup,
                maps == &self.node_listener_maps,
                i <= lookup@.len(),
                first_stale(lookup@.subrange(i as int, lookup@.len() as int), maps@, target) == first_stale(lookup@, maps@, target),
            decreases lookup@.len() - i,
        {
            let ghost rest = lookup@.subrange(i as int, lookup@.len() as int);
            proof {
                assert(rest.drop_first() =~= lookup@.subrange(i + 1, lookup@.len() as int));
                assert(rest[0] == lookup@[i as int]);
            }
            let e = lookup[i];
            if e.0 == target {
                let mut found = false;
                let mut j: usize = 0;
                while j < maps.len()
                    invariant
                        j <= maps@.len(),
                        found ==> maps@.contains((e.1, e.2)),
                        !found ==> forall|b: int| 0 <= b < j ==> maps@[b] != (e.1, e.2),
                    decreases maps@.len() - j,
                {
                    if maps[j].0 == e.1 && maps[j].1 == e.2 {
                        assert(maps@[j as int] == (e.1, e.2));
                        found = true;
                    }
                    j = j + 1;
                }
                if !found {
                    return Some(e.1);
                }
            }
            i = i + 1;
        }
        proof {
            assert(lookup@.subrange(i as int, lookup@.len() as int) =~= Seq::<(CallbackID, NodeID, EventType)>::empty());
        }
        None
    }
}

} // verus!
