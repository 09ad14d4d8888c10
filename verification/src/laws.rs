//! Properties of the library that relate several of its operations.
use vstd::prelude::*;
use crate::event::dispatch::spec_propagation_target;
use crate::event::event_manager::{
    callbacks_of3, control_events, listener_of, mouse_route, next_callback_number, node_lookup_has,
    other_node_callback, other_scene_callback, registry_add_node, registry_add_scene, registry_clear, registry_remove, scene_lookup_has, PropagationState, RegistryView,
};
use crate::render::{by_layer, insert_by_layer, node_layer, visit, visit_children, visit_roots};
use crate::event::types::{spec_bubbles_by_default, Event, EventType, MouseEvent};
use crate::ids::{CallbackID, EventCallbackID, NodeID};
use crate::scene::action::{ActionOrigin, NodeTreeAction, StyleAction};
use crate::scene::family::{children_family, family};
use crate::scene::scene::{append_new, run_style_actions, run_tree_actions, style_frame, timer_running};
use crate::scene::tree::remove_first;
use crate::scene::visual::{apply_update, level, CurrentVisualState, NodeVisual, VisualUpdate};
use crate::util::{position_sum_fits, Color, Position};
use crate::scene::storage::NodeStorage;
use crate::scene::node_view::{absolute_position, absolute_position_defined, absolute_position_of, lemma_absolute_position_fuel};

verus! {

/// A change made in one interaction state applies to that state and to every
/// state above it (normal < hover < active), and leaves the states below as
/// they were.
pub proof fn law_visual_fusion(v: NodeVisual, u: VisualUpdate, which: CurrentVisualState)
    ensures
        level(which) >= level(v.current) ==> v.fused(u).state_at(which) == apply_update(v.state_at(which), u),
        level(which) < level(v.current) ==> v.fused(u).state_at(which) == v.state_at(which),
        v.fused(u).current == v.current,
{
}

/// Reading the color of the current look right after setting it gives the
/// color that was set.
pub proof fn law_visual_color_read_after_write(v: NodeVisual, c: Color)
    ensures
        v.fused(VisualUpdate::Color(c)).current_state().style.color == c,
{
}

/// Adding a child that is not yet there and removing it again gives back the
/// children as they were.
pub proof fn law_add_then_remove_child(children: Seq<NodeID>, child: NodeID)
    requires
        !children.contains(child),
    ensures
        remove_first(children.push(child), child) == children,
    decreases children.len(),
{
    if children.len() == 0 {
        assert(children.push(child).drop_first() =~= children);
    } else {
        assert(children.push(child).drop_first() =~= children.drop_first().push(child));
        assert(!children.drop_first().contains(child)) by {
            if children.drop_first().contains(child) {
                let k = choose|k: int| 0 <= k < children.drop_first().len() && children.drop_first()[k] == child;
                assert(children[k + 1] == child);
            }
        }
        law_add_then_remove_child(children.drop_first(), child);
        assert(children =~= seq![children[0]].add(children.drop_first()));
    }
}

/// Keeping the elements that satisfy `p` keeps everything when every element
/// satisfies it.
proof fn lemma_filter_all<A>(s: Seq<A>, p: spec_fn(A) -> bool)
    requires
        forall|i: int| 0 <= i < s.len() ==> p(#[trigger] s[i]),
    ensures
        s.filter(p) == s,
    decreases s.len(),
{
    reveal(Seq::filter);
    if s.len() > 0 {
        lemma_filter_all(s.drop_last(), p);
        assert(s.drop_last().push(s.last()) =~= s);
    }
}

/// Registering a node listener and removing it again gives back the
/// listeners and the lookup as they were, when the identifier handed out was
/// not in use. The identifier counter moves on, and the listener table may
/// stay.
pub proof fn law_add_then_remove_listener(r: RegistryView, node: NodeID, event_type: EventType)
    requires
        forall|i: int| 0 <= i < r.node_listeners.len() ==> (#[trigger] r.node_listeners[i]).0 != EventCallbackID(r.next),
        forall|i: int| 0 <= i < r.node_lookup.len() ==> (#[trigger] r.node_lookup[i]).0 != EventCallbackID(r.next),
    ensures
        ({
            let after = registry_remove(registry_add_node(r, node, event_type), EventCallbackID(r.next));
            &&& after.node_listeners == r.node_listeners
            &&& after.node_lookup == r.node_lookup
            &&& after.scene_listeners == r.scene_listeners
            &&& after.scene_lookup == r.scene_lookup
            &&& after.next == next_callback_number(r.next)
        }),
{
    let id = EventCallbackID(r.next);
    let added = registry_add_node(r, node, event_type);
    let p = other_node_callback(id);
    assert(added.node_lookup[added.node_lookup.len() - 1].0 == id);
    assert(node_lookup_has(added.node_lookup, id));
    reveal(Seq::filter);
    assert(added.node_listeners.drop_last() =~= r.node_listeners);
    assert(added.node_lookup.drop_last() =~= r.node_lookup);
    lemma_filter_all(r.node_listeners, p);
    lemma_filter_all(r.node_lookup, p);
}

/// Registering a scene listener and removing it again by the identifier
/// handed out gives back the scene listeners and the scene lookup as they
/// were, when that identifier was not in use: the listener is gone. The
/// identifier counter moves on.
pub proof fn law_add_then_remove_scene_listener(r: RegistryView, event_type: EventType)
    requires
        forall|i: int| 0 <= i < r.node_lookup.len() ==> (#[trigger] r.node_lookup[i]).0 != EventCallbackID(r.next),
        forall|i: int| 0 <= i < r.scene_listeners.len() ==> (#[trigger] r.scene_listeners[i]).0 != EventCallbackID(r.next),
        forall|i: int| 0 <= i < r.scene_lookup.len() ==> (#[trigger] r.scene_lookup[i]).0 != EventCallbackID(r.next),
    ensures
        ({
            let after = registry_remove(registry_add_scene(r, event_type), EventCallbackID(r.next));
            &&& after.scene_listeners == r.scene_listeners
            &&& after.scene_lookup == r.scene_lookup
            &&& after.node_listeners == r.node_listeners
            &&& after.node_lookup == r.node_lookup
            &&& after.listener_maps == r.listener_maps
            &&& after.next == next_callback_number(r.next)
            &&& forall|i: int| 0 <= i < after.scene_listeners.len()
                ==> (#[trigger] after.scene_listeners[i]).0 != EventCallbackID(r.next)
        }),
{
    let id = EventCallbackID(r.next);
    let added = registry_add_scene(r, event_type);
    let p = other_scene_callback(id);
    assert(added.scene_lookup[added.scene_lookup.len() - 1].0 == id);
    assert(scene_lookup_has(added.scene_lookup, id));
    assert(!node_lookup_has(added.node_lookup, id));
    reveal(Seq::filter);
    assert(added.scene_listeners.drop_last() =~= r.scene_listeners);
    assert(added.scene_lookup.drop_last() =~= r.scene_lookup);
    lemma_filter_all(r.scene_listeners, p);
    lemma_filter_all(r.scene_lookup, p);
}

/// Removing a listener twice is the same as removing it once, for an
/// identifier that is not in both lookups.
pub proof fn law_remove_listener_idempotent(r: RegistryView, target: CallbackID)
    requires
        !(node_lookup_has(r.node_lookup, target) && scene_lookup_has(r.scene_lookup, target)),
    ensures
        registry_remove(registry_remove(r, target), target) == registry_remove(r, target),
{
    let once = registry_remove(r, target);
    if node_lookup_has(r.node_lookup, target) {
        assert(!node_lookup_has(once.node_lookup, target)) by {
            if node_lookup_has(once.node_lookup, target) {
                let i = choose|i: int| 0 <= i < once.node_lookup.len() && (#[trigger] once.node_lookup[i]).0 == target;
                r.node_lookup.lemma_filter_pred(other_node_callback(target), i);
            }
        }
    } else if scene_lookup_has(r.scene_lookup, target) {
        assert(!scene_lookup_has(once.scene_lookup, target)) by {
            if scene_lookup_has(once.scene_lookup, target) {
                let i = choose|i: int| 0 <= i < once.scene_lookup.len() && (#[trigger] once.scene_lookup[i]).0 == target;
                r.scene_lookup.lemma_filter_pred(crate::event::event_manager::other_scene_callback(target), i);
            }
        }
    }
}

/// Two builds of events in a row never both announce the close request, and
/// the quit is announced at most once.
pub proof fn law_close_announced_once(
    close_request: Option<crate::event::event_manager::CloseRequest>,
    close_dispatched: bool,
    cancel_requested: bool,
    quitting: bool,
    quit_dispatched: bool,
)
    ensures
        ({
            let c1 = control_events(close_request, close_dispatched, cancel_requested, quitting, quit_dispatched);
            let c2 = control_events(c1.1, c1.2, c1.3, quitting, c1.4);
            &&& !(c1.0.contains(Event::AppCloseRequest) && c2.0.contains(Event::AppCloseRequest))
            &&& !(c1.0.contains(Event::Quit) && c2.0.contains(Event::Quit))
        }),
{
    let c1 = control_events(close_request, close_dispatched, cancel_requested, quitting, quit_dispatched);
    let c2 = control_events(c1.1, c1.2, c1.3, quitting, c1.4);
    if c2.0.contains(Event::AppCloseRequest) {
        let k = choose|k: int| 0 <= k < c2.0.len() && c2.0[k] == Event::AppCloseRequest;
        assert(!c1.2 && c1.1 is Some);
        if c1.0.contains(Event::AppCloseRequest) {
            let j = choose|j: int| 0 <= j < c1.0.len() && c1.0[j] == Event::AppCloseRequest;
        }
    }
    if c2.0.contains(Event::Quit) {
        let k = choose|k: int| 0 <= k < c2.0.len() && c2.0[k] == Event::Quit;
        if c1.0.contains(Event::Quit) {
            let j = choose|j: int| 0 <= j < c1.0.len() && c1.0[j] == Event::Quit;
        }
    }
}

/// An event goes on to the parent only when there is one: always when a
/// listener asked for bubbling, never when a listener stopped it, and
/// otherwise exactly for button presses, releases and clicks.
pub proof fn law_propagation(parent: Option<NodeID>, event_type: EventType)
    ensures
        spec_propagation_target(parent, PropagationState::Bubble, event_type) == parent,
        spec_propagation_target(parent, PropagationState::Stopped, event_type) is None,
        spec_propagation_target(parent, PropagationState::Unset, event_type)
            == (if spec_bubbles_by_default(event_type) { parent } else { None }),
{
}

/// Releasing the button forgets the active node and ending a drag forgets
/// the dragged node; a move onto a new node tells the node it left before
/// the node it entered.
pub proof fn law_pointer_state(
    hovered: Option<NodeID>,
    active: Option<NodeID>,
    dragged: Option<NodeID>,
    m: MouseEvent,
    hit: Option<NodeID>,
)
    ensures
        m is MouseUp ==> mouse_route(hovered, active, dragged, m, hit).2 is None,
        m is DragEnd ==> mouse_route(hovered, active, dragged, m, hit).3 is None,
        (m matches MouseEvent::MouseMove { x, y } && hit matches Some(t) && hovered matches Some(h) && h != t) ==> {
            let r = mouse_route(hovered, active, dragged, m, hit);
            &&& r.0.len() == 2
            &&& r.0[0].0 == hovered->0
            &&& r.0[0].1 == Event::Mouse { event: MouseEvent::Leave { x: m->MouseMove_x, y: m->MouseMove_y } }
            &&& r.0[1].0 == hit->0
            &&& r.0[1].1 == Event::Mouse { event: MouseEvent::Enter { x: m->MouseMove_x, y: m->MouseMove_y } }
            &&& r.1 == hit
        },
{
}

/// Scheduling a family for destruction lists every node once: what was
/// listed stays first, and every node of the family is listed.
pub proof fn law_destruction_lists_once(d: Seq<NodeID>, f: Seq<NodeID>)
    requires
        d.no_duplicates(),
    ensures
        append_new(d, f).no_duplicates(),
        append_new(d, f).len() >= d.len(),
        append_new(d, f).subrange(0, d.len() as int) == d,
        forall|x: NodeID| append_new(d, f).contains(x) <==> (d.contains(x) || f.contains(x)),
    decreases f.len(),
{
    if f.len() > 0 {
        let d1 = if d.contains(f[0]) { d } else { d.push(f[0]) };
        assert(d1.no_duplicates()) by {
            if !d.contains(f[0]) {
                assert forall|i: int, j: int| 0 <= i < d1.len() && 0 <= j < d1.len() && i != j implies d1[i] != d1[j] by {
                    if i == d.len() as int {
                        assert(d.contains(d1[j]));
                    } else if j == d.len() as int {
                        assert(d.contains(d1[i]));
                    }
                }
            }
        }
        law_destruction_lists_once(d1, f.drop_first());
        let r = append_new(d1, f.drop_first());
        assert(r.subrange(0, d.len() as int) =~= d) by {
            assert(r.subrange(0, d1.len() as int) == d1);
            assert forall|i: int| 0 <= i < d.len() implies r.subrange(0, d.len() as int)[i] == d[i] by {
                assert(r.subrange(0, d1.len() as int)[i] == d1[i]);
            }
        }
        assert forall|x: NodeID| r.contains(x) <==> (d.contains(x) || f.contains(x)) by {
            if f.contains(x) && !d.contains(x) && x != f[0] {
                let k = choose|k: int| 0 <= k < f.len() && f[k] == x;
                assert(f.drop_first()[k - 1] == x);
            }
            if f.drop_first().contains(x) {
                let k = choose|k: int| 0 <= k < f.drop_first().len() && f.drop_first()[k] == x;
                assert(f[k + 1] == x);
            }
            if d1.contains(x) && !d.contains(x) {
                assert(x == f[0]);
                assert(f[0] == f[0]);
            }
            if x == f[0] {
                assert(f.contains(x));
                if !d.contains(x) {
                    assert(d1[d.len() as int] == x);
                }
            }
            if d.contains(x) {
                let k = choose|k: int| 0 <= k < d.len() && d[k] == x;
                assert(d1[k] == x);
            }
        }
    }
}

/// While the timer of a `Wait` runs, a frame changes neither the look nor the
/// queued style actions.
pub proof fn law_wait_holds_back(
    v: NodeVisual,
    q: Seq<(StyleAction, ActionOrigin)>,
    hovered: bool,
    active: bool,
    now: u64,
)
    requires
        timer_running(v, now),
    ensures
        style_frame(v, q, hovered, active, now) == (v, q),
{
}

/// A `Wait` stops the run of style actions: the actions after it stay queued.
pub proof fn law_wait_stops_run(
    v: NodeVisual,
    ms: u64,
    origin: ActionOrigin,
    rest: Seq<(StyleAction, ActionOrigin)>,
    hovered: bool,
    active: bool,
    now: u64,
)
    ensures
        run_style_actions(v, seq![(StyleAction::Wait { ms }, origin)] + rest, hovered, active, now).1 == rest,
{
    let q = seq![(StyleAction::Wait { ms }, origin)] + rest;
    assert(q.drop_first() =~= rest);
}

/// The family of a node that has a tree component starts with the node.
pub proof fn law_family_starts_with_node(m: Map<u32, crate::scene::tree::NodeTree>, id: NodeID, fuel: nat)
    requires
        m.contains_key(id.0),
        family(m, id, fuel) matches Some(Ok(_)),
    ensures
        family(m, id, fuel) matches Some(Ok(s)) && s.len() >= 1 && s[0] == id,
{
    let c = children_family(m, m[id.0].spec_children(), (fuel - 1) as nat);
    match c {
        Some(Ok(t)) => {
            assert((seq![id] + t)[0] == id);
        },
        _ => {},
    }
}

/// What is queued last comes out last: pushing to the back of a queue keeps
/// its front and puts the new action after all the others.
pub proof fn law_queue_fifo<A>(q: Seq<A>, a: A)
    ensures
        q.len() > 0 ==> q.push(a)[0] == q[0],
        q.len() > 0 ==> q.push(a).drop_first() == q.drop_first().push(a),
        q.push(a)[q.len() as int] == a,
{
    if q.len() > 0 {
        assert(q.push(a).drop_first() =~= q.drop_first().push(a));
    }
}

/// Creating a node and destroying it gives back the nodes as they were.
pub proof fn law_create_then_destroy(ids: Set<u32>, k: u32)
    requires
        !ids.contains(k),
    ensures
        ids.insert(k).remove(k) == ids,
{
    assert(ids.insert(k).remove(k) =~= ids);
}

/// A listener registered on a node for an event type is called after those
/// registered there before it, and the listeners of every other node and
/// event type stay as they were.
pub proof fn law_listener_order(r: RegistryView, node: NodeID, event_type: EventType, other: NodeID, other_type: EventType)
    ensures
        callbacks_of3(registry_add_node(r, node, event_type).node_listeners.filter(listener_of(node, event_type)))
            == callbacks_of3(r.node_listeners.filter(listener_of(node, event_type))).push(EventCallbackID(r.next)),
        (other != node || other_type != event_type) ==>
            registry_add_node(r, node, event_type).node_listeners.filter(listener_of(other, other_type))
                == r.node_listeners.filter(listener_of(other, other_type)),
{
    let e = (EventCallbackID(r.next), node, event_type);
    r.node_listeners.lemma_filter_push(e, listener_of(node, event_type));
    r.node_listeners.lemma_filter_push(e, listener_of(other, other_type));
    let f = r.node_listeners.filter(listener_of(node, event_type));
    assert(callbacks_of3(f.push(e)) =~= callbacks_of3(f).push(e.0));
}

/// `t` is in ascending order of layer.
pub open spec fn layers_ascending(t: Seq<(usize, NodeID)>) -> bool {
    forall|i: int, j: int| 0 <= i < j < t.len() ==> (#[trigger] t[i]).0 <= (#[trigger] t[j]).0
}

/// Inserting by layer into a sequence in ascending order of layer keeps it so.
proof fn lemma_insert_keeps_order(t: Seq<(usize, NodeID)>, x: (usize, NodeID))
    requires
        layers_ascending(t),
    ensures
        layers_ascending(insert_by_layer(t, x)),
        insert_by_layer(t, x).len() == t.len() + 1,
        forall|i: int| 0 <= i < insert_by_layer(t, x).len() ==> ((#[trigger] insert_by_layer(t, x)[i]).0 == x.0
            || exists|k: int| 0 <= k < t.len() && t[k] == insert_by_layer(t, x)[i]),
    decreases t.len(),
{
    let r = insert_by_layer(t, x);
    if t.len() == 0 {
    } else if t[0].0 > x.0 {
        assert forall|i: int, j: int| 0 <= i < j < r.len() implies (#[trigger] r[i]).0 <= (#[trigger] r[j]).0 by {
            if i > 0 {
                assert(r[i] == t[i - 1] && r[j] == t[j - 1]);
            } else {
                assert(r[j] == t[j - 1]);
                assert(t[0].0 <= t[j - 1].0 || j - 1 == 0);
            }
        }
        assert forall|i: int| 0 <= i < r.len() implies ((#[trigger] r[i]).0 == x.0
            || exists|k: int| 0 <= k < t.len() && t[k] == r[i]) by {
            if i > 0 {
                assert(t[i - 1] == r[i]);
            }
        }
    } else {
        let d = t.drop_first();
        assert(layers_ascending(d)) by {
            assert forall|i: int, j: int| 0 <= i < j < d.len() implies (#[trigger] d[i]).0 <= (#[trigger] d[j]).0 by {
                assert(d[i] == t[i + 1] && d[j] == t[j + 1]);
            }
        }
        lemma_insert_keeps_order(d, x);
        let rest = insert_by_layer(d, x);
        assert(r == seq![t[0]] + rest);
        assert forall|i: int| 0 <= i < rest.len() implies t[0].0 <= (#[trigger] rest[i]).0 by {
            if rest[i].0 != x.0 {
                let k = choose|k: int| 0 <= k < d.len() && d[k] == rest[i];
                assert(d[k] == t[k + 1]);
                assert(t[0].0 <= t[k + 1].0);
            }
        }
        assert forall|i: int, j: int| 0 <= i < j < r.len() implies (#[trigger] r[i]).0 <= (#[trigger] r[j]).0 by {
            if i == 0 {
                assert(r[j] == rest[j - 1]);
            } else {
                assert(r[i] == rest[i - 1] && r[j] == rest[j - 1]);
            }
        }
        assert forall|i: int| 0 <= i < r.len() implies ((#[trigger] r[i]).0 == x.0
            || exists|k: int| 0 <= k < t.len() && t[k] == r[i]) by {
            if i == 0 {
                assert(t[0] == r[0]);
            } else {
                assert(r[i] == rest[i - 1]);
                if rest[i - 1].0 != x.0 {
                    let k = choose|k: int| 0 <= k < d.len() && d[k] == rest[i - 1];
                    assert(t[k + 1] == r[i]);
                }
            }
        }
    }
}

/// Nodes are drawn layer by layer: the drawing order is in ascending order of
/// layer and holds every visited node.
pub proof fn law_render_order_by_layer(s: Seq<(usize, NodeID)>)
    ensures
        layers_ascending(by_layer(s)),
        by_layer(s).len() == s.len(),
        by_layer(s).to_multiset() == s.to_multiset(),
    decreases s.len(),
{
    broadcast use vstd::seq_lib::group_to_multiset_ensures;
    if s.len() > 0 {
        law_render_order_by_layer(s.drop_last());
        lemma_insert_keeps_order(by_layer(s.drop_last()), s.last());
        lemma_insert_by_layer_multiset(by_layer(s.drop_last()), s.last());
        assert(s.drop_last().push(s.last()) =~= s);
    }
}

/// Inserting by layer adds exactly the inserted entry.
proof fn lemma_insert_by_layer_multiset(t: Seq<(usize, NodeID)>, x: (usize, NodeID))
    ensures
        insert_by_layer(t, x).to_multiset() == t.to_multiset().insert(x),
    decreases t.len(),
{
    broadcast use vstd::seq_lib::group_to_multiset_ensures;
    broadcast use vstd::multiset::group_multiset_axioms;
    vstd::seq_lib::lemma_multiset_commutative(seq![x], t);
    assert(Seq::<(usize, NodeID)>::empty().push(x) =~= seq![x]);
    if t.len() == 0 {
    } else if t[0].0 > x.0 {
    } else {
        lemma_insert_by_layer_multiset(t.drop_first(), x);
        vstd::seq_lib::lemma_multiset_commutative(seq![t[0]], insert_by_layer(t.drop_first(), x));
        vstd::seq_lib::lemma_multiset_commutative(seq![t[0]], t.drop_first());
        assert(seq![t[0]] + t.drop_first() =~= t);
        assert(Seq::<(usize, NodeID)>::empty().push(t[0]) =~= seq![t[0]]);
    }
}

/// The tree links after one tree action.
pub open spec fn tree_step(links: (Option<NodeID>, Seq<NodeID>), a: NodeTreeAction) -> (Option<NodeID>, Seq<NodeID>) {
    match a {
        NodeTreeAction::AddChild { child } => (links.0, if links.1.contains(child) { links.1 } else { links.1.push(child) }),
        NodeTreeAction::RemoveChild { child } => (links.0, remove_first(links.1, child)),
        NodeTreeAction::SetParent { parent } => (parent, links.1),
    }
}

/// Running the queued tree actions and then one more is running them all.
proof fn lemma_run_tree_push(
    p: Option<NodeID>,
    c: Seq<NodeID>,
    q: Seq<(NodeTreeAction, ActionOrigin)>,
    a: (NodeTreeAction, ActionOrigin),
)
    ensures
        run_tree_actions(p, c, q.push(a)) == tree_step(run_tree_actions(p, c, q), a.0),
    decreases q.len(),
{
    reveal_with_fuel(run_tree_actions, 2);
    if q.len() == 0 {
        assert(q.push(a).drop_first() =~= q);
    } else {
        assert(q.push(a).drop_first() =~= q.drop_first().push(a));
        assert(q.push(a)[0] == q[0]);
        match q[0].0 {
            NodeTreeAction::AddChild { child } => {
                lemma_run_tree_push(p, if c.contains(child) { c } else { c.push(child) }, q.drop_first(), a);
            },
            NodeTreeAction::RemoveChild { child } => {
                lemma_run_tree_push(p, remove_first(c, child), q.drop_first(), a);
            },
            NodeTreeAction::SetParent { parent } => {
                lemma_run_tree_push(parent, c, q.drop_first(), a);
            },
        }
    }
}

/// Removing the first occurrence of `x` from a list without repeats leaves
/// a list without repeats and without `x`, whose elements were in `s`.
proof fn lemma_remove_first_no_dup(s: Seq<NodeID>, x: NodeID)
    requires
        s.no_duplicates(),
    ensures
        remove_first(s, x).no_duplicates(),
        !remove_first(s, x).contains(x),
        forall|y: NodeID| remove_first(s, x).contains(y) ==> s.contains(y),
    decreases s.len(),
{
    if s.len() > 0 {
        let t = s.drop_first();
        assert(t.no_duplicates());
        assert forall|y: NodeID| t.contains(y) implies s.contains(y) && y != s[0] by {
            let k = choose|k: int| 0 <= k < t.len() && t[k] == y;
            assert(s[k + 1] == y);
        }
        if s[0] == x {
        } else {
            lemma_remove_first_no_dup(t, x);
            let r = remove_first(t, x);
            let out = seq![s[0]].add(r);
            assert(out == remove_first(s, x));
            assert forall|y: NodeID| out.contains(y) implies s.contains(y) by {
                let k = choose|k: int| 0 <= k < out.len() && out[k] == y;
                if k > 0 {
                    assert(r[k - 1] == y);
                    assert(r.contains(y));
                } else {
                    assert(s[0] == y);
                }
            }
            assert forall|i: int, j: int| 0 <= i < out.len() && 0 <= j < out.len() && i != j implies out[i] != out[j] by {
                if i > 0 && j > 0 {
                    assert(out[i] == r[i - 1] && out[j] == r[j - 1]);
                } else if i == 0 {
                    assert(out[j] == r[j - 1]);
                    assert(r.contains(out[j]));
                    assert(t.contains(out[j]));
                } else {
                    assert(out[i] == r[i - 1]);
                    assert(r.contains(out[i]));
                    assert(t.contains(out[i]));
                }
            }
            assert(!out.contains(x)) by {
                if out.contains(x) {
                    let k = choose|k: int| 0 <= k < out.len() && out[k] == x;
                    if k > 0 {
                        assert(r[k - 1] == x);
                        assert(r.contains(x));
                    }
                }
            }
        }
    }
}

/// Running tree actions on children without repeats leaves children without
/// repeats.
proof fn lemma_run_tree_no_dup(p: Option<NodeID>, c: Seq<NodeID>, q: Seq<(NodeTreeAction, ActionOrigin)>)
    requires
        c.no_duplicates(),
    ensures
        run_tree_actions(p, c, q).1.no_duplicates(),
    decreases q.len(),
{
    if q.len() > 0 {
        match q[0].0 {
            NodeTreeAction::AddChild { child } => {
                if !c.contains(child) {
                    let d = c.push(child);
                    assert forall|i: int, j: int| 0 <= i < d.len() && 0 <= j < d.len() && i != j implies d[i] != d[j] by {
                        if i == c.len() {
                            assert(d[j] == c[j]);
                        } else if j == c.len() {
                            assert(d[i] == c[i]);
                        }
                    }
                }
                lemma_run_tree_no_dup(p, if c.contains(child) { c } else { c.push(child) }, q.drop_first());
            },
            NodeTreeAction::RemoveChild { child } => {
                lemma_remove_first_no_dup(c, child);
                lemma_run_tree_no_dup(p, remove_first(c, child), q.drop_first());
            },
            NodeTreeAction::SetParent { parent } => {
                lemma_run_tree_no_dup(parent, c, q.drop_first());
            },
        }
    }
}

/// The last queued tree action of a node decides: after a queued child
/// addition the child is among the children, after a queued removal it is
/// not, and after a queued parent change the parent is the one set. (This
/// is how adding a child links both nodes, and removing it unlinks them.)
pub proof fn law_tree_actions_take_effect(
    p: Option<NodeID>,
    c: Seq<NodeID>,
    q: Seq<(NodeTreeAction, ActionOrigin)>,
    x: NodeID,
    par: Option<NodeID>,
    o: ActionOrigin,
)
    requires
        c.no_duplicates(),
    ensures
        run_tree_actions(p, c, q.push((NodeTreeAction::AddChild { child: x }, o))).1.contains(x),
        !run_tree_actions(p, c, q.push((NodeTreeAction::RemoveChild { child: x }, o))).1.contains(x),
        run_tree_actions(p, c, q.push((NodeTreeAction::SetParent { parent: par }, o))).0 == par,
{
    lemma_run_tree_push(p, c, q, (NodeTreeAction::RemoveChild { child: x }, o));
    lemma_run_tree_no_dup(p, c, q);
    lemma_remove_first_no_dup(run_tree_actions(p, c, q).1, x);
    lemma_run_tree_push(p, c, q, (NodeTreeAction::AddChild { child: x }, o));
    lemma_run_tree_push(p, c, q, (NodeTreeAction::SetParent { parent: par }, o));
    let l = run_tree_actions(p, c, q);
    if !l.1.contains(x) {
        assert(l.1.push(x)[l.1.len() as int] == x);
    }
}

/// A style action queued while no wait runs takes effect in the next frame:
/// a color set from code is the color of the node's look afterwards.
pub proof fn law_style_applied_next_frame(v: NodeVisual, c: Color, hovered: bool, active: bool, now: u64)
    requires
        !timer_running(v, now),
    ensures
        style_frame(v, seq![(StyleAction::BGColor { color: c }, ActionOrigin::Code)], hovered, active, now).0
            .current_state().style.color == c,
        style_frame(v, seq![(StyleAction::BGColor { color: c }, ActionOrigin::Code)], hovered, active, now).1.len() == 0,
{
    reveal_with_fuel(run_style_actions, 2);
    let q = seq![(StyleAction::BGColor { color: c }, ActionOrigin::Code)];
    assert(q.drop_first() =~= Seq::<(StyleAction, ActionOrigin)>::empty());
}

/// The position of a node relative to the scene is its own position when it
/// is placed absolutely or has no parent, and otherwise the parent's position
/// relative to the scene plus its own.
pub proof fn law_absolute_position_adds_parent(st: NodeStorage, id: NodeID)
    requires
        absolute_position_defined(st, id),
    ensures
        st.spec_ids().contains(id.0),
        ({
            let t = st.spec_visual()[id.0].current_state().transform;
            match st.spec_tree()[id.0].spec_parent() {
                Some(parent) if !t.position_absolute => {
                    &&& absolute_position_defined(st, parent)
                    &&& absolute_position_of(st, parent) matches Some(pp)
                    &&& position_sum_fits(pp, t.position)
                    &&& absolute_position_of(st, id) == Some(Position { x: (pp.x + t.position.x) as i32, y: (pp.y + t.position.y) as i32 })
                },
                _ => absolute_position_of(st, id) == Some(t.position),
            }
        }),
{
    let f = choose|f: nat| #[trigger] absolute_position(st, id, f) is Some;
    assert(absolute_position(st, id, f) is Some);
    let t = st.spec_visual()[id.0].current_state().transform;
    match st.spec_tree()[id.0].spec_parent() {
        Some(parent) if !t.position_absolute => {
            let h = (f - 1) as nat;
            assert(absolute_position(st, parent, h) is Some);
            let g = choose|g: nat| #[trigger] absolute_position(st, parent, g) is Some;
            if g <= h {
                lemma_absolute_position_fuel(st, parent, g, h);
            } else {
                lemma_absolute_position_fuel(st, parent, h, g);
            }
        },
        _ => {},
    }
}

/// Every node of `s` has a tree component in `m`.
pub open spec fn members_exist(m: Map<u32, crate::scene::tree::NodeTree>, s: Seq<NodeID>) -> bool {
    forall|k: int| 0 <= k < s.len() ==> m.contains_key(#[trigger] s[k].0)
}

/// Node `s[k]` is a child of a node listed before it.
pub open spec fn after_its_parent(m: Map<u32, crate::scene::tree::NodeTree>, s: Seq<NodeID>, k: int) -> bool {
    exists|i: int| 0 <= i < k && #[trigger] m[s[i].0].spec_children().contains(s[k])
}

/// Every child of a node of `s` is in `s`.
pub open spec fn closed_under_children(m: Map<u32, crate::scene::tree::NodeTree>, s: Seq<NodeID>) -> bool {
    forall|k: int, j: int| 0 <= k < s.len() && 0 <= j < m[s[k].0].spec_children().len()
        ==> s.contains(#[trigger] m[s[k].0].spec_children()[j])
}

proof fn lemma_family_closed(m: Map<u32, crate::scene::tree::NodeTree>, id: NodeID, f: nat)
    requires
        family(m, id, f) is Some,
        family(m, id, f)->Some_0 is Ok,
    ensures
        ({
            let s = family(m, id, f)->Some_0->Ok_0;
            &&& s.len() > 0 && s[0] == id
            &&& members_exist(m, s)
            &&& closed_under_children(m, s)
            &&& forall|k: int| 0 < k < s.len() ==> #[trigger] after_its_parent(m, s, k)
        }),
    decreases f, 0nat, 0nat,
{
    let cs = m[id.0].spec_children();
    let t = children_family(m, cs, (f - 1) as nat);
    lemma_children_family_closed(m, cs, (f - 1) as nat);
    let ts = t->Some_0->Ok_0;
    let s = seq![id] + ts;
    assert(family(m, id, f)->Some_0->Ok_0 == s);
    assert forall|k: int| 0 <= k < s.len() implies m.contains_key(#[trigger] s[k].0) by {
        if k > 0 {
            assert(s[k] == ts[k - 1]);
        }
    }
    assert forall|k: int, j: int| 0 <= k < s.len() && 0 <= j < m[s[k].0].spec_children().len()
        implies s.contains(#[trigger] m[s[k].0].spec_children()[j]) by {
        let c = m[s[k].0].spec_children()[j];
        if k == 0 {
            assert(ts.contains(cs[j]));
        } else {
            assert(s[k] == ts[k - 1]);
            assert(ts.contains(m[ts[k - 1].0].spec_children()[j]));
        }
        let i = choose|i: int| 0 <= i < ts.len() && ts[i] == c;
        assert(s[i + 1] == c);
    }
    assert forall|k: int| 0 < k < s.len() implies #[trigger] after_its_parent(m, s, k) by {
        assert(s[k] == ts[k - 1]);
        if cs.contains(ts[k - 1]) {
            assert(s[0] == id);
            assert(m[s[0].0].spec_children().contains(s[k]));
        } else {
            assert(after_its_parent(m, ts, k - 1));
            let i = choose|i: int| 0 <= i < k - 1 && #[trigger] m[ts[i].0].spec_children().contains(ts[k - 1]);
            assert(s[i + 1] == ts[i]);
            assert(m[s[i + 1].0].spec_children().contains(s[k]));
        }
    }
}

proof fn lemma_children_family_closed(m: Map<u32, crate::scene::tree::NodeTree>, cs: Seq<NodeID>, f: nat)
    requires
        children_family(m, cs, f) is Some,
        children_family(m, cs, f)->Some_0 is Ok,
    ensures
        ({
            let s = children_family(m, cs, f)->Some_0->Ok_0;
            &&& members_exist(m, s)
            &&& closed_under_children(m, s)
            &&& forall|j: int| 0 <= j < cs.len() ==> s.contains(#[trigger] cs[j])
            &&& forall|k: int| 0 <= k < s.len() ==> cs.contains(s[k]) || #[trigger] after_its_parent(m, s, k)
        }),
    decreases f, 1nat, cs.len(),
{
    if cs.len() > 0 {
        lemma_family_closed(m, cs[0], f);
        lemma_children_family_closed(m, cs.drop_first(), f);
        let a = family(m, cs[0], f)->Some_0->Ok_0;
        let b = children_family(m, cs.drop_first(), f)->Some_0->Ok_0;
        let s = a + b;
        assert(children_family(m, cs, f)->Some_0->Ok_0 == s);
        assert forall|k: int| 0 <= k < s.len() implies m.contains_key(#[trigger] s[k].0) by {
            if k < a.len() {
                assert(s[k] == a[k]);
            } else {
                assert(s[k] == b[k - a.len()]);
            }
        }
        assert forall|k: int, j: int| 0 <= k < s.len() && 0 <= j < m[s[k].0].spec_children().len()
            implies s.contains(#[trigger] m[s[k].0].spec_children()[j]) by {
            let c = m[s[k].0].spec_children()[j];
            if k < a.len() {
                assert(s[k] == a[k]);
                assert(a.contains(m[a[k].0].spec_children()[j]));
                let i = choose|i: int| 0 <= i < a.len() && a[i] == c;
                assert(s[i] == c);
            } else {
                assert(s[k] == b[k - a.len()]);
                assert(b.contains(m[b[k - a.len()].0].spec_children()[j]));
                let i = choose|i: int| 0 <= i < b.len() && b[i] == c;
                assert(s[i + a.len()] == c);
            }
        }
        assert forall|j: int| 0 <= j < cs.len() implies s.contains(#[trigger] cs[j]) by {
            if j == 0 {
                assert(s[0] == a[0]);
            } else {
                assert(cs[j] == cs.drop_first()[j - 1]);
                assert(b.contains(cs.drop_first()[j - 1]));
                let i = choose|i: int| 0 <= i < b.len() && b[i] == cs[j];
                assert(s[i + a.len()] == cs[j]);
            }
        }
        assert forall|k: int| 0 <= k < s.len() implies cs.contains(s[k]) || #[trigger] after_its_parent(m, s, k) by {
            if k < a.len() {
                assert(s[k] == a[k]);
                if k == 0 {
                    assert(cs[0] == s[0]);
                } else {
                    assert(after_its_parent(m, a, k));
                    let i = choose|i: int| 0 <= i < k && #[trigger] m[a[i].0].spec_children().contains(a[k]);
                    assert(s[i] == a[i]);
                    assert(m[s[i].0].spec_children().contains(s[k]));
                }
            } else {
                let kb = k - a.len();
                assert(s[k] == b[kb]);
                if cs.drop_first().contains(b[kb]) {
                    let j = choose|j: int| 0 <= j < cs.drop_first().len() && cs.drop_first()[j] == b[kb];
                    assert(cs[j + 1] == s[k]);
                } else {
                    assert(after_its_parent(m, b, kb));
                    let i = choose|i: int| 0 <= i < kb && #[trigger] m[b[i].0].spec_children().contains(b[kb]);
                    assert(s[i + a.len()] == b[i]);
                    assert(m[s[i + a.len()].0].spec_children().contains(s[k]));
                }
            }
        }
    }
}

/// The family of a node, where it is found, starts with the node, holds
/// only nodes that have a tree component, holds every child of each of its
/// nodes, and lists every other node after a node it is a child of: the node
/// and all its descendants, each after its parent.
pub proof fn law_family_holds_descendants(m: Map<u32, crate::scene::tree::NodeTree>, id: NodeID, fuel: nat)
    requires
        family(m, id, fuel) matches Some(Ok(_)),
    ensures
        family(m, id, fuel) matches Some(Ok(s)) && s.len() > 0 && s[0] == id && members_exist(m, s)
            && closed_under_children(m, s)
            && forall|k: int| 0 < k < s.len() ==> #[trigger] after_its_parent(m, s, k),
{
    lemma_family_closed(m, id, fuel);
}

/// Node `x` is drawn somewhere in `s`.
pub open spec fn drawn(s: Seq<(usize, NodeID)>, x: NodeID) -> bool {
    exists|i: int| 0 <= i < s.len() && (#[trigger] s[i]).1 == x
}

/// Every node drawn in `s` is stored, and every child of a drawn node is drawn.
pub open spec fn drawn_closed(tree: Map<u32, crate::scene::tree::NodeTree>, s: Seq<(usize, NodeID)>) -> bool {
    &&& forall|k: int| 0 <= k < s.len() ==> tree.contains_key((#[trigger] s[k]).1.0)
    &&& forall|k: int, j: int| 0 <= k < s.len() && 0 <= j < tree[s[k].1.0].spec_children().len()
        ==> drawn(s, #[trigger] tree[s[k].1.0].spec_children()[j])
}

proof fn lemma_drawn_concat(tree: Map<u32, crate::scene::tree::NodeTree>, a: Seq<(usize, NodeID)>, b: Seq<(usize, NodeID)>)
    requires
        drawn_closed(tree, a),
        drawn_closed(tree, b),
    ensures
        drawn_closed(tree, a + b),
        forall|x: NodeID| drawn(a, x) ==> drawn(a + b, x),
        forall|x: NodeID| drawn(b, x) ==> drawn(a + b, x),
{
    let s = a + b;
    assert forall|x: NodeID| drawn(a, x) implies drawn(s, x) by {
        let i = choose|i: int| 0 <= i < a.len() && (#[trigger] a[i]).1 == x;
        assert(s[i] == a[i]);
    }
    assert forall|x: NodeID| drawn(b, x) implies drawn(s, x) by {
        let i = choose|i: int| 0 <= i < b.len() && (#[trigger] b[i]).1 == x;
        assert(s[i + a.len()] == b[i]);
    }
    assert forall|k: int| 0 <= k < s.len() implies tree.contains_key((#[trigger] s[k]).1.0) by {
        if k < a.len() { assert(s[k] == a[k]); } else { assert(s[k] == b[k - a.len()]); }
    }
    assert forall|k: int, j: int| 0 <= k < s.len() && 0 <= j < tree[s[k].1.0].spec_children().len()
        implies drawn(s, #[trigger] tree[s[k].1.0].spec_children()[j]) by {
        if k < a.len() {
            assert(s[k] == a[k]);
            assert(drawn(a, tree[a[k].1.0].spec_children()[j]));
        } else {
            assert(s[k] == b[k - a.len()]);
            assert(drawn(b, tree[b[k - a.len()].1.0].spec_children()[j]));
        }
    }
}

proof fn lemma_visit_drawn(
    tree: Map<u32, crate::scene::tree::NodeTree>,
    visual: Map<u32, NodeVisual>,
    id: NodeID,
    parent_layer: Option<usize>,
    f: nat,
)
    requires
        visit(tree, visual, id, parent_layer, f) is Some,
    ensures
        drawn_closed(tree, visit(tree, visual, id, parent_layer, f)->Some_0),
        drawn(visit(tree, visual, id, parent_layer, f)->Some_0, id),
    decreases f, 0nat, 0nat,
{
    let layer = node_layer(visual, id, parent_layer);
    let cs = tree[id.0].spec_children();
    lemma_visit_children_drawn(tree, visual, cs, layer, (f - 1) as nat);
    let t = visit_children(tree, visual, cs, layer, (f - 1) as nat)->Some_0;
    let s = seq![(layer, id)] + t;
    assert(visit(tree, visual, id, parent_layer, f)->Some_0 == s);
    assert forall|k: int| 0 <= k < s.len() implies tree.contains_key((#[trigger] s[k]).1.0) by {
        if k > 0 { assert(s[k] == t[k - 1]); }
    }
    assert forall|k: int, j: int| 0 <= k < s.len() && 0 <= j < tree[s[k].1.0].spec_children().len()
        implies drawn(s, #[trigger] tree[s[k].1.0].spec_children()[j]) by {
        let c = tree[s[k].1.0].spec_children()[j];
        if k == 0 {
            assert(c == cs[j]);
            assert(drawn(t, cs[j]));
        } else {
            assert(s[k] == t[k - 1]);
            assert(drawn(t, tree[t[k - 1].1.0].spec_children()[j]));
        }
        let i = choose|i: int| 0 <= i < t.len() && (#[trigger] t[i]).1 == c;
        assert(s[i + 1] == t[i]);
    }
    assert(s[0] == (layer, id));
}

proof fn lemma_visit_children_drawn(
    tree: Map<u32, crate::scene::tree::NodeTree>,
    visual: Map<u32, NodeVisual>,
    cs: Seq<NodeID>,
    layer: usize,
    f: nat,
)
    requires
        visit_children(tree, visual, cs, layer, f) is Some,
    ensures
        drawn_closed(tree, visit_children(tree, visual, cs, layer, f)->Some_0),
        forall|j: int| 0 <= j < cs.len() ==> drawn(visit_children(tree, visual, cs, layer, f)->Some_0, #[trigger] cs[j]),
    decreases f, 1nat, cs.len(),
{
    if cs.len() > 0 {
        lemma_visit_drawn(tree, visual, cs[0], Some(layer), f);
        lemma_visit_children_drawn(tree, visual, cs.drop_first(), layer, f);
        let a = visit(tree, visual, cs[0], Some(layer), f)->Some_0;
        let b = visit_children(tree, visual, cs.drop_first(), layer, f)->Some_0;
        lemma_drawn_concat(tree, a, b);
        assert forall|j: int| 0 <= j < cs.len() implies drawn(a + b, #[trigger] cs[j]) by {
            if j > 0 {
                assert(cs[j] == cs.drop_first()[j - 1]);
                assert(drawn(b, cs.drop_first()[j - 1]));
            }
        }
    }
}

/// The walk from the roots draws only stored nodes, every root among `ids`,
/// and every child of a node it draws: every node that descends from a root.
/// (A node that is the child of two drawn nodes is drawn for each.)
pub proof fn law_render_draws_descendants(
    tree: Map<u32, crate::scene::tree::NodeTree>,
    visual: Map<u32, NodeVisual>,
    ids: Seq<NodeID>,
    f: nat,
)
    requires
        visit_roots(tree, visual, ids, f) is Some,
    ensures
        drawn_closed(tree, visit_roots(tree, visual, ids, f)->Some_0),
        forall|j: int| 0 <= j < ids.len() && tree.contains_key(ids[j].0) && tree[ids[j].0].spec_parent() is None
            ==> drawn(visit_roots(tree, visual, ids, f)->Some_0, #[trigger] ids[j]),
    decreases ids.len(),
{
    if ids.len() > 0 {
        let id = ids.last();
        let prev_ids = ids.drop_last();
        law_render_draws_descendants(tree, visual, prev_ids, f);
        let a = visit_roots(tree, visual, prev_ids, f)->Some_0;
        if tree.contains_key(id.0) && tree[id.0].spec_parent() is None {
            let layer = visual[id.0].current_state().transform.layer;
            lemma_visit_drawn(tree, visual, id, layer, f);
            let b = visit(tree, visual, id, layer, f)->Some_0;
            lemma_drawn_concat(tree, a, b);
        }
        let s = visit_roots(tree, visual, ids, f)->Some_0;
        assert forall|j: int| 0 <= j < ids.len() && tree.contains_key(ids[j].0) && tree[ids[j].0].spec_parent() is None
            implies drawn(s, #[trigger] ids[j]) by {
            if j < ids.len() - 1 {
                assert(ids[j] == prev_ids[j]);
                assert(drawn(a, prev_ids[j]));
            }
        }
    }
}

/// The keys of the entries of `s` are pairwise different.
pub open spec fn keys_distinct<A>(s: Seq<A>, key: spec_fn(A) -> CallbackID) -> bool {
    forall|i: int, j: int| 0 <= i < j < s.len() ==> key(#[trigger] s[i]) != key(#[trigger] s[j])
}

/// The keys of the entries of `s` are below `n`.
pub open spec fn keys_below<A>(s: Seq<A>, key: spec_fn(A) -> CallbackID, n: u32) -> bool {
    forall|i: int| 0 <= i < s.len() ==> key(#[trigger] s[i]).0 < n
}

/// The key of a node listener entry.
pub open spec fn node_key() -> spec_fn((CallbackID, NodeID, EventType)) -> CallbackID {
    |e: (CallbackID, NodeID, EventType)| e.0
}

/// The key of a scene listener entry.
pub open spec fn scene_key() -> spec_fn((CallbackID, EventType)) -> CallbackID {
    |e: (CallbackID, EventType)| e.0
}

/// Every identifier in the registry was handed out before the counter
/// reached its value, each listener list and lookup holds an identifier at
/// most once, and no identifier is both a node and a scene listener.
pub open spec fn registry_ids_fresh(r: RegistryView) -> bool {
    &&& keys_below(r.node_listeners, node_key(), r.next)
    &&& keys_below(r.node_lookup, node_key(), r.next)
    &&& keys_below(r.scene_listeners, scene_key(), r.next)
    &&& keys_below(r.scene_lookup, scene_key(), r.next)
    &&& keys_distinct(r.node_listeners, node_key())
    &&& keys_distinct(r.node_lookup, node_key())
    &&& keys_distinct(r.scene_listeners, scene_key())
    &&& keys_distinct(r.scene_lookup, scene_key())
    &&& forall|i: int, j: int| 0 <= i < r.node_lookup.len() && 0 <= j < r.scene_lookup.len()
        ==> (#[trigger] r.node_lookup[i]).0 != (#[trigger] r.scene_lookup[j]).0
}

proof fn lemma_filter_keys<A>(s: Seq<A>, p: spec_fn(A) -> bool, key: spec_fn(A) -> CallbackID, n: u32)
    requires
        keys_distinct(s, key),
        keys_below(s, key, n),
    ensures
        keys_distinct(s.filter(p), key),
        keys_below(s.filter(p), key, n),
        forall|x: A| s.filter(p).contains(x) ==> s.contains(x),
    decreases s.len(),
{
    reveal(Seq::filter);
    if s.len() > 0 {
        let d = s.drop_last();
        assert forall|i: int, j: int| 0 <= i < j < d.len() implies key(#[trigger] d[i]) != key(#[trigger] d[j]) by {
            assert(d[i] == s[i] && d[j] == s[j]);
        }
        assert forall|i: int| 0 <= i < d.len() implies key(#[trigger] d[i]).0 < n by {
            assert(d[i] == s[i]);
        }
        lemma_filter_keys(d, p, key, n);
        let f = d.filter(p);
        assert forall|x: A| s.filter(p).contains(x) implies s.contains(x) by {
            let k = choose|k: int| 0 <= k < s.filter(p).len() && s.filter(p)[k] == x;
            if p(s.last()) && k == f.len() {
                assert(s[s.len() - 1] == x);
            } else {
                assert(s.filter(p)[k] == f[k]);
                assert(f.contains(x));
                assert(d.contains(x));
                let m = choose|m: int| 0 <= m < d.len() && d[m] == x;
                assert(s[m] == x);
            }
        }
        if p(s.last()) {
            let g = f.push(s.last());
            assert(s.filter(p) == g);
            assert forall|i: int, j: int| 0 <= i < j < g.len() implies key(#[trigger] g[i]) != key(#[trigger] g[j]) by {
                if j == f.len() {
                    assert(g[i] == f[i]);
                    assert(f.contains(f[i]));
                    assert(d.contains(f[i]));
                    let m = choose|m: int| 0 <= m < d.len() && d[m] == f[i];
                    assert(d[m] == s[m]);
                    assert(g[j] == s[s.len() - 1]);
                    assert(key(s[m]) != key(s[s.len() - 1]));
                } else {
                    assert(g[i] == f[i] && g[j] == f[j]);
                }
            }
            assert forall|i: int| 0 <= i < g.len() implies key(#[trigger] g[i]).0 < n by {
                if i < f.len() {
                    assert(g[i] == f[i]);
                } else {
                    assert(g[i] == s[s.len() - 1]);
                }
            }
        }
    }
}

proof fn lemma_push_key<A>(s: Seq<A>, x: A, key: spec_fn(A) -> CallbackID, n: u32)
    requires
        keys_distinct(s, key),
        keys_below(s, key, n),
        key(x).0 == n,
        n < u32::MAX,
    ensures
        keys_distinct(s.push(x), key),
        keys_below(s.push(x), key, (n + 1) as u32),
{
    let g = s.push(x);
    assert forall|i: int, j: int| 0 <= i < j < g.len() implies key(#[trigger] g[i]) != key(#[trigger] g[j]) by {
        assert(g[i] == s[i]);
        if j < s.len() {
            assert(g[j] == s[j]);
        }
    }
    assert forall|i: int| 0 <= i < g.len() implies key(#[trigger] g[i]).0 < n + 1 by {
        if i < s.len() {
            assert(g[i] == s[i]);
        }
    }
}

proof fn lemma_keys_below_more<A>(s: Seq<A>, key: spec_fn(A) -> CallbackID, n: u32, m: u32)
    requires
        keys_below(s, key, n),
        n <= m,
    ensures
        keys_below(s, key, m),
{
}

/// Registering a listener keeps the identifiers fresh as long as the
/// counter has not reached its largest value (where it wraps around to 0
/// and identifiers are handed out again).
pub proof fn law_registry_ids_fresh_add(r: RegistryView, node: NodeID, event_type: EventType)
    requires
        registry_ids_fresh(r),
        r.next < u32::MAX,
    ensures
        registry_ids_fresh(registry_add_node(r, node, event_type)),
        registry_ids_fresh(registry_add_scene(r, event_type)),
{
    let id = EventCallbackID(r.next);
    let n1 = (r.next + 1) as u32;
    lemma_push_key(r.node_listeners, (id, node, event_type), node_key(), r.next);
    lemma_push_key(r.node_lookup, (id, node, event_type), node_key(), r.next);
    lemma_keys_below_more(r.scene_listeners, scene_key(), r.next, n1);
    lemma_keys_below_more(r.scene_lookup, scene_key(), r.next, n1);
    let a = registry_add_node(r, node, event_type);
    assert forall|i: int, j: int| 0 <= i < a.node_lookup.len() && 0 <= j < a.scene_lookup.len()
        implies (#[trigger] a.node_lookup[i]).0 != (#[trigger] a.scene_lookup[j]).0 by {
        assert(a.scene_lookup[j] == r.scene_lookup[j]);
        assert(scene_key()(r.scene_lookup[j]).0 < r.next);
        if i < r.node_lookup.len() {
            assert(a.node_lookup[i] == r.node_lookup[i]);
        }
    }
    lemma_push_key(r.scene_listeners, (id, event_type), scene_key(), r.next);
    lemma_push_key(r.scene_lookup, (id, event_type), scene_key(), r.next);
    lemma_keys_below_more(r.node_listeners, node_key(), r.next, n1);
    lemma_keys_below_more(r.node_lookup, node_key(), r.next, n1);
    let b = registry_add_scene(r, event_type);
    assert forall|i: int, j: int| 0 <= i < b.node_lookup.len() && 0 <= j < b.scene_lookup.len()
        implies (#[trigger] b.node_lookup[i]).0 != (#[trigger] b.scene_lookup[j]).0 by {
        assert(b.node_lookup[i] == r.node_lookup[i]);
        assert(node_key()(r.node_lookup[i]).0 < r.next);
        if j < r.scene_lookup.len() {
            assert(b.scene_lookup[j] == r.scene_lookup[j]);
        }
    }
}

/// Removing a listener, or every listener of a node, keeps the identifiers
/// fresh.
pub proof fn law_registry_ids_fresh_remove(r: RegistryView, target: CallbackID, node: NodeID)
    requires
        registry_ids_fresh(r),
    ensures
        registry_ids_fresh(registry_remove(r, target)),
        registry_ids_fresh(registry_clear(r, node)),
{
    lemma_filter_keys(r.node_listeners, other_node_callback(target), node_key(), r.next);
    lemma_filter_keys(r.node_lookup, other_node_callback(target), node_key(), r.next);
    lemma_filter_keys(r.scene_listeners, other_scene_callback(target), scene_key(), r.next);
    lemma_filter_keys(r.scene_lookup, other_scene_callback(target), scene_key(), r.next);
    lemma_filter_keys(r.node_listeners, crate::event::event_manager::other_node_listener(node), node_key(), r.next);
    let a = registry_remove(r, target);
    assert forall|i: int, j: int| 0 <= i < a.node_lookup.len() && 0 <= j < a.scene_lookup.len()
        implies (#[trigger] a.node_lookup[i]).0 != (#[trigger] a.scene_lookup[j]).0 by {
        assert(a.node_lookup.contains(a.node_lookup[i]));
        assert(a.scene_lookup.contains(a.scene_lookup[j]));
        assert(r.node_lookup.contains(a.node_lookup[i]));
        assert(r.scene_lookup.contains(a.scene_lookup[j]));
        let p = choose|p: int| 0 <= p < r.node_lookup.len() && r.node_lookup[p] == a.node_lookup[i];
        let q = choose|q: int| 0 <= q < r.scene_lookup.len() && r.scene_lookup[q] == a.scene_lookup[j];
        assert(r.node_lookup[p].0 != r.scene_lookup[q].0);
    }
}

/// With fresh identifiers, removing the identifier of a scene listener
/// removes exactly that listener: every other scene listener stays, in
/// order, and the node listeners stay as they were.
pub proof fn law_remove_scene_listener_exact(r: RegistryView, target: CallbackID)
    requires
        registry_ids_fresh(r),
        scene_lookup_has(r.scene_lookup, target),
    ensures
        ({
            let after = registry_remove(r, target);
            &&& after.scene_listeners == r.scene_listeners.filter(other_scene_callback(target))
            &&& forall|i: int| 0 <= i < after.scene_listeners.len() ==> (#[trigger] after.scene_listeners[i]).0 != target
            &&& after.scene_listeners.len() + 1 >= r.scene_listeners.len()
            &&& after.node_listeners == r.node_listeners
            &&& after.node_lookup == r.node_lookup
        }),
{
    assert(!node_lookup_has(r.node_lookup, target)) by {
        if node_lookup_has(r.node_lookup, target) {
            let i = choose|i: int| 0 <= i < r.node_lookup.len() && (#[trigger] r.node_lookup[i]).0 == target;
            let j = choose|j: int| 0 <= j < r.scene_lookup.len() && (#[trigger] r.scene_lookup[j]).0 == target;
            assert(r.node_lookup[i].0 != r.scene_lookup[j].0);
        }
    }
    let f = r.scene_listeners.filter(other_scene_callback(target));
    assert forall|i: int| 0 <= i < f.len() implies (#[trigger] f[i]).0 != target by {
        r.scene_listeners.lemma_filter_pred(other_scene_callback(target), i);
    }
    lemma_filter_len_at_most_one(r.scene_listeners, target);
}

/// Filtering out one identifier from a list that holds it at most once
/// drops at most one entry.
proof fn lemma_filter_len_at_most_one(s: Seq<(CallbackID, EventType)>, t: CallbackID)
    requires
        keys_distinct(s, scene_key()),
    ensures
        s.filter(other_scene_callback(t)).len() + 1 >= s.len(),
        (forall|i: int| 0 <= i < s.len() ==> (#[trigger] s[i]).0 != t) ==> s.filter(other_scene_callback(t)).len() == s.len(),
    decreases s.len(),
{
    reveal(Seq::filter);
    if s.len() > 0 {
        let d = s.drop_last();
        assert forall|i: int, j: int| 0 <= i < j < d.len() implies scene_key()(#[trigger] d[i]) != scene_key()(#[trigger] d[j]) by {
            assert(d[i] == s[i] && d[j] == s[j]);
        }
        lemma_filter_len_at_most_one(d, t);
        if s.last().0 == t {
            assert forall|i: int| 0 <= i < d.len() implies (#[trigger] d[i]).0 != t by {
                assert(d[i] == s[i]);
                assert(scene_key()(s[i]) != scene_key()(s[s.len() - 1]));
            }
        } else {
            assert((forall|i: int| 0 <= i < s.len() ==> (#[trigger] s[i]).0 != t) ==> (forall|i: int| 0 <= i < d.len() ==> (#[trigger] d[i]).0 != t)) by {
                assert forall|i: int| 0 <= i < d.len() implies d[i] == s[i] by {}
            }
        }
    }
}

/// Removing the first occurrence of `y` keeps every other value.
proof fn lemma_remove_first_keeps(s: Seq<NodeID>, y: NodeID, x: NodeID)
    requires
        s.contains(x),
        x != y,
    ensures
        remove_first(s, y).contains(x),
    decreases s.len(),
{
    if s[0] == x {
        if s[0] != y {
            assert(remove_first(s, y)[0] == x);
        }
    } else {
        let k = choose|k: int| 0 <= k < s.len() && s[k] == x;
        assert(s.drop_first()[k - 1] == x);
        if s[0] == y {
            assert(remove_first(s, y) == s.drop_first());
        } else {
            lemma_remove_first_keeps(s.drop_first(), y, x);
            let r = remove_first(s.drop_first(), y);
            let j = choose|j: int| 0 <= j < r.len() && r[j] == x;
            assert((seq![s[0]] + r)[j + 1] == x);
        }
    }
}

/// Whether `x` is a child after the tree actions `ops`, started from the
/// children `c0`: decided by the last action that adds or removes `x`, and
/// by `c0` when there is none.
pub open spec fn child_present_after(ops: Seq<(NodeTreeAction, ActionOrigin)>, c0: Seq<NodeID>, x: NodeID) -> bool
    decreases ops.len(),
{
    if ops.len() == 0 {
        c0.contains(x)
    } else {
        match ops.last().0 {
            NodeTreeAction::AddChild { child } => if child == x { true } else { child_present_after(ops.drop_last(), c0, x) },
            NodeTreeAction::RemoveChild { child } => if child == x { false } else { child_present_after(ops.drop_last(), c0, x) },
            NodeTreeAction::SetParent { .. } => child_present_after(ops.drop_last(), c0, x),
        }
    }
}

/// Over any history of tree actions on a node whose children hold no
/// repeats, the children still hold no repeats, and a node is a child
/// exactly when the last action that added or removed it added it (or, with
/// no such action, when it was a child at the start).
pub proof fn law_tree_history(p: Option<NodeID>, c0: Seq<NodeID>, ops: Seq<(NodeTreeAction, ActionOrigin)>, x: NodeID)
    requires
        c0.no_duplicates(),
    ensures
        run_tree_actions(p, c0, ops).1.no_duplicates(),
        run_tree_actions(p, c0, ops).1.contains(x) == child_present_after(ops, c0, x),
    decreases ops.len(),
{
    lemma_run_tree_no_dup(p, c0, ops);
    if ops.len() > 0 {
        let d = ops.drop_last();
        let a = ops.last();
        law_tree_history(p, c0, d, x);
        lemma_run_tree_push(p, c0, d, a);
        assert(d.push(a) == ops);
        let l = run_tree_actions(p, c0, d);
        lemma_run_tree_no_dup(p, c0, d);
        match a.0 {
            NodeTreeAction::AddChild { child } => {
                if !l.1.contains(child) {
                    assert(l.1.push(child)[l.1.len() as int] == child);
                    if l.1.contains(x) {
                        let k = choose|k: int| 0 <= k < l.1.len() && l.1[k] == x;
                        assert(l.1.push(child)[k] == x);
                    }
                    if l.1.push(child).contains(x) && x != child {
                        let k = choose|k: int| 0 <= k < l.1.push(child).len() && l.1.push(child)[k] == x;
                        assert(l.1[k] == x);
                    }
                }
            },
            NodeTreeAction::RemoveChild { child } => {
                lemma_remove_first_no_dup(l.1, child);
                if x != child && l.1.contains(x) {
                    lemma_remove_first_keeps(l.1, child, x);
                }
            },
            NodeTreeAction::SetParent { .. } => {},
        }
    }
}

/// Pushing entries one after the other onto a queue leaves them at its back
/// in the order they were pushed: what a queue of events or of pending nodes
/// hands out after a history of pushes.
pub proof fn law_pushes_in_order<A>(q: Seq<A>, es: Seq<A>)
    ensures
        es.fold_left(q, |acc: Seq<A>, e: A| acc.push(e)) == q + es,
    decreases es.len(),
{
    if es.len() > 0 {
        law_pushes_in_order(q, es.drop_last());
        assert((q + es.drop_last()).push(es.last()) =~= q + es);
    } else {
        assert(q + es =~= q);
    }
}

/// Style actions of a hover or active style callback, run while the node is
/// drawn in its hover look and not active, keep it in its hover look and
/// leave its normal look as it was.
proof fn lemma_visual_run_in_hover(
    v: NodeVisual,
    q: Seq<(StyleAction, ActionOrigin)>,
    now: u64,
)
    requires
        v.current == CurrentVisualState::Hover,
        forall|i: int| 0 <= i < q.len() ==> (#[trigger] q[i]).1 == ActionOrigin::Visual,
    ensures
        run_style_actions(v, q, true, false, now).0.current == CurrentVisualState::Hover,
        run_style_actions(v, q, true, false, now).0.normal == v.normal,
    decreases q.len(),
{
    if q.len() > 0 {
        let v1 = crate::scene::scene::enter_origin(v, q[0].1, true, false);
        assert(v1 == v);
        match q[0].0 {
            StyleAction::Wait { .. } => {},
            a => {
                let v2 = crate::scene::scene::apply_style_action(v1, a);
                assert(v2.current == CurrentVisualState::Hover && v2.normal == v.normal);
                let t = q.drop_first();
                assert forall|i: int| 0 <= i < t.len() implies (#[trigger] t[i]).1 == ActionOrigin::Visual by {
                    assert(t[i] == q[i + 1]);
                }
                lemma_visual_run_in_hover(v2, t, now);
            },
        }
    }
}

/// A frame that runs the style actions of a hover style callback on a node
/// that is hovered and not pressed draws the node in its hover look and
/// leaves its normal look untouched; so once the pointer has left, the next
/// frame draws the node in its normal look, as it was before the hover.
pub proof fn law_hover_style_keeps_normal_look(
    v: NodeVisual,
    q: Seq<(StyleAction, ActionOrigin)>,
    now: u64,
    later: u64,
)
    requires
        !(v.current_state().style.timer is Some && v.current_state().style.timer_start is Some),
        q.len() > 0,
        forall|i: int| 0 <= i < q.len() ==> (#[trigger] q[i]).1 == ActionOrigin::Visual,
    ensures
        style_frame(v, q, true, false, now).0.normal == v.normal,
        style_frame(v, q, true, false, now).0.current == CurrentVisualState::Hover,
        ({
            let w = style_frame(v, q, true, false, now).0;
            !(w.current_state().style.timer is Some && w.current_state().style.timer_start is Some) ==> {
                &&& style_frame(w, Seq::empty(), false, false, later).0.current == CurrentVisualState::Normal
                &&& style_frame(w, Seq::empty(), false, false, later).0.normal == v.normal
            }
        }),
{
    let v1 = crate::scene::scene::with_current(v, CurrentVisualState::Normal);
    let h = crate::scene::scene::enter_origin(v1, ActionOrigin::Visual, true, false);
    assert(h.current == CurrentVisualState::Hover && h.normal == v.normal);
    if q.len() > 0 {
        assert(crate::scene::scene::enter_origin(v1, q[0].1, true, false) == h);
        match q[0].0 {
            StyleAction::Wait { .. } => {},
            a => {
                let v2 = crate::scene::scene::apply_style_action(h, a);
                assert(v2.current == CurrentVisualState::Hover && v2.normal == v.normal);
                let t = q.drop_first();
                assert forall|i: int| 0 <= i < t.len() implies (#[trigger] t[i]).1 == ActionOrigin::Visual by {
                    assert(t[i] == q[i + 1]);
                }
                lemma_visual_run_in_hover(v2, t, now);
            },
        }
    }
    let w = style_frame(v, q, true, false, later).0;
    reveal_with_fuel(run_style_actions, 1);
}

/// Every entry that the walk from `id` gives for a node with a layer of its
/// own carries that layer.
proof fn lemma_visit_own_layer(
    tree: Map<u32, crate::scene::tree::NodeTree>,
    visual: Map<u32, NodeVisual>,
    id: NodeID,
    parent_layer: Option<usize>,
    f: nat,
)
    requires
        visit(tree, visual, id, parent_layer, f) is Some,
    ensures
        forall|k: int| 0 <= k < visit(tree, visual, id, parent_layer, f)->Some_0.len() ==> {
            let e = #[trigger] visit(tree, visual, id, parent_layer, f)->Some_0[k];
            visual[e.1.0].current_state().transform.layer matches Some(l) ==> e.0 == l
        },
    decreases f, 0nat, 0nat,
{
    let layer = node_layer(visual, id, parent_layer);
    let cs = tree[id.0].spec_children();
    lemma_visit_children_own_layer(tree, visual, cs, layer, (f - 1) as nat);
    let t = visit_children(tree, visual, cs, layer, (f - 1) as nat)->Some_0;
    let s = seq![(layer, id)] + t;
    assert forall|k: int| 0 <= k < s.len() implies ({
        let e = #[trigger] s[k];
        visual[e.1.0].current_state().transform.layer matches Some(l) ==> e.0 == l
    }) by {
        if k > 0 {
            assert(s[k] == t[k - 1]);
        }
    }
}

proof fn lemma_visit_children_own_layer(
    tree: Map<u32, crate::scene::tree::NodeTree>,
    visual: Map<u32, NodeVisual>,
    cs: Seq<NodeID>,
    layer: usize,
    f: nat,
)
    requires
        visit_children(tree, visual, cs, layer, f) is Some,
    ensures
        forall|k: int| 0 <= k < visit_children(tree, visual, cs, layer, f)->Some_0.len() ==> {
            let e = #[trigger] visit_children(tree, visual, cs, layer, f)->Some_0[k];
            visual[e.1.0].current_state().transform.layer matches Some(l) ==> e.0 == l
        },
    decreases f, 1nat, cs.len(),
{
    if cs.len() > 0 {
        lemma_visit_own_layer(tree, visual, cs[0], Some(layer), f);
        lemma_visit_children_own_layer(tree, visual, cs.drop_first(), layer, f);
        let a = visit(tree, visual, cs[0], Some(layer), f)->Some_0;
        let b = visit_children(tree, visual, cs.drop_first(), layer, f)->Some_0;
        let s = a + b;
        assert forall|k: int| 0 <= k < s.len() implies ({
            let e = #[trigger] s[k];
            visual[e.1.0].current_state().transform.layer matches Some(l) ==> e.0 == l
        }) by {
            if k < a.len() {
                assert(s[k] == a[k]);
            } else {
                assert(s[k] == b[k - a.len()]);
            }
        }
    }
}

/// A node drawn with a layer of its own is drawn in that layer, whatever
/// the layer of its parent: every entry of the walk from the roots, and so
/// of the drawing order built from it, that names a node with its own layer
/// `l` carries `l`.
pub proof fn law_render_own_layer(
    tree: Map<u32, crate::scene::tree::NodeTree>,
    visual: Map<u32, NodeVisual>,
    ids: Seq<NodeID>,
    f: nat,
)
    requires
        visit_roots(tree, visual, ids, f) is Some,
    ensures
        forall|k: int| 0 <= k < visit_roots(tree, visual, ids, f)->Some_0.len() ==> {
            let e = #[trigger] visit_roots(tree, visual, ids, f)->Some_0[k];
            visual[e.1.0].current_state().transform.layer matches Some(l) ==> e.0 == l
        },
        forall|k: int| 0 <= k < by_layer(visit_roots(tree, visual, ids, f)->Some_0).len() ==> {
            let e = #[trigger] by_layer(visit_roots(tree, visual, ids, f)->Some_0)[k];
            visual[e.1.0].current_state().transform.layer matches Some(l) ==> e.0 == l
        },
    decreases ids.len(),
{
    let s = visit_roots(tree, visual, ids, f)->Some_0;
    if ids.len() > 0 {
        let id = ids.last();
        let prev_ids = ids.drop_last();
        law_render_own_layer(tree, visual, prev_ids, f);
        let a = visit_roots(tree, visual, prev_ids, f)->Some_0;
        if tree.contains_key(id.0) && tree[id.0].spec_parent() is None {
            let layer = visual[id.0].current_state().transform.layer;
            lemma_visit_own_layer(tree, visual, id, layer, f);
            let b = visit(tree, visual, id, layer, f)->Some_0;
            assert(s == a + b);
            assert forall|k: int| 0 <= k < s.len() implies ({
                let e = #[trigger] s[k];
                visual[e.1.0].current_state().transform.layer matches Some(l) ==> e.0 == l
            }) by {
                if k < a.len() {
                    assert(s[k] == a[k]);
                } else {
                    assert(s[k] == b[k - a.len()]);
                }
            }
        }
    }
    let o = by_layer(s);
    law_render_order_by_layer(s);
    assert forall|k: int| 0 <= k < o.len() implies ({
        let e = #[trigger] o[k];
        visual[e.1.0].current_state().transform.layer matches Some(l) ==> e.0 == l
    }) by {
        broadcast use vstd::seq_lib::group_to_multiset_ensures;
        assert(o.contains(o[k]));
        assert(o.to_multiset().count(o[k]) > 0);
        assert(s.to_multiset().count(o[k]) > 0);
        assert(s.contains(o[k]));
        let j = choose|j: int| 0 <= j < s.len() && s[j] == o[k];
        assert(s[j] == o[k]);
    }
}

/// Carrying out a listener's request to remove `child` from `parent`, both
/// existing and different, queues the removal on the parent and the
/// unsetting of the parent on the child, after what they had queued; once a
/// frame has run those queues, `child` is no child of `parent` and has no
/// parent.
pub proof fn law_context_remove_child(
    ids: Set<u32>,
    tree: Map<u32, crate::scene::tree::NodeTree>,
    o: crate::event::context::ContextOutcome,
    parent: NodeID,
    child: NodeID,
    pp: Option<NodeID>,
    pc: Seq<NodeID>,
    cp: Option<NodeID>,
    cc: Seq<NodeID>,
)
    requires
        ids.contains(parent.0),
        ids.contains(child.0),
        parent != child,
        pc.no_duplicates(),
    ensures
        ({
            let r = crate::event::context::run_context_actions(ids, tree, o,
                seq![crate::event::context::ContextAction::RemoveChild { parent, child }]);
            &&& r.error == o.error
            &&& r.tree_queues[parent.0] == o.tree_queues[parent.0].push((NodeTreeAction::RemoveChild { child }, ActionOrigin::Event))
            &&& r.tree_queues[child.0] == o.tree_queues[child.0].push((NodeTreeAction::SetParent { parent: None }, ActionOrigin::Event))
            &&& forall|k: u32| k != parent.0 && k != child.0 && #[trigger] o.tree_queues.contains_key(k)
                ==> r.tree_queues[k] == o.tree_queues[k]
            &&& !run_tree_actions(pp, pc, r.tree_queues[parent.0]).1.contains(child)
            &&& run_tree_actions(cp, cc, r.tree_queues[child.0]).0 is None
        }),
{
    let acts = seq![crate::event::context::ContextAction::RemoveChild { parent, child }];
    assert(acts.drop_first() =~= Seq::<crate::event::context::ContextAction>::empty());
    reveal_with_fuel(crate::event::context::run_context_actions, 2);
    law_tree_actions_take_effect(pp, pc, o.tree_queues[parent.0], child, None, ActionOrigin::Event);
    lemma_run_tree_push(cp, cc, o.tree_queues[child.0], (NodeTreeAction::SetParent { parent: None }, ActionOrigin::Event));
}

/// Releasing a button forgets it: afterwards it is neither pressed nor
/// dragged. So after a press and a release of the same button, with no
/// other button held, a motion of the pointer gives only the move, and no
/// drag starts.
pub proof fn law_release_forgets_button(
    m0: crate::event::mouse_manager::MouseManager,
    m1: crate::event::mouse_manager::MouseManager,
    m2: crate::event::mouse_manager::MouseManager,
    m3: crate::event::mouse_manager::MouseManager,
    b: crate::event::types::MouseButton,
    x0: i32, y0: i32, x1: i32, y1: i32, x2: i32, y2: i32,
)
    requires
        crate::event::mouse_manager::mouse_step(m0, m1, crate::event::mouse_manager::MouseInput::ButtonDown { button: b, x: x0, y: y0 }),
        crate::event::mouse_manager::mouse_step(m1, m2, crate::event::mouse_manager::MouseInput::ButtonUp { button: b, x: x1, y: y1 }),
        crate::event::mouse_manager::mouse_step(m2, m3, crate::event::mouse_manager::MouseInput::Motion { x: x2, y: y2 }),
        m0.spec_downs().len() == 0,
    ensures
        !crate::event::mouse_manager::has_button(m2.spec_downs(), b),
        !m2.spec_dragging().contains(b),
        m2.spec_downs().len() == 0,
        m3.spec_queue() == m2.spec_queue().push(MouseEvent::MouseMove { x: x2, y: y2 }),
{
    let d1 = m1.spec_downs();
    let p = crate::event::mouse_manager::other_down(b);
    assert(d1 =~= seq![(b, Position { x: x0, y: y0 })]) by {
        assert(!crate::event::mouse_manager::has_button(m0.spec_downs(), b));
        assert(m0.spec_downs().push((b, Position { x: x0, y: y0 })) =~= seq![(b, Position { x: x0, y: y0 })]);
    }
    reveal(Seq::filter);
    assert(d1.drop_last() =~= Seq::<(crate::event::types::MouseButton, Position)>::empty());
    assert(d1.drop_last().filter(p) =~= Seq::<(crate::event::types::MouseButton, Position)>::empty());
    assert(!p(d1.last()));
    assert(d1.filter(p) =~= Seq::<(crate::event::types::MouseButton, Position)>::empty());
    assert(m2.spec_downs().len() == 0);
    let dr = m1.spec_dragging().filter(crate::event::mouse_manager::other_button(b));
    if dr.contains(b) {
        let k = choose|k: int| 0 <= k < dr.len() && dr[k] == b;
        m1.spec_dragging().lemma_filter_pred(crate::event::mouse_manager::other_button(b), k);
    }
    assert(m2.spec_queue().push(MouseEvent::MouseMove { x: x2, y: y2 }) + Seq::<MouseEvent>::empty()
        =~= m2.spec_queue().push(MouseEvent::MouseMove { x: x2, y: y2 }));
}

/// A close request that follows the announcement of a cancelled close is
/// announced in the next build: cancelling forgets that a close was
/// announced.
pub proof fn law_close_after_cancel_is_announced(
    close_request: Option<crate::event::event_manager::CloseRequest>,
    close_dispatched: bool,
    quitting: bool,
    quit_dispatched: bool,
    next: crate::event::event_manager::CloseRequest,
)
    requires
        !(!close_dispatched && close_request is Some),
    ensures
        ({
            let c1 = control_events(close_request, close_dispatched, true, quitting, quit_dispatched);
            let c2 = control_events(Some(next), c1.2, c1.3, quitting, c1.4);
            &&& c1.0.contains(Event::CancelAppCloseRequest)
            &&& !c1.2
            &&& c2.0.contains(Event::AppCloseRequest)
        }),
{
    let c1 = control_events(close_request, close_dispatched, true, quitting, quit_dispatched);
    let c2 = control_events(Some(next), c1.2, c1.3, quitting, c1.4);
    assert(c1.0[0] == Event::CancelAppCloseRequest);
    assert(c2.0[0] == Event::AppCloseRequest);
}

/// A color set by a style action in a frame with no timer running lands in
/// the look the action is meant for and every look above it, and leaves
/// the looks below as they were: an action from code or a listener colors
/// all three looks and the node is drawn normal; an action of a style
/// callback colors the active look only while the node is pressed, the
/// hover and active looks while it is only hovered, and all three otherwise.
pub proof fn law_color_action_lands_in_its_look(
    v: NodeVisual,
    c: Color,
    origin: ActionOrigin,
    hovered: bool,
    active: bool,
    now: u64,
)
    requires
        !(v.current_state().style.timer is Some && v.current_state().style.timer_start is Some),
    ensures
        ({
            let w = style_frame(v, seq![(StyleAction::BGColor { color: c }, origin)], hovered, active, now).0;
            &&& (origin != ActionOrigin::Visual || (!hovered && !active)) ==> {
                &&& w.current == CurrentVisualState::Normal
                &&& w.normal.style.color == c && w.hover.style.color == c && w.active.style.color == c
            }
            &&& (origin == ActionOrigin::Visual && hovered && !active) ==> {
                &&& w.current == CurrentVisualState::Hover
                &&& w.normal == v.normal
                &&& w.hover.style.color == c && w.active.style.color == c
            }
            &&& (origin == ActionOrigin::Visual && active) ==> {
                &&& w.current == CurrentVisualState::Active
                &&& w.normal == v.normal && w.hover == v.hover
                &&& w.active.style.color == c
            }
        }),
{
    reveal_with_fuel(run_style_actions, 2);
    let q = seq![(StyleAction::BGColor { color: c }, origin)];
    assert(q.drop_first() =~= Seq::<(StyleAction, ActionOrigin)>::empty());
}

/// Each request of a listener is carried out as asked, after what earlier
/// requests did: a node creation or destruction is recorded, a child
/// addition between two existing different nodes that do not form a
/// two-node cycle queues the addition on the parent and the parent on the
/// child, and a new scene listener is registered under the next identifier.
pub proof fn law_context_requests_carried_out(
    ids: Set<u32>,
    tree: Map<u32, crate::scene::tree::NodeTree>,
    o: crate::event::context::ContextOutcome,
    target: NodeID,
    parent: NodeID,
    child: NodeID,
    event_type: EventType,
)
    ensures
        ({
            let r = crate::event::context::run_context_actions(ids, tree, o,
                seq![crate::event::context::ContextAction::Create { target }]);
            &&& r.created == o.created.push(target)
            &&& r.destroyed == o.destroyed && r.tree_queues == o.tree_queues && r.registry == o.registry
        }),
        ({
            let r = crate::event::context::run_context_actions(ids, tree, o,
                seq![crate::event::context::ContextAction::Destroy { target }]);
            &&& r.destroyed == o.destroyed.push(target)
            &&& r.created == o.created && r.tree_queues == o.tree_queues && r.registry == o.registry
        }),
        (ids.contains(parent.0) && ids.contains(child.0) && parent != child
            && tree[parent.0].spec_parent() != Some(child)) ==> ({
            let r = crate::event::context::run_context_actions(ids, tree, o,
                seq![crate::event::context::ContextAction::AddChild { parent, child }]);
            &&& r.error == o.error
            &&& r.tree_queues[parent.0] == o.tree_queues[parent.0].push((NodeTreeAction::AddChild { child }, ActionOrigin::Event))
            &&& r.tree_queues[child.0] == o.tree_queues[child.0].push((NodeTreeAction::SetParent { parent: Some(parent) }, ActionOrigin::Event))
        }),
        !ids.contains(parent.0) ==> ({
            let r = crate::event::context::run_context_actions(ids, tree, o,
                seq![crate::event::context::ContextAction::AddChild { parent, child }]);
            r.error == Some(crate::error::PrismaError::NodeNotFound(parent))
        }),
        ({
            let r = crate::event::context::run_context_actions(ids, tree, o,
                seq![crate::event::context::ContextAction::AddSceneEventListener { event_type }]);
            &&& r.registry.scene_listeners == o.registry.scene_listeners.push((EventCallbackID(o.registry.next), event_type))
            &&& r.registry.next == next_callback_number(o.registry.next)
            &&& r.added == o.added.push(EventCallbackID(o.registry.next))
        }),
{
    reveal_with_fuel(crate::event::context::run_context_actions, 2);
    assert(seq![crate::event::context::ContextAction::Create { target }].drop_first() =~= Seq::<crate::event::context::ContextAction>::empty());
    assert(seq![crate::event::context::ContextAction::Destroy { target }].drop_first() =~= Seq::<crate::event::context::ContextAction>::empty());
    assert(seq![crate::event::context::ContextAction::AddChild { parent, child }].drop_first() =~= Seq::<crate::event::context::ContextAction>::empty());
    assert(seq![crate::event::context::ContextAction::AddSceneEventListener { event_type }].drop_first() =~= Seq::<crate::event::context::ContextAction>::empty());
}

/// Releasing a button that was pressed and not dragged reports the release
/// and then a click there; releasing a dragged button reports the release
/// and then the end of the drag; releasing a button that was not pressed
/// reports the release alone.
pub proof fn law_release_reports_click_or_drag_end(
    m0: crate::event::mouse_manager::MouseManager,
    m1: crate::event::mouse_manager::MouseManager,
    b: crate::event::types::MouseButton,
    x: i32,
    y: i32,
)
    requires
        crate::event::mouse_manager::mouse_step(m0, m1, crate::event::mouse_manager::MouseInput::ButtonUp { button: b, x, y }),
    ensures
        m0.spec_dragging().contains(b) ==> m1.spec_queue() == m0.spec_queue()
            + seq![MouseEvent::MouseUp { x, y, mouse_btn: b }, MouseEvent::DragEnd { x, y, mouse_btn: b }],
        !m0.spec_dragging().contains(b) && crate::event::mouse_manager::has_button(m0.spec_downs(), b)
            ==> m1.spec_queue() == m0.spec_queue()
            + seq![MouseEvent::MouseUp { x, y, mouse_btn: b }, MouseEvent::Click { x, y, mouse_btn: b }],
        !m0.spec_dragging().contains(b) && !crate::event::mouse_manager::has_button(m0.spec_downs(), b)
            ==> m1.spec_queue() == m0.spec_queue().push(MouseEvent::MouseUp { x, y, mouse_btn: b }),
        m1.spec_position() == (Position { x, y }),
{
    assert(m0.spec_queue().push(MouseEvent::MouseUp { x, y, mouse_btn: b }) + seq![MouseEvent::DragEnd { x, y, mouse_btn: b }]
        =~= m0.spec_queue() + seq![MouseEvent::MouseUp { x, y, mouse_btn: b }, MouseEvent::DragEnd { x, y, mouse_btn: b }]);
    assert(m0.spec_queue().push(MouseEvent::MouseUp { x, y, mouse_btn: b }) + seq![MouseEvent::Click { x, y, mouse_btn: b }]
        =~= m0.spec_queue() + seq![MouseEvent::MouseUp { x, y, mouse_btn: b }, MouseEvent::Click { x, y, mouse_btn: b }]);
    assert(m0.spec_queue().push(MouseEvent::MouseUp { x, y, mouse_btn: b }) + Seq::<MouseEvent>::empty()
        =~= m0.spec_queue().push(MouseEvent::MouseUp { x, y, mouse_btn: b }));
}

/// With one button pressed at `p` and no drag going on, a motion farther
/// than the tolerance from `p` reports the move and then the start of a
/// drag at `p`, and the button is then dragged; a motion within the
/// tolerance reports the move alone and starts no drag.
pub proof fn law_motion_starts_drag_beyond_tolerance(
    m0: crate::event::mouse_manager::MouseManager,
    m1: crate::event::mouse_manager::MouseManager,
    b: crate::event::types::MouseButton,
    p: Position,
    x: i32,
    y: i32,
)
    requires
        m0.spec_downs() == seq![(b, p)],
        m0.spec_dragging().len() == 0,
        crate::event::mouse_manager::mouse_step(m0, m1, crate::event::mouse_manager::MouseInput::Motion { x, y }),
    ensures
        (x - p.x) * (x - p.x) + (y - p.y) * (y - p.y) > 25 ==> {
            &&& m1.spec_queue() == m0.spec_queue() + seq![MouseEvent::MouseMove { x, y }, MouseEvent::DragStart { x: p.x, y: p.y, mouse_btn: b }]
            &&& m1.spec_dragging() == seq![b]
        },
        (x - p.x) * (x - p.x) + (y - p.y) * (y - p.y) <= 25 ==> {
            &&& m1.spec_queue() == m0.spec_queue().push(MouseEvent::MouseMove { x, y })
            &&& m1.spec_dragging().len() == 0
        },
        m1.spec_downs() == m0.spec_downs(),
{
    reveal_with_fuel(crate::event::mouse_manager::drag_pass, 2);
    let d = seq![(b, p)];
    assert(d.drop_last() =~= Seq::<(crate::event::types::MouseButton, Position)>::empty());
    assert(crate::event::mouse_manager::DRAG_TOLERANCE * crate::event::mouse_manager::DRAG_TOLERANCE == 25);
    assert(crate::event::mouse_manager::beyond_tolerance(p, x, y) == ((x - p.x) * (x - p.x) + (y - p.y) * (y - p.y) > 25));
    assert(d.last() == (b, p));
    let e: Seq<crate::event::types::MouseButton> = Seq::empty();
    assert(m0.spec_dragging() =~= e);
    assert(!e.contains(b));
    assert(e.push(b) =~= seq![b]);
    assert(Seq::<MouseEvent>::empty().push(MouseEvent::DragStart { x: p.x, y: p.y, mouse_btn: b })
        =~= seq![MouseEvent::DragStart { x: p.x, y: p.y, mouse_btn: b }]);
    assert(m0.spec_queue().push(MouseEvent::MouseMove { x, y }) + seq![MouseEvent::DragStart { x: p.x, y: p.y, mouse_btn: b }]
        =~= m0.spec_queue() + seq![MouseEvent::MouseMove { x, y }, MouseEvent::DragStart { x: p.x, y: p.y, mouse_btn: b }]);
    assert(m0.spec_queue().push(MouseEvent::MouseMove { x, y }) + Seq::<MouseEvent>::empty()
        =~= m0.spec_queue().push(MouseEvent::MouseMove { x, y }));
}

/// A close request not yet announced is announced, once; a cancellation
/// with no unannounced request pending is announced and forgets the
/// request; quitting is announced once.
pub proof fn law_control_events_announce(
    close_request: Option<crate::event::event_manager::CloseRequest>,
    close_dispatched: bool,
    cancel_requested: bool,
    quitting: bool,
    quit_dispatched: bool,
)
    ensures
        ({
            let c = control_events(close_request, close_dispatched, cancel_requested, quitting, quit_dispatched);
            &&& (!close_dispatched && close_request is Some) ==> c.0.contains(Event::AppCloseRequest) && c.2
                && c.1 == close_request
            &&& (!(!close_dispatched && close_request is Some) && cancel_requested) ==> c.0.contains(Event::CancelAppCloseRequest)
                && c.1 is None && !c.2 && !c.3
            &&& (quitting && !quit_dispatched) ==> c.0.contains(Event::Quit) && c.4
            &&& (quitting && quit_dispatched) ==> !c.0.contains(Event::Quit)
            &&& !(!close_dispatched && close_request is Some) ==> !c.0.contains(Event::AppCloseRequest)
        }),
{
    let c = control_events(close_request, close_dispatched, cancel_requested, quitting, quit_dispatched);
    if !close_dispatched && close_request is Some {
        assert(c.0[0] == Event::AppCloseRequest);
    } else if cancel_requested {
        assert(c.0[0] == Event::CancelAppCloseRequest);
    }
    if quitting && !quit_dispatched {
        assert(c.0[c.0.len() - 1] == Event::Quit);
    }
    if c.0.contains(Event::Quit) && quitting && quit_dispatched {
        let k = choose|k: int| 0 <= k < c.0.len() && c.0[k] == Event::Quit;
    }
    if c.0.contains(Event::AppCloseRequest) && !(!close_dispatched && close_request is Some) {
        let k = choose|k: int| 0 <= k < c.0.len() && c.0[k] == Event::AppCloseRequest;
    }
}

/// Entry `k` of `s` names a node without a layer of its own, and a node
/// listed before it, with the same layer, has it as a child.
pub open spec fn inherits_layer(
    tree: Map<u32, crate::scene::tree::NodeTree>,
    s: Seq<(usize, NodeID)>,
    k: int,
) -> bool {
    exists|i: int| 0 <= i < k && #[trigger] tree[s[i].1.0].spec_children().contains(s[k].1) && s[i].0 == s[k].0
}

proof fn lemma_visit_inherits(
    tree: Map<u32, crate::scene::tree::NodeTree>,
    visual: Map<u32, NodeVisual>,
    id: NodeID,
    parent_layer: Option<usize>,
    f: nat,
)
    requires
        visit(tree, visual, id, parent_layer, f) is Some,
    ensures
        ({
            let s = visit(tree, visual, id, parent_layer, f)->Some_0;
            &&& s.len() > 0 && s[0].1 == id
            &&& visual[id.0].current_state().transform.layer is None
                ==> s[0].0 == (match parent_layer { Some(p) => p, None => 0usize })
            &&& forall|k: int| 0 < k < s.len() && visual[(#[trigger] s[k]).1.0].current_state().transform.layer is None
                ==> inherits_layer(tree, s, k)
        }),
    decreases f, 0nat, 0nat,
{
    let layer = node_layer(visual, id, parent_layer);
    let cs = tree[id.0].spec_children();
    lemma_visit_children_inherits(tree, visual, cs, layer, (f - 1) as nat);
    let t = visit_children(tree, visual, cs, layer, (f - 1) as nat)->Some_0;
    let s = seq![(layer, id)] + t;
    assert(visit(tree, visual, id, parent_layer, f)->Some_0 == s);
    assert forall|k: int| 0 < k < s.len() && visual[(#[trigger] s[k]).1.0].current_state().transform.layer is None
        implies inherits_layer(tree, s, k) by {
        assert(s[k] == t[k - 1]);
        if cs.contains(t[k - 1].1) && t[k - 1].0 == layer {
            assert(s[0] == (layer, id));
            assert(tree[s[0].1.0].spec_children().contains(s[k].1));
        } else {
            assert(inherits_layer(tree, t, k - 1));
            let i = choose|i: int| 0 <= i < k - 1 && #[trigger] tree[t[i].1.0].spec_children().contains(t[k - 1].1) && t[i].0 == t[k - 1].0;
            assert(s[i + 1] == t[i]);
            assert(tree[s[i + 1].1.0].spec_children().contains(s[k].1));
        }
    }
}

proof fn lemma_visit_children_inherits(
    tree: Map<u32, crate::scene::tree::NodeTree>,
    visual: Map<u32, NodeVisual>,
    cs: Seq<NodeID>,
    layer: usize,
    f: nat,
)
    requires
        visit_children(tree, visual, cs, layer, f) is Some,
    ensures
        ({
            let s = visit_children(tree, visual, cs, layer, f)->Some_0;
            forall|k: int| 0 <= k < s.len() && visual[(#[trigger] s[k]).1.0].current_state().transform.layer is None
                ==> (cs.contains(s[k].1) && s[k].0 == layer) || inherits_layer(tree, s, k)
        }),
    decreases f, 1nat, cs.len(),
{
    if cs.len() > 0 {
        lemma_visit_inherits(tree, visual, cs[0], Some(layer), f);
        lemma_visit_children_inherits(tree, visual, cs.drop_first(), layer, f);
        let a = visit(tree, visual, cs[0], Some(layer), f)->Some_0;
        let b = visit_children(tree, visual, cs.drop_first(), layer, f)->Some_0;
        let s = a + b;
        assert(visit_children(tree, visual, cs, layer, f)->Some_0 == s);
        assert forall|k: int| 0 <= k < s.len() && visual[(#[trigger] s[k]).1.0].current_state().transform.layer is None
            implies (cs.contains(s[k].1) && s[k].0 == layer) || inherits_layer(tree, s, k) by {
            if k < a.len() {
                assert(s[k] == a[k]);
                if k == 0 {
                    assert(cs[0] == s[0].1);
                } else {
                    assert(inherits_layer(tree, a, k));
                    let i = choose|i: int| 0 <= i < k && #[trigger] tree[a[i].1.0].spec_children().contains(a[k].1) && a[i].0 == a[k].0;
                    assert(s[i] == a[i]);
                    assert(tree[s[i].1.0].spec_children().contains(s[k].1));
                }
            } else {
                let kb = k - a.len();
                assert(s[k] == b[kb]);
                if cs.drop_first().contains(b[kb].1) && b[kb].0 == layer {
                    let j = choose|j: int| 0 <= j < cs.drop_first().len() && cs.drop_first()[j] == b[kb].1;
                    assert(cs[j + 1] == s[k].1);
                } else {
                    assert(inherits_layer(tree, b, kb));
                    let i = choose|i: int| 0 <= i < kb && #[trigger] tree[b[i].1.0].spec_children().contains(b[kb].1) && b[i].0 == b[kb].0;
                    assert(s[i + a.len()] == b[i]);
                    assert(tree[s[i + a.len()].1.0].spec_children().contains(s[k].1));
                }
            }
        }
    }
}

/// A node without a layer of its own is drawn in the layer of its parent:
/// in the walk from the roots, every such node is either a root, drawn in
/// layer 0, or listed after a node that has it as a child and is drawn in
/// the same layer.
pub proof fn law_render_inherits_parent_layer(
    tree: Map<u32, crate::scene::tree::NodeTree>,
    visual: Map<u32, NodeVisual>,
    ids: Seq<NodeID>,
    f: nat,
)
    requires
        visit_roots(tree, visual, ids, f) is Some,
    ensures
        ({
            let s = visit_roots(tree, visual, ids, f)->Some_0;
            forall|k: int| 0 <= k < s.len() && visual[(#[trigger] s[k]).1.0].current_state().transform.layer is None
                ==> (tree[s[k].1.0].spec_parent() is None && s[k].0 == 0) || inherits_layer(tree, s, k)
        }),
    decreases ids.len(),
{
    let s = visit_roots(tree, visual, ids, f)->Some_0;
    if ids.len() > 0 {
        let id = ids.last();
        let prev_ids = ids.drop_last();
        law_render_inherits_parent_layer(tree, visual, prev_ids, f);
        let a = visit_roots(tree, visual, prev_ids, f)->Some_0;
        if tree.contains_key(id.0) && tree[id.0].spec_parent() is None {
            let layer = visual[id.0].current_state().transform.layer;
            lemma_visit_inherits(tree, visual, id, layer, f);
            let b = visit(tree, visual, id, layer, f)->Some_0;
            assert(s == a + b);
            assert forall|k: int| 0 <= k < s.len() && visual[(#[trigger] s[k]).1.0].current_state().transform.layer is None
                implies (tree[s[k].1.0].spec_parent() is None && s[k].0 == 0) || inherits_layer(tree, s, k) by {
                if k < a.len() {
                    assert(s[k] == a[k]);
                    if inherits_layer(tree, a, k) {
                        let i = choose|i: int| 0 <= i < k && #[trigger] tree[a[i].1.0].spec_children().contains(a[k].1) && a[i].0 == a[k].0;
                        assert(s[i] == a[i]);
                        assert(tree[s[i].1.0].spec_children().contains(s[k].1));
                    }
                } else {
                    let kb = k - a.len();
                    assert(s[k] == b[kb]);
                    if kb > 0 {
                        assert(inherits_layer(tree, b, kb));
                        let i = choose|i: int| 0 <= i < kb && #[trigger] tree[b[i].1.0].spec_children().contains(b[kb].1) && b[i].0 == b[kb].0;
                        assert(s[i + a.len()] == b[i]);
                        assert(tree[s[i + a.len()].1.0].spec_children().contains(s[k].1));
                    }
                }
            }
        }
    }
}

} // verus!
