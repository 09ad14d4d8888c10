//! The decisions of event dispatch that do not depend on the listener
//! registry: where an event goes after its target, and which node a point hits.
use vstd::prelude::*;
use crate::event::event_manager::{reaches_all_nodes, spec_reaches_all_nodes, PropagationState};
use crate::event::types::{spec_bubbles_by_default, Event, EventType};
use crate::ids::NodeID;

verus! {

broadcast use vstd::seq_lib::group_to_multiset_ensures;

/// The node an event goes on to after a node with parent `parent` handled
/// it: nowhere without a parent; else the parent when the listeners asked
/// for bubbling, or left the choice to the event type and it bubbles.
pub open spec fn spec_propagation_target(parent: Option<NodeID>, state: PropagationState, event_type: EventType) -> Option<NodeID> {
    match parent {
        None => None,
        Some(p) => match state {
            PropagationState::Unset => if spec_bubbles_by_default(event_type) { Some(p) } else { None },
            PropagationState::Bubble => Some(p),
            PropagationState::Stopped => None,
        },
    }
}

/// Where an event goes after the node with parent `parent` handled it.
pub fn propagation_target(parent: Option<NodeID>, state: PropagationState, event_type: EventType) -> (r: Option<NodeID>)
    ensures
        r == spec_propagation_target(parent, state, event_type),
{
    match parent {
        None => None,
        Some(p) => match state {
            PropagationState::Unset => if event_type.bubbles_by_default() { Some(p) } else { None },
            PropagationState::Bubble => Some(p),
            PropagationState::Stopped => None,
        },
    }
}

/// The order of hits: by layer, then by node identifier.
pub open spec fn hit_le(a: (NodeID, usize), b: (NodeID, usize)) -> bool {
    a.1 < b.1 || (a.1 == b.1 && a.0.0 <= b.0.0)
}

/// `s` is in ascending order of hits.
pub open spec fn hits_sorted(s: Seq<(NodeID, usize)>) -> bool {
    forall|i: int, j: int| 0 <= i < j < s.len() ==> hit_le(#[trigger] s[i], #[trigger] s[j])
}

/// Sorts the nodes under a point, given with their layers, from the lowest to
/// the topmost: by layer, and by identifier within a layer.
pub fn hit_test(hits: &Vec<(NodeID, usize)>) -> (r: Vec<(NodeID, usize)>)
    ensures
        hits_sorted(r@),
        r@.to_multiset() == hits@.to_multiset(),
{
    let mut r: Vec<(NodeID, usize)> = Vec::new();
    let mut i: usize = 0;
    while i < hits.len()
        invariant
            i <= hits@.len(),
            hits_sorted(r@),
            r@.to_multiset() == hits@.subrange(0, i as int).to_multiset(),
        decreases hits@.len() - i,
    {
        let x = hits[i];
        let mut p: usize = 0;
        while p < r.len() && (r[p].1 < x.1 || (r[p].1 == x.1 && r[p].0.0 <= x.0.0))
            invariant
                p <= r@.len(),
                forall|k: int| 0 <= k < p ==> hit_le(#[trigger] r@[k], x),
            decreases r@.len() - p,
        {
            p = p + 1;
        }
        let ghost old_r = r@;
        proof {
            if p < old_r.len() {
                assert forall|k: int| p <= k < old_r.len() implies hit_le(x, #[trigger] old_r[k]) by {
                    if k > p {
                        assert(hit_le(old_r[p as int], old_r[k]));
                    }
                }
            }
        }
        r.insert(p, x);
        proof {
            assert(hits@.subrange(0, i + 1) =~= hits@.subrange(0, i as int).push(x));
            assert forall|a: int, b: int| 0 <= a < b < r@.len() implies hit_le(#[trigger] r@[a], #[trigger] r@[b]) by {
                if b < p {
                    assert(r@[a] == old_r[a] && r@[b] == old_r[b]);
                } else if b == p {
                    assert(r@[a] == old_r[a]);
                } else if a < p {
                    assert(r@[a] == old_r[a] && r@[b] == old_r[b - 1]);
                    assert(hit_le(old_r[a], x));
                    assert(hit_le(x, old_r[b - 1]));
                } else if a == p {
                    assert(r@[b] == old_r[b - 1]);
                } else {
                    assert(r@[a] == old_r[a - 1] && r@[b] == old_r[b - 1]);
                }
            }
        }
        i = i + 1;
    }
    assert(hits@.subrange(0, i as int) =~= hits@);
    r
}

/// The topmost node under a point, if any: the greatest hit in the order of
/// layers and identifiers.
pub fn top_hit(hits: &Vec<(NodeID, usize)>) -> (r: Option<NodeID>)
    ensures
        r is None <==> hits@.len() == 0,
        r matches Some(t) ==> exists|i: int| 0 <= i < hits@.len() && (#[trigger] hits@[i]).0 == t
            && forall|j: int| 0 <= j < hits@.len() ==> hit_le(#[trigger] hits@[j], hits@[i]),
{
    let mut sorted = hit_test(hits);
    let ghost s = sorted@;
    match sorted.pop() {
        None => {
            proof {
                if hits@.len() > 0 {
                    assert(hits@.to_multiset().count(hits@[0]) > 0);
                    assert(s.len() == 0);
                    assert(s.to_multiset().count(hits@[0]) == 0);
                }
            }
            None
        },
        Some(top) => {
            proof {
                let n = s.len() - 1;
                assert(s[n] == top);
                assert(s.to_multiset().count(top) > 0);
                assert(hits@.contains(top));
                let i = choose|i: int| 0 <= i < hits@.len() && hits@[i] == top;
                assert forall|j: int| 0 <= j < hits@.len() implies hit_le(#[trigger] hits@[j], hits@[i]) by {
                    assert(hits@.to_multiset().count(hits@[j]) > 0);
                    assert(s.contains(hits@[j]));
                    let k = choose|k: int| 0 <= k < s.len() && s[k] == hits@[j];
                    if k < n {
                        assert(hit_le(s[k], s[n]));
                    }
                }
            }
            Some(top.0)
        },
    }
}

/// One step of delivering an event.
#[derive(Clone, Copy, Debug, PartialEq, Eq, Structural)]
pub enum Delivery {
    /// The scene listeners of the event's type receive `event`.
    Scene { event: Event },
    /// `node` receives `event` as one of all the nodes, bubbling from it.
    EveryNode { node: NodeID, event: Event },
    /// `node` receives `event` as the target of a route, bubbling from it.
    Routed { node: NodeID, event: Event },
}

/// The order in which event `e` is delivered: first to the scene listeners,
/// then, where the event reaches all nodes, to each node in `nodes` in order,
/// then along the routes the event manager decided, in order.
pub open spec fn delivery_plan(e: Event, nodes: Seq<NodeID>, routed: Seq<(NodeID, Event)>) -> Seq<Delivery> {
    seq![Delivery::Scene { event: e }]
        + (if spec_reaches_all_nodes(e) {
            nodes.map_values(|n: NodeID| Delivery::EveryNode { node: n, event: e })
        } else {
            Seq::empty()
        })
        + routed.map_values(|d: (NodeID, Event)| Delivery::Routed { node: d.0, event: d.1 })
}

/// The steps that deliver event `e`, in order: to the scene listeners, to
/// each of `nodes` where the event reaches all nodes, then to the targets
/// of `routed`.
pub fn plan_deliveries(e: Event, nodes: &Vec<NodeID>, routed: &Vec<(NodeID, Event)>) -> (r: Vec<Delivery>)
    ensures
        r@ == delivery_plan(e, nodes@, routed@),
{
    let mut r: Vec<Delivery> = Vec::new();
    r.push(Delivery::Scene { event: e });
    let ghost first = r@;
    let all = reaches_all_nodes(&e);
    if all {
        let mut i: usize = 0;
        while i < nodes.len()
            invariant
                i <= nodes@.len(),
                r@ == first + nodes@.subrange(0, i as int).map_values(|n: NodeID| Delivery::EveryNode { node: n, event: e }),
            decreases nodes@.len() - i,
        {
            r.push(Delivery::EveryNode { node: nodes[i], event: e });
            assert(nodes@.subrange(0, i + 1).map_values(|n: NodeID| Delivery::EveryNode { node: n, event: e })
                =~= nodes@.subrange(0, i as int).map_values(|n: NodeID| Delivery::EveryNode { node: n, event: e })
                    .push(Delivery::EveryNode { node: nodes@[i as int], event: e }));
            i = i + 1;
        }
        assert(nodes@.subrange(0, i as int) =~= nodes@);
    } else {
        assert(first + Seq::<Delivery>::empty() =~= first);
    }
    let ghost mid = r@;
    let mut j: usize = 0;
    while j < routed.len()
        invariant
            j <= routed@.len(),
            r@ == mid + routed@.subrange(0, j as int).map_values(|d: (NodeID, Event)| Delivery::Routed { node: d.0, event: d.1 }),
        decreases routed@.len() - j,
    {
        let d = routed[j];
        r.push(Delivery::Routed { node: d.0, event: d.1 });
        assert(routed@.subrange(0, j + 1).map_values(|d: (NodeID, Event)| Delivery::Routed { node: d.0, event: d.1 })
            =~= routed@.subrange(0, j as int).map_values(|d: (NodeID, Event)| Delivery::Routed { node: d.0, event: d.1 })
                .push(Delivery::Routed { node: routed@[j as int].0, event: routed@[j as int].1 }));
        j = j + 1;
    }
    assert(routed@.subrange(0, j as int) =~= routed@);
    r
}

} // verus!
