//! The action state model of nodes: a node keeps, by kind, the last action it
//! took of each kind and applies all of them on every frame, plus those of
//! its hover and active sets while it is hovered or active; new actions come
//! from its queue, one per frame, unless a wait holds them back.
use vstd::prelude::*;
use std::collections::{HashMap, VecDeque};
use crate::error::PrismaError;
use crate::event::event_manager::EventManager;
use crate::ids::NodeID;
use crate::scene::components::{NodeAction, Style, Transform};

verus! {

broadcast use vstd::std_specs::hash::group_hash_axioms;

/// At most one action of each kind.
#[derive(Clone, Copy, Debug, PartialEq, Eq, Structural)]
pub struct ActionSet {
    pub bg_color: Option<NodeAction>,
    pub layer: Option<NodeAction>,
    pub position: Option<NodeAction>,
    pub border_radius: Option<NodeAction>,
    pub scale: Option<NodeAction>,
    pub size: Option<NodeAction>,
    pub wait: Option<NodeAction>,
}

/// `s` with `a` as its action of `a`'s kind.
pub open spec fn set_insert(s: ActionSet, a: NodeAction) -> ActionSet {
    match a {
        NodeAction::BGColor { .. } => ActionSet { bg_color: Some(a), ..s },
        NodeAction::Layer { .. } => ActionSet { layer: Some(a), ..s },
        NodeAction::Position { .. } => ActionSet { position: Some(a), ..s },
        NodeAction::BorderRadius { .. } => ActionSet { border_radius: Some(a), ..s },
        NodeAction::Scale { .. } => ActionSet { scale: Some(a), ..s },
        NodeAction::Size { .. } => ActionSet { size: Some(a), ..s },
        NodeAction::Wait { .. } => ActionSet { wait: Some(a), ..s },
    }
}

pub open spec fn opt_seq(o: Option<NodeAction>) -> Seq<NodeAction> {
    match o {
        Some(a) => seq![a],
        None => Seq::empty(),
    }
}

/// The actions of `s`, in the order of their kinds.
pub open spec fn set_values(s: ActionSet) -> Seq<NodeAction> {
    opt_seq(s.bg_color) + opt_seq(s.layer) + opt_seq(s.position) + opt_seq(s.border_radius)
        + opt_seq(s.scale) + opt_seq(s.size) + opt_seq(s.wait)
}

fn push_opt(v: &mut Vec<NodeAction>, o: Option<NodeAction>)
    ensures
        final(v)@ == old(v)@ + opt_seq(o),
{
    if let Some(a) = o {
        v.push(a);
    } else {
        assert(old(v)@ + Seq::<NodeAction>::empty() =~= old(v)@);
    }
}

impl ActionSet {
    /// No actions.
    pub fn new() -> (s: ActionSet)
        ensures
            set_values(s).len() == 0,
    {
        ActionSet { bg_color: None, layer: None, position: None, border_radius: None, scale: None, size: None, wait: None }
    }

    /// Keeps `a` as the action of its kind.
    pub fn insert(&mut self, a: NodeAction)
        ensures
            *final(self) == set_insert(*old(self), a),
    {
        match a {
            NodeAction::BGColor { .. } => { self.bg_color = Some(a); },
            NodeAction::Layer { .. } => { self.layer = Some(a); },
            NodeAction::Position { .. } => { self.position = Some(a); },
            NodeAction::BorderRadius { .. } => { self.border_radius = Some(a); },
            NodeAction::Scale { .. } => { self.scale = Some(a); },
            NodeAction::Size { .. } => { self.size = Some(a); },
            NodeAction::Wait { .. } => { self.wait = Some(a); },
        }
    }

    /// The actions, in the order of their kinds.
    pub fn values(&self) -> (r: Vec<NodeAction>)
        ensures
            r@ == set_values(*self),
    {
        let mut r: Vec<NodeAction> = Vec::new();
        push_opt(&mut r, self.bg_color);
        push_opt(&mut r, self.layer);
        push_opt(&mut r, self.position);
        push_opt(&mut r, self.border_radius);
        push_opt(&mut r, self.scale);
        push_opt(&mut r, self.size);
        push_opt(&mut r, self.wait);
        assert(r@ =~= set_values(*self));
        r
    }
}

/// The state of a node in this model.
#[derive(Clone, Copy, Debug, PartialEq, Eq, Structural)]
pub struct ActionState {
    pub og_state: ActionSet,
    pub on_active: ActionSet,
    pub on_hover: ActionSet,
    /// Until when, in milliseconds on the scene's clock, new actions wait.
    pub waiting_until: Option<u64>,
    pub destruction_requested: bool,
}

impl ActionState {
    /// No actions, not waiting.
    pub fn new() -> (s: ActionState)
        ensures
            s.og_state == ActionSet::new_spec(),
            s.on_active == ActionSet::new_spec(),
            s.on_hover == ActionSet::new_spec(),
            s.waiting_until is None,
            !s.destruction_requested,
    {
        ActionState {
            og_state: ActionSet::new(),
            on_active: ActionSet::new(),
            on_hover: ActionSet::new(),
            waiting_until: None,
            destruction_requested: false,
        }
    }

    /// Adds `actions`, in order, to the actions applied while the node is active.
    pub fn on_active(&mut self, actions: &[NodeAction]) -> (r: &mut ActionState)
        ensures
            r.on_active == insert_all(old(self).on_active, actions@),
            r.og_state == old(self).og_state,
            r.on_hover == old(self).on_hover,
            r.waiting_until == old(self).waiting_until,
            r.destruction_requested == old(self).destruction_requested,
            *final(self) == *final(r),
    {
        let mut i: usize = 0;
        while i < actions.len()
            invariant
                i <= actions@.len(),
                self.on_active == insert_all(old(self).on_active, actions@.subrange(0, i as int)),
                self.og_state == old(self).og_state,
                self.on_hover == old(self).on_hover,
                self.waiting_until == old(self).waiting_until,
                self.destruction_requested == old(self).destruction_requested,
            decreases actions@.len() - i,
        {
            proof { lemma_insert_all_step(old(self).on_active, actions@, i as int); }
            self.on_active.insert(actions[i]);
            i = i + 1;
        }
        assert(actions@.subrange(0, i as int) =~= actions@);
        self
    }

    /// Adds `actions`, in order, to the actions applied while the node is hovered.
    pub fn on_hover(&mut self, actions: &[NodeAction]) -> (r: &mut ActionState)
        ensures
            r.on_hover == insert_all(old(self).on_hover, actions@),
            r.og_state == old(self).og_state,
            r.on_active == old(self).on_active,
            r.waiting_until == old(self).waiting_until,
            r.destruction_requested == old(self).destruction_requested,
            *final(self) == *final(r),
    {
        let mut i: usize = 0;
        while i < actions.len()
            invariant
                i <= actions@.len(),
                self.on_hover == insert_all(old(self).on_hover, actions@.subrange(0, i as int)),
                self.og_state == old(self).og_state,
                self.on_active == old(self).on_active,
                self.waiting_until == old(self).waiting_until,
                self.destruction_requested == old(self).destruction_requested,
            decreases actions@.len() - i,
        {
            proof { lemma_insert_all_step(old(self).on_hover, actions@, i as int); }
            self.on_hover.insert(actions[i]);
            i = i + 1;
        }
        assert(actions@.subrange(0, i as int) =~= actions@);
        self
    }
}

impl ActionState {
    pub open spec fn new_spec() -> ActionState {
        ActionState {
            og_state: ActionSet::new_spec(),
            on_active: ActionSet::new_spec(),
            on_hover: ActionSet::new_spec(),
            waiting_until: None,
            destruction_requested: false,
        }
    }
}

impl ActionSet {
    pub open spec fn new_spec() -> ActionSet {
        ActionSet { bg_color: None, layer: None, position: None, border_radius: None, scale: None, size: None, wait: None }
    }
}

/// `s` with the actions of `q` inserted in order.
pub open spec fn insert_all(s: ActionSet, q: Seq<NodeAction>) -> ActionSet
    decreases q.len(),
{
    if q.len() == 0 {
        s
    } else {
        set_insert(insert_all(s, q.drop_last()), q.last())
    }
}

proof fn lemma_insert_all_step(s: ActionSet, q: Seq<NodeAction>, i: int)
    requires
        0 <= i < q.len(),
    ensures
        insert_all(s, q.subrange(0, i + 1)) == set_insert(insert_all(s, q.subrange(0, i)), q[i]),
{
    assert(q.subrange(0, i + 1).drop_last() =~= q.subrange(0, i));
}

/// The state, transform and style of a node after one action at time `now`.
pub open spec fn apply_action(p: (ActionState, Transform, Style), a: NodeAction, now: u64) -> (ActionState, Transform, Style) {
    let (st, t, s) = p;
    match a {
        NodeAction::Position { position, absolute } => (st, Transform {
            position: match position { Some(v) => v, None => t.position },
            position_absolute: match absolute { Some(b) => b, None => t.position_absolute },
            ..t
        }, s),
        NodeAction::Size { width, height } => (st, t, Style { size: (width, height), ..s }),
        NodeAction::Scale { x, y } => (st, Transform { scale: (x, y), ..t }, s),
        NodeAction::BGColor { color } => (st, t, Style { color, ..s }),
        NodeAction::Layer { layer } => (st, Transform { layer: Some(layer), ..t }, s),
        NodeAction::BorderRadius { radius } => (st, t, Style { border_radius: radius, ..s }),
        NodeAction::Wait { duration } => (ActionState { waiting_until: Some((now + duration) as u64), ..st }, t, s),
    }
}

/// The state, transform and style of a node after the actions `q`, in order.
pub open spec fn apply_actions(p: (ActionState, Transform, Style), q: Seq<NodeAction>, now: u64) -> (ActionState, Transform, Style)
    decreases q.len(),
{
    if q.len() == 0 {
        p
    } else {
        apply_actions(apply_action(p, q[0], now), q.drop_first(), now)
    }
}

/// Actions change only the wait of a node's state, never its action sets.
proof fn lemma_apply_keeps_sets(p: (ActionState, Transform, Style), q: Seq<NodeAction>, now: u64)
    ensures
        apply_actions(p, q, now).0.og_state == p.0.og_state,
        apply_actions(p, q, now).0.on_hover == p.0.on_hover,
        apply_actions(p, q, now).0.on_active == p.0.on_active,
    decreases q.len(),
{
    if q.len() > 0 {
        lemma_apply_keeps_sets(apply_action(p, q[0], now), q.drop_first(), now);
    }
}

/// Every action of `q` that sets a wait ends at a time that `u64` holds.
pub open spec fn waits_fit(q: Seq<NodeAction>, now: u64) -> bool {
    forall|i: int, d: u64| 0 <= i < q.len() && q[i] == (NodeAction::Wait { duration: d }) ==> now + d <= u64::MAX
}

/// A node as plain values: state, transform, style and queued actions.
pub open spec fn node_view(n: ActionNode) -> (ActionState, Transform, Style, Seq<NodeAction>) {
    (n.state, n.transform, n.style, n.spec_queue())
}

/// One frame of a node at time `now`: its kept actions apply, then those of
/// its hover set while hovered and of its active set while active. A wait
/// that has not ended stops the frame of the whole scene (the last value);
/// else the wait is over and the next queued action becomes the kept action
/// of its kind.
pub open spec fn node_frame(
    n: (ActionState, Transform, Style, Seq<NodeAction>),
    hovered: bool,
    active: bool,
    now: u64,
) -> ((ActionState, Transform, Style, Seq<NodeAction>), bool) {
    let (st, t, s, q) = n;
    let p1 = apply_actions((st, t, s), set_values(st.og_state), now);
    let p2 = if hovered { apply_actions(p1, set_values(p1.0.on_hover), now) } else { p1 };
    let p3 = if active { apply_actions(p2, set_values(p2.0.on_active), now) } else { p2 };
    if p3.0.waiting_until matches Some(until) && now < until {
        ((p3.0, p3.1, p3.2, q), true)
    } else {
        let st4 = ActionState { waiting_until: None, ..p3.0 };
        if q.len() > 0 {
            ((ActionState { og_state: set_insert(st4.og_state, q[0]), ..st4 }, p3.1, p3.2, q.drop_first()), false)
        } else {
            ((st4, p3.1, p3.2, q), false)
        }
    }
}

/// The nodes after the frames of `ids`, in order, and the first identifier
/// without a node, if any. A wait that has not ended stops the frames.
pub open spec fn frame_all(
    m: Map<u32, (ActionState, Transform, Style, Seq<NodeAction>)>,
    ids: Seq<NodeID>,
    hovered: Option<NodeID>,
    active: Option<NodeID>,
    now: u64,
) -> (Map<u32, (ActionState, Transform, Style, Seq<NodeAction>)>, Option<NodeID>)
    decreases ids.len(),
{
    if ids.len() == 0 {
        (m, None)
    } else {
        let id = ids[0];
        if !m.contains_key(id.0) {
            (m, Some(id))
        } else {
            let r = node_frame(m[id.0], hovered == Some(id), active == Some(id), now);
            let m2 = m.insert(id.0, r.0);
            if r.1 {
                (m2, None)
            } else {
                frame_all(m2, ids.drop_first(), hovered, active, now)
            }
        }
    }
}

/// The nodes of a map as plain values.
pub open spec fn map_view(m: Map<u32, ActionNode>) -> Map<u32, (ActionState, Transform, Style, Seq<NodeAction>)> {
    Map::new(|k: u32| m.contains_key(k), |k: u32| node_view(m[k]))
}

/// A node of this model: its state, transform, style and queued actions.
pub struct ActionNode {
    pub state: ActionState,
    pub transform: Transform,
    pub style: Style,
    pub queue: VecDeque<NodeAction>,
}

impl ActionNode {
    pub open spec fn spec_queue(&self) -> Seq<NodeAction> {
        self.queue@
    }

    /// A node with default components and no actions.
    pub fn new() -> (n: ActionNode)
        ensures
            n.state == ActionState::new_spec(),
            n.spec_queue().len() == 0,
    {
        ActionNode { state: ActionState::new(), transform: Transform::new(), style: Style::new(), queue: VecDeque::new() }
    }

    /// Queues `a` after the other actions.
    pub fn push_action(&mut self, a: NodeAction)
        ensures
            final(self).spec_queue() == old(self).spec_queue().push(a),
            final(self).state == old(self).state,
            final(self).transform == old(self).transform,
            final(self).style == old(self).style,
    {
        self.queue.push_back(a);
    }

    /// Applies one action at time `now`.
    pub fn execute_node_action(&mut self, action: NodeAction, now: u64)
        requires
            action matches NodeAction::Wait { duration } ==> now + duration <= u64::MAX,
        ensures
            (final(self).state, final(self).transform, final(self).style)
                == apply_action((old(self).state, old(self).transform, old(self).style), action, now),
            final(self).spec_queue() == old(self).spec_queue(),
    {
        match action {
            NodeAction::Position { position, absolute } => {
                if let Some(value) = position {
                    self.transform.position = value;
                }
                if let Some(value) = absolute {
                    self.transform.position_absolute = value;
                }
            },
            NodeAction::Size { width, height } => {
                self.style.size = (width, height);
            },
            NodeAction::Scale { x, y } => {
                self.transform.scale = (x, y);
            },
            NodeAction::BGColor { color } => {
                self.style.color = color;
            },
            NodeAction::Layer { layer } => {
                self.transform.layer = Some(layer);
            },
            NodeAction::BorderRadius { radius } => {
                self.style.border_radius = radius;
            },
            NodeAction::Wait { duration } => {
                self.state.waiting_until = Some(now + duration);
            },
        }
    }

    fn execute_all(&mut self, actions: &Vec<NodeAction>, now: u64)
        requires
            waits_fit(actions@, now),
        ensures
            (final(self).state, final(self).transform, final(self).style)
                == apply_actions((old(self).state, old(self).transform, old(self).style), actions@, now),
            final(self).spec_queue() == old(self).spec_queue(),
    {
        let ghost target = apply_actions((self.state, self.transform, self.style), actions@, now);
        let mut i: usize = 0;
        proof {
            assert(actions@.subrange(0, actions@.len() as int) =~= actions@);
        }
        while i < actions.len()
            invariant
                i <= actions@.len(),
                waits_fit(actions@, now),
                target == apply_actions((old(self).state, old(self).transform, old(self).style), actions@, now),
                apply_actions((self.state, self.transform, self.style), actions@.subrange(i as int, actions@.len() as int), now) == target,
                self.spec_queue() == old(self).spec_queue(),
            decreases actions@.len() - i,
        {
            let ghost rest = actions@.subrange(i as int, actions@.len() as int);
            proof {
                assert(rest.drop_first() =~= actions@.subrange(i + 1, actions@.len() as int));
                assert(rest[0] == actions@[i as int]);
                if let NodeAction::Wait { duration } = actions@[i as int] {
                    assert(actions@[i as int] == (NodeAction::Wait { duration }));
                }
            }
            self.execute_node_action(actions[i], now);
            i = i + 1;
        }
    }

    /// One frame of this node at time `now`; returns `true` when a wait that
    /// has not ended stops the frame of the whole scene.
    pub fn frame(&mut self, hovered: bool, active: bool, now: u64) -> (stop: bool)
        requires
            waits_fit(set_values(old(self).state.og_state), now),
            waits_fit(set_values(old(self).state.on_hover), now),
            waits_fit(set_values(old(self).state.on_active), now),
        ensures
            (node_view(*final(self)), stop) == node_frame(node_view(*old(self)), hovered, active, now),
    {
        let og = self.state.og_state.values();
        proof {
            lemma_apply_keeps_sets((self.state, self.transform, self.style), og@, now);
        }
        self.execute_all(&og, now);
        if hovered {
            let hover = self.state.on_hover.values();
            proof {
                lemma_apply_keeps_sets((self.state, self.transform, self.style), hover@, now);
            }
            self.execute_all(&hover, now);
        }
        if active {
            let act = self.state.on_active.values();
            self.execute_all(&act, now);
        }
        if let Some(until) = self.state.waiting_until {
            if now < until {
                return true;
            }
            self.state.waiting_until = None;
        }
        if let Some(action) = self.queue.pop_front() {
            self.state.og_state.insert(action);
        }
        false
    }
}

/// Runs one frame of the nodes `ids` in order at time `now`, with the
/// hovered and active nodes of `event_manager`.
///
/// Returns [`PrismaError::NodeNotFound`] with the first identifier without a
/// node; a wait that has not ended stops the frames.
pub fn process_node_actions(
    nodes: &mut HashMap<u32, ActionNode>,
    ids: &Vec<NodeID>,
    event_manager: &EventManager,
    now: u64,
) -> (r: Result<(), PrismaError>)
    requires
        ids@.no_duplicates(),
        forall|k: u32| #[trigger] old(nodes)@.contains_key(k) ==> {
            &&& waits_fit(set_values(old(nodes)@[k].state.og_state), now)
            &&& waits_fit(set_values(old(nodes)@[k].state.on_hover), now)
            &&& waits_fit(set_values(old(nodes)@[k].state.on_active), now)
        },
    ensures
        ({
            let out = frame_all(map_view(old(nodes)@), ids@, event_manager.spec_hovered(), event_manager.spec_active(), now);
            &&& map_view(final(nodes)@) == out.0
            &&& (out.1 matches Some(e) ==> r == Err::<(), PrismaError>(PrismaError::NodeNotFound(e)))
            &&& (out.1 is None ==> r is Ok)
        }),
{
    let ghost hv = event_manager.spec_hovered();
    let ghost ac = event_manager.spec_active();
    let ghost target = frame_all(map_view(nodes@), ids@, hv, ac, now);
    let mut i: usize = 0;
    proof {
        assert(ids@.subrange(0, ids@.len() as int) =~= ids@);
    }
    while i < ids.len()
        invariant
            i <= ids@.len(),
            ids@.no_duplicates(),
            hv == event_manager.spec_hovered(),
            ac == event_manager.spec_active(),
            target == frame_all(map_view(old(nodes)@), ids@, hv, ac, now),
            frame_all(map_view(nodes@), ids@.subrange(i as int, ids@.len() as int), hv, ac, now) == target,
            forall|j: int| i <= j < ids@.len() ==> (#[trigger] old(nodes)@.contains_key(ids@[j].0)
                ==> nodes@.contains_key(ids@[j].0) && nodes@[ids@[j].0] == old(nodes)@[ids@[j].0]),
            forall|j: int| i <= j < ids@.len() ==> (nodes@.contains_key(#[trigger] ids@[j].0) ==> old(nodes)@.contains_key(ids@[j].0)),
            forall|k: u32| #[trigger] old(nodes)@.contains_key(k) ==> {
                &&& waits_fit(set_values(old(nodes)@[k].state.og_state), now)
                &&& waits_fit(set_values(old(nodes)@[k].state.on_hover), now)
                &&& waits_fit(set_values(old(nodes)@[k].state.on_active), now)
            },
        decreases ids@.len() - i,
    {
        let ghost rest = ids@.subrange(i as int, ids@.len() as int);
        proof {
            assert(rest.drop_first() =~= ids@.subrange(i + 1, ids@.len() as int));
            assert(rest[0] == ids@[i as int]);
        }
        let id = ids[i];
        let ghost before = nodes@;
        match nodes.remove(&id.0) {
            None => {
                proof {
                    assert(!map_view(before).contains_key(id.0));
                    assert(nodes@ =~= before);
                }
                return Err(PrismaError::NodeNotFound(id));
            },
            Some(mut n) => {
                assert(before.contains_key(id.0));
                let hovered = event_manager.is_node_hovered(id);
                let active = event_manager.is_node_active(id);
                let stop = n.frame(hovered, active, now);
                nodes.insert(id.0, n);
                proof {
                    assert(map_view(nodes@) =~= map_view(before).insert(id.0, node_view(n)));
                    assert forall|j: int| i + 1 <= j < ids@.len() implies (#[trigger] old(nodes)@.contains_key(ids@[j].0)
                        ==> nodes@.contains_key(ids@[j].0) && nodes@[ids@[j].0] == old(nodes)@[ids@[j].0]) by {
                        assert(ids@[j] != ids@[i as int]);
                    }
                    assert forall|j: int| i + 1 <= j < ids@.len() implies (nodes@.contains_key(#[trigger] ids@[j].0) ==> old(nodes)@.contains_key(ids@[j].0)) by {
                        assert(ids@[j] != ids@[i as int]);
                    }
                }
                if stop {
                    return Ok(());
                }
            },
        }
        i = i + 1;
    }
    proof {
        assert(ids@.subrange(i as int, ids@.len() as int) =~= Seq::<NodeID>::empty());
    }
    Ok(())
}

} // verus!
