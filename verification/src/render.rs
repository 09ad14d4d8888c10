//! The order in which the nodes of a scene are drawn: by layer, and within a
//! layer in the order of a depth-first walk from the roots. A node without a
//! layer of its own is drawn in the layer of its parent.
use vstd::prelude::*;
use crate::ids::NodeID;
use crate::scene::storage::NodeStorage;
use crate::scene::tree::NodeTree;
use crate::scene::visual::NodeVisual;

verus! {

/// The layer node `id` is drawn in: its own, else its parent's, else 0.
pub open spec fn node_layer(visual: Map<u32, NodeVisual>, id: NodeID, parent_layer: Option<usize>) -> usize {
    match visual[id.0].current_state().transform.layer {
        Some(l) => l,
        None => match parent_layer {
            Some(p) => p,
            None => 0,
        },
    }
}

/// The walk from `id`, exploring at most `fuel` levels: each node with its
/// layer, depth first, children in order; `None` when the levels run out or
/// a node on the way is missing.
pub open spec fn visit(
    tree: Map<u32, NodeTree>,
    visual: Map<u32, NodeVisual>,
    id: NodeID,
    parent_layer: Option<usize>,
    fuel: nat,
) -> Option<Seq<(usize, NodeID)>>
    decreases fuel, 0nat, 0nat,
{
    if fuel == 0 || !tree.contains_key(id.0) || !visual.contains_key(id.0) {
        None
    } else {
        let layer = node_layer(visual, id, parent_layer);
        match visit_children(tree, visual, tree[id.0].spec_children(), layer, (fuel - 1) as nat) {
            Some(s) => Some(seq![(layer, id)] + s),
            None => None,
        }
    }
}

/// The walks from the nodes `cs`, one after the other.
pub open spec fn visit_children(
    tree: Map<u32, NodeTree>,
    visual: Map<u32, NodeVisual>,
    cs: Seq<NodeID>,
    layer: usize,
    fuel: nat,
) -> Option<Seq<(usize, NodeID)>>
    decreases fuel, 1nat, cs.len(),
{
    if cs.len() == 0 {
        Some(Seq::empty())
    } else {
        match visit(tree, visual, cs[0], Some(layer), fuel) {
            Some(a) => match visit_children(tree, visual, cs.drop_first(), layer, fuel) {
                Some(b) => Some(a + b),
                None => None,
            },
            None => None,
        }
    }
}

/// The walks from the nodes of `ids` that have no parent, one after the other.
pub open spec fn visit_roots(
    tree: Map<u32, NodeTree>,
    visual: Map<u32, NodeVisual>,
    ids: Seq<NodeID>,
    fuel: nat,
) -> Option<Seq<(usize, NodeID)>>
    decreases ids.len(),
{
    if ids.len() == 0 {
        Some(Seq::empty())
    } else {
        let prev = visit_roots(tree, visual, ids.drop_last(), fuel);
        let id = ids.last();
        if tree.contains_key(id.0) && tree[id.0].spec_parent() is None {
            match (prev, visit(tree, visual, id, visual[id.0].current_state().transform.layer, fuel)) {
                (Some(a), Some(b)) => Some(a + b),
                _ => None,
            }
        } else {
            prev
        }
    }
}

/// `t` with `x` placed after every entry of a layer up to its own.
pub open spec fn insert_by_layer(t: Seq<(usize, NodeID)>, x: (usize, NodeID)) -> Seq<(usize, NodeID)>
    decreases t.len(),
{
    if t.len() == 0 {
        seq![x]
    } else if t[0].0 > x.0 {
        seq![x] + t
    } else {
        seq![t[0]] + insert_by_layer(t.drop_first(), x)
    }
}

/// The entries of `s` in ascending order of layer, keeping the order of
/// `s` within a layer.
pub open spec fn by_layer(s: Seq<(usize, NodeID)>) -> Seq<(usize, NodeID)>
    decreases s.len(),
{
    if s.len() == 0 {
        s
    } else {
        insert_by_layer(by_layer(s.drop_last()), s.last())
    }
}

/// The walk from the roots ends.
pub open spec fn render_terminates(st: NodeStorage) -> bool {
    exists|f: nat| #[trigger] visit_roots(st.spec_tree(), st.spec_visual(), st.spec_order(), f) is Some
}

/// Inserting before the first entry of a higher layer is `insert_by_layer`.
proof fn lemma_insert_by_layer(t: Seq<(usize, NodeID)>, x: (usize, NodeID), p: int)
    requires
        0 <= p <= t.len(),
        forall|k: int| 0 <= k < p ==> (#[trigger] t[k]).0 <= x.0,
        p < t.len() ==> t[p].0 > x.0,
    ensures
        insert_by_layer(t, x) == t.insert(p, x),
    decreases t.len(),
{
    if t.len() == 0 {
        assert(t.insert(p, x) =~= seq![x]);
    } else if p == 0 {
        assert(t.insert(0, x) =~= seq![x] + t);
    } else {
        let d = t.drop_first();
        assert forall|k: int| 0 <= k < p - 1 implies (#[trigger] d[k]).0 <= x.0 by {
            assert(d[k] == t[k + 1]);
        }
        lemma_insert_by_layer(d, x, p - 1);
        assert(t.insert(p, x) =~= seq![t[0]] + d.insert(p - 1, x));
    }
}

/// Walks from `id`, appending each node with its layer to `output`.
fn visit_into(
    storage: &NodeStorage,
    id: NodeID,
    parent_layer: Option<usize>,
    output: &mut Vec<(usize, NodeID)>,
    Ghost(fuel): Ghost<nat>,
)
    requires
        storage.wf(),
        visit(storage.spec_tree(), storage.spec_visual(), id, parent_layer, fuel) is Some,
    ensures
        visit(storage.spec_tree(), storage.spec_visual(), id, parent_layer, fuel) matches Some(s)
            && final(output)@ == old(output)@ + s,
    decreases fuel,
{
    let v = storage.visual_of(id);
    let layer: usize = match v.get_layer() {
        Some(l) => l,
        None => match parent_layer {
            Some(p) => p,
            None => 0,
        },
    };
    let ghost start = output@;
    output.push((layer, id));
    let children = storage.tree_of(id).get_children();
    let ghost tree = storage.spec_tree();
    let ghost visual = storage.spec_visual();
    let ghost cs = children@;
    let ghost f = (fuel - 1) as nat;
    let ghost mut done: Seq<(usize, NodeID)> = Seq::empty();
    let mut i: usize = 0;
    proof {
        assert(cs.subrange(0, cs.len() as int) =~= cs);
        assert(output@ =~= start + seq![(layer, id)] + done);
    }
    while i < children.len()
        invariant
            storage.wf(),
            tree == storage.spec_tree(),
            visual == storage.spec_visual(),
            cs == children@,
            cs == tree[id.0].spec_children(),
            tree.contains_key(id.0),
            fuel > 0,
            f == fuel - 1,
            i <= cs.len(),
            layer == node_layer(visual, id, parent_layer),
            visit_children(tree, visual, cs, layer, f) matches Some(all)
                && visit_children(tree, visual, cs.subrange(i as int, cs.len() as int), layer, f) matches Some(rest)
                && all == done + rest,
            output@ == start + seq![(layer, id)] + done,
        decreases cs.len() - i,
    {
        let ghost rest = cs.subrange(i as int, cs.len() as int);
        proof {
            assert(rest.drop_first() =~= cs.subrange(i + 1, cs.len() as int));
            assert(rest[0] == cs[i as int]);
        }
        visit_into(storage, children[i], Some(layer), output, Ghost(f));
        proof {
            let a = visit(tree, visual, cs[i as int], Some(layer), f)->Some_0;
            let all = visit_children(tree, visual, cs, layer, f)->Some_0;
            let b = visit_children(tree, visual, rest.drop_first(), layer, f)->Some_0;
            assert(all == done + (a + b));
            assert(done + (a + b) =~= (done + a) + b);
            assert(output@ =~= start + seq![(layer, id)] + (done + a));
            done = done + a;
        }
        i = i + 1;
    }
    proof {
        assert(cs.subrange(i as int, cs.len() as int) =~= Seq::<NodeID>::empty());
        let all = visit_children(tree, visual, cs, layer, f)->Some_0;
        assert(all =~= done);
        assert(start + seq![(layer, id)] + done =~= start + (seq![(layer, id)] + done));
    }
}

/// The nodes of the scene in the order they are drawn, each with its layer:
/// by layer, and within a layer in the order of a depth-first walk from each
/// root, roots oldest first.
pub fn build_render_layers(storage: &NodeStorage) -> (r: Vec<(usize, NodeID)>)
    requires
        storage.wf(),
        render_terminates(*storage),
    ensures
        visit_roots(storage.spec_tree(), storage.spec_visual(), storage.spec_order(),
            choose|f: nat| #[trigger] visit_roots(storage.spec_tree(), storage.spec_visual(), storage.spec_order(), f) is Some)
            matches Some(s) && r@ == by_layer(s),
{
    let ghost tree = storage.spec_tree();
    let ghost visual = storage.spec_visual();
    let ghost fuel = choose|f: nat| #[trigger] visit_roots(storage.spec_tree(), storage.spec_visual(), storage.spec_order(), f) is Some;
    let ids = storage.get_nodes_id();
    let mut walk: Vec<(usize, NodeID)> = Vec::new();
    let mut i: usize = 0;
    while i < ids.len()
        invariant
            storage.wf(),
            tree == storage.spec_tree(),
            visual == storage.spec_visual(),
            ids@ == storage.spec_order(),
            forall|j: int| 0 <= j < ids@.len() ==> storage.spec_ids().contains(#[trigger] ids@[j].0),
            i <= ids@.len(),
            visit_roots(tree, visual, ids@, fuel) is Some,
            visit_roots(tree, visual, ids@.subrange(0, i as int), fuel) == Some(walk@),
        decreases ids@.len() - i,
    {
        proof {
            lemma_visit_roots_prefix(tree, visual, ids@, fuel, i as int + 1);
            let t = ids@.subrange(0, i + 1);
            assert(t.drop_last() =~= ids@.subrange(0, i as int));
            assert(t.last() == ids@[i as int]);
        }
        let id = ids[i];
        if storage.tree_of(id).get_parent().is_none() {
            let v = storage.visual_of(id);
            visit_into(storage, id, v.get_layer(), &mut walk, Ghost(fuel));
        }
        i = i + 1;
    }
    proof {
        assert(ids@.subrange(0, i as int) =~= ids@);
    }
    sort_by_layer(&walk)
}

/// The entries of `walk` in ascending order of layer, keeping their order
/// within a layer.
fn sort_by_layer(walk: &Vec<(usize, NodeID)>) -> (r: Vec<(usize, NodeID)>)
    ensures
        r@ == by_layer(walk@),
{
    let mut r: Vec<(usize, NodeID)> = Vec::new();
    let mut j: usize = 0;
    proof {
        assert(walk@.subrange(0, 0) =~= Seq::<(usize, NodeID)>::empty());
    }
    while j < walk.len()
        invariant
            j <= walk@.len(),
            r@ == by_layer(walk@.subrange(0, j as int)),
        decreases walk@.len() - j,
    {
        let x = walk[j];
        let mut p: usize = 0;
        while p < r.len() && r[p].0 <= x.0
            invariant
                p <= r@.len(),
                forall|k: int| 0 <= k < p ==> (#[trigger] r@[k]).0 <= x.0,
            decreases r@.len() - p,
        {
            p = p + 1;
        }
        proof {
            lemma_insert_by_layer(r@, x, p as int);
            let t = walk@.subrange(0, j + 1);
            assert(t.drop_last() =~= walk@.subrange(0, j as int));
            assert(t.last() == x);
        }
        r.insert(p, x);
        j = j + 1;
    }
    proof {
        assert(walk@.subrange(0, j as int) =~= walk@);
    }
    r
}

/// Walks from `id` for at most `fuel` levels, appending each node with its
/// layer to `output`; returns whether the walk ended.
fn visit_into_checked(
    storage: &NodeStorage,
    id: NodeID,
    parent_layer: Option<usize>,
    output: &mut Vec<(usize, NodeID)>,
    fuel: usize,
) -> (ok: bool)
    requires
        storage.wf(),
    ensures
        ok == visit(storage.spec_tree(), storage.spec_visual(), id, parent_layer, fuel as nat) is Some,
        ok ==> (visit(storage.spec_tree(), storage.spec_visual(), id, parent_layer, fuel as nat) matches Some(s)
            && final(output)@ == old(output)@ + s),
    decreases fuel,
{
    proof { storage.lemma_components(); }
    if fuel == 0 || !storage.has_node(id) {
        return false;
    }
    let v = storage.visual_of(id);
    let layer: usize = match v.get_layer() {
        Some(l) => l,
        None => match parent_layer {
            Some(p) => p,
            None => 0,
        },
    };
    let ghost start = output@;
    output.push((layer, id));
    let children = storage.tree_of(id).get_children();
    let ghost tree = storage.spec_tree();
    let ghost visual = storage.spec_visual();
    let ghost cs = children@;
    let ghost f = (fuel - 1) as nat;
    let ghost mut done: Seq<(usize, NodeID)> = Seq::empty();
    let mut i: usize = 0;
    proof {
        assert(cs.subrange(0, cs.len() as int) =~= cs);
        assert(output@ =~= start + seq![(layer, id)] + done);
        assert(done + Seq::<(usize, NodeID)>::empty() =~= done);
    }
    while i < children.len()
        invariant
            storage.wf(),
            tree == storage.spec_tree(),
            visual == storage.spec_visual(),
            cs == children@,
            cs == tree[id.0].spec_children(),
            tree.contains_key(id.0),
            visual.contains_key(id.0),
            fuel > 0,
            f == fuel - 1,
            i <= cs.len(),
            layer == node_layer(visual, id, parent_layer),
            visit_children(tree, visual, cs, layer, f) == (match visit_children(tree, visual, cs.subrange(i as int, cs.len() as int), layer, f) {
                Some(rest) => Some(done + rest),
                None => None::<Seq<(usize, NodeID)>>,
            }),
            output@ == start + seq![(layer, id)] + done,
        decreases cs.len() - i,
    {
        let ghost rest = cs.subrange(i as int, cs.len() as int);
        proof {
            assert(rest.drop_first() =~= cs.subrange(i + 1, cs.len() as int));
            assert(rest[0] == cs[i as int]);
        }
        let ok = visit_into_checked(storage, children[i], Some(layer), output, fuel - 1);
        if !ok {
            return false;
        }
        proof {
            let a = visit(tree, visual, cs[i as int], Some(layer), f)->Some_0;
            match visit_children(tree, visual, rest.drop_first(), layer, f) {
                Some(b) => {
                    assert(done + (a + b) =~= (done + a) + b);
                },
                None => {},
            }
            assert(output@ =~= start + seq![(layer, id)] + (done + a));
            done = done + a;
        }
        i = i + 1;
    }
    proof {
        assert(cs.subrange(i as int, cs.len() as int) =~= Seq::<NodeID>::empty());
        assert(done + Seq::<(usize, NodeID)>::empty() =~= done);
        assert(start + seq![(layer, id)] + done =~= start + (seq![(layer, id)] + done));
    }
    true
}

/// More fuel does not change a walk that ended.
proof fn lemma_visit_fuel(
    tree: Map<u32, NodeTree>,
    visual: Map<u32, NodeVisual>,
    id: NodeID,
    parent_layer: Option<usize>,
    f: nat,
    g: nat,
)
    requires
        visit(tree, visual, id, parent_layer, f) is Some,
        f <= g,
    ensures
        visit(tree, visual, id, parent_layer, g) == visit(tree, visual, id, parent_layer, f),
    decreases f, 0nat, 0nat,
{
    let layer = node_layer(visual, id, parent_layer);
    lemma_visit_children_fuel(tree, visual, tree[id.0].spec_children(), layer, (f - 1) as nat, (g - 1) as nat);
}

/// More fuel does not change walks from children that ended.
proof fn lemma_visit_children_fuel(
    tree: Map<u32, NodeTree>,
    visual: Map<u32, NodeVisual>,
    cs: Seq<NodeID>,
    layer: usize,
    f: nat,
    g: nat,
)
    requires
        visit_children(tree, visual, cs, layer, f) is Some,
        f <= g,
    ensures
        visit_children(tree, visual, cs, layer, g) == visit_children(tree, visual, cs, layer, f),
    decreases f, 1nat, cs.len(),
{
    if cs.len() > 0 {
        lemma_visit_fuel(tree, visual, cs[0], Some(layer), f, g);
        lemma_visit_children_fuel(tree, visual, cs.drop_first(), layer, f, g);
    }
}

/// More fuel does not change a walk from the roots that ended.
proof fn lemma_visit_roots_fuel(tree: Map<u32, NodeTree>, visual: Map<u32, NodeVisual>, ids: Seq<NodeID>, f: nat, g: nat)
    requires
        visit_roots(tree, visual, ids, f) is Some,
        f <= g,
    ensures
        visit_roots(tree, visual, ids, g) == visit_roots(tree, visual, ids, f),
    decreases ids.len(),
{
    if ids.len() > 0 {
        let id = ids.last();
        if tree.contains_key(id.0) && tree[id.0].spec_parent() is None {
            lemma_visit_roots_fuel(tree, visual, ids.drop_last(), f, g);
            lemma_visit_fuel(tree, visual, id, visual[id.0].current_state().transform.layer, f, g);
        } else {
            lemma_visit_roots_fuel(tree, visual, ids.drop_last(), f, g);
        }
    }
}

/// The drawing order, as `build_render_layers` gives it, where the walk from
/// the roots ends within as many levels as the scene has nodes; `None` where
/// it does not (the children form a cycle) or a node on it is missing.
pub fn try_build_render_layers(storage: &NodeStorage) -> (r: Option<Vec<(usize, NodeID)>>)
    requires
        storage.wf(),
    ensures
        r is Some <==> visit_roots(storage.spec_tree(), storage.spec_visual(), storage.spec_order(), storage.spec_order().len()) is Some,
        r matches Some(v) ==> {
            &&& render_terminates(*storage)
            &&& visit_roots(storage.spec_tree(), storage.spec_visual(), storage.spec_order(), storage.spec_order().len()) matches Some(s)
            &&& v@ == by_layer(s)
            &&& visit_roots(storage.spec_tree(), storage.spec_visual(), storage.spec_order(),
                    choose|f: nat| #[trigger] visit_roots(storage.spec_tree(), storage.spec_visual(), storage.spec_order(), f) is Some)
                == Some(s)
        },
{
    let ghost tree = storage.spec_tree();
    let ghost visual = storage.spec_visual();
    let ids = storage.get_nodes_id();
    let n = ids.len();
    let mut walk: Vec<(usize, NodeID)> = Vec::new();
    let mut i: usize = 0;
    proof { assert(ids@.subrange(0, 0) =~= Seq::<NodeID>::empty()); }
    while i < ids.len()
        invariant
            storage.wf(),
            tree == storage.spec_tree(),
            visual == storage.spec_visual(),
            ids@ == storage.spec_order(),
            n == ids@.len(),
            forall|j: int| 0 <= j < ids@.len() ==> storage.spec_ids().contains(#[trigger] ids@[j].0),
            i <= ids@.len(),
            visit_roots(tree, visual, ids@.subrange(0, i as int), n as nat) == Some(walk@),
        decreases ids@.len() - i,
    {
        proof {
            let t = ids@.subrange(0, i + 1);
            assert(t.drop_last() =~= ids@.subrange(0, i as int));
            assert(t.last() == ids@[i as int]);
        }
        let id = ids[i];
        if storage.tree_of(id).get_parent().is_none() {
            let v = storage.visual_of(id);
            let ok = visit_into_checked(storage, id, v.get_layer(), &mut walk, n);
            if !ok {
                proof {
                    assert(visit_roots(tree, visual, ids@.subrange(0, i + 1), n as nat) is None);
                    lemma_visit_roots_none_extends(tree, visual, ids@, n as nat, i + 1);
                }
                return None;
            }
        }
        i = i + 1;
    }
    proof {
        assert(ids@.subrange(0, i as int) =~= ids@);
        let fc = choose|f: nat| #[trigger] visit_roots(tree, visual, ids@, f) is Some;
        assert(visit_roots(tree, visual, ids@, n as nat) is Some);
        if fc <= n {
            lemma_visit_roots_fuel(tree, visual, ids@, fc, n as nat);
        } else {
            lemma_visit_roots_fuel(tree, visual, ids@, n as nat, fc);
        }
    }
    Some(sort_by_layer(&walk))
}

/// Where the walk from the roots among the first `k` nodes does not end,
/// neither does the walk from all of them.
proof fn lemma_visit_roots_none_extends(tree: Map<u32, NodeTree>, visual: Map<u32, NodeVisual>, ids: Seq<NodeID>, fuel: nat, k: int)
    requires
        0 <= k <= ids.len(),
        visit_roots(tree, visual, ids.subrange(0, k), fuel) is None,
    ensures
        visit_roots(tree, visual, ids, fuel) is None,
{
    if visit_roots(tree, visual, ids, fuel) is Some {
        lemma_visit_roots_prefix(tree, visual, ids, fuel, k);
    }
}

/// The walk from the roots among the first `n` nodes ends when the walk from
/// all of them does.
proof fn lemma_visit_roots_prefix(tree: Map<u32, NodeTree>, visual: Map<u32, NodeVisual>, ids: Seq<NodeID>, fuel: nat, n: int)
    requires
        0 <= n <= ids.len(),
        visit_roots(tree, visual, ids, fuel) is Some,
    ensures
        visit_roots(tree, visual, ids.subrange(0, n), fuel) is Some,
    decreases ids.len() - n,
{
    if n < ids.len() {
        lemma_visit_roots_prefix(tree, visual, ids, fuel, n + 1);
        let t = ids.subrange(0, n + 1);
        assert(t.drop_last() =~= ids.subrange(0, n));
    } else {
        assert(ids.subrange(0, n) =~= ids);
    }
}

} // verus!
