//! The family of a node: the node followed by the families of its children,
//! depth first, children in order.
use vstd::prelude::*;
use crate::ids::NodeID;
use std::collections::HashMap;
use crate::error::PrismaError;
use crate::scene::tree::NodeTree;

verus! {

broadcast use vstd::std_specs::hash::group_hash_axioms;

/// `Some(Ok(a + b))` when `o` is `Some(Ok(b))`, else `o`.
pub open spec fn prepend_outcome(
    a: Seq<NodeID>,
    o: Option<Result<Seq<NodeID>, NodeID>>,
) -> Option<Result<Seq<NodeID>, NodeID>> {
    match o {
        Some(Ok(b)) => Some(Ok(a + b)),
        _ => o,
    }
}

/// The family of `id` in the tree map `m`, exploring at most `fuel` levels:
/// `None` when the levels run out, `Some(Err(x))` when the walk meets `x`,
/// a node without a tree component, `Some(Ok(s))` with the family otherwise.
pub open spec fn family(m: Map<u32, NodeTree>, id: NodeID, fuel: nat) -> Option<Result<Seq<NodeID>, NodeID>>
    decreases fuel, 0nat, 0nat,
{
    if fuel == 0 {
        None
    } else if !m.contains_key(id.0) {
        Some(Err(id))
    } else {
        prepend_outcome(seq![id], children_family(m, m[id.0].spec_children(), (fuel - 1) as nat))
    }
}

/// The families of the nodes in `cs`, one after the other.
pub open spec fn children_family(m: Map<u32, NodeTree>, cs: Seq<NodeID>, fuel: nat) -> Option<Result<Seq<NodeID>, NodeID>>
    decreases fuel, 1nat, cs.len(),
{
    if cs.len() == 0 {
        Some(Ok(Seq::<NodeID>::empty()))
    } else {
        match family(m, cs[0], fuel) {
            Some(Ok(a)) => prepend_outcome(a, children_family(m, cs.drop_first(), fuel)),
            o => o,
        }
    }
}

/// The children of every node with a tree component.
pub open spec fn children_map(m: Map<u32, NodeTree>) -> Map<u32, Seq<NodeID>> {
    Map::new(|k: u32| m.contains_key(k), |k: u32| m[k].spec_children())
}

/// The family of `id` over a map of children, as `family` over tree components.
pub open spec fn family_of_children(c: Map<u32, Seq<NodeID>>, id: NodeID, fuel: nat) -> Option<Result<Seq<NodeID>, NodeID>>
    decreases fuel, 0nat, 0nat,
{
    if fuel == 0 {
        None
    } else if !c.contains_key(id.0) {
        Some(Err(id))
    } else {
        prepend_outcome(seq![id], families_of_children(c, c[id.0], (fuel - 1) as nat))
    }
}

/// The families of the nodes in `cs` over a map of children, one after the other.
pub open spec fn families_of_children(c: Map<u32, Seq<NodeID>>, cs: Seq<NodeID>, fuel: nat) -> Option<Result<Seq<NodeID>, NodeID>>
    decreases fuel, 1nat, cs.len(),
{
    if cs.len() == 0 {
        Some(Ok(Seq::<NodeID>::empty()))
    } else {
        match family_of_children(c, cs[0], fuel) {
            Some(Ok(a)) => prepend_outcome(a, families_of_children(c, cs.drop_first(), fuel)),
            o => o,
        }
    }
}

/// The family only depends on the children of the nodes.
pub proof fn lemma_family_of_children(m: Map<u32, NodeTree>, id: NodeID, fuel: nat)
    ensures
        family(m, id, fuel) == family_of_children(children_map(m), id, fuel),
    decreases fuel, 0nat, 0nat,
{
    if fuel > 0 && m.contains_key(id.0) {
        lemma_families_of_children(m, m[id.0].spec_children(), (fuel - 1) as nat);
    }
}

/// The families of several nodes only depend on the children of the nodes.
pub proof fn lemma_families_of_children(m: Map<u32, NodeTree>, cs: Seq<NodeID>, fuel: nat)
    ensures
        children_family(m, cs, fuel) == families_of_children(children_map(m), cs, fuel),
    decreases fuel, 1nat, cs.len(),
{
    if cs.len() > 0 {
        lemma_family_of_children(m, cs[0], fuel);
        lemma_families_of_children(m, cs.drop_first(), fuel);
    }
}

/// The walk from `id` ends: the node is not part of a cycle of children.
pub open spec fn family_terminates(m: Map<u32, NodeTree>, id: NodeID) -> bool {
    exists|f: nat| #[trigger] family(m, id, f) is Some
}

/// The outcome of the walk from `id` (meaningful when it terminates).
pub open spec fn family_result(m: Map<u32, NodeTree>, id: NodeID) -> Option<Result<Seq<NodeID>, NodeID>> {
    family(m, id, choose|f: nat| #[trigger] family(m, id, f) is Some)
}

pub proof fn lemma_prepend_assoc(a: Seq<NodeID>, b: Seq<NodeID>, o: Option<Result<Seq<NodeID>, NodeID>>)
    ensures
        prepend_outcome(a, prepend_outcome(b, o)) == prepend_outcome(a + b, o),
{
    match o {
        Some(Ok(c)) => {
            assert(a + (b + c) =~= (a + b) + c);
        },
        _ => {},
    }
}

pub proof fn lemma_prepend_empty(o: Option<Result<Seq<NodeID>, NodeID>>)
    ensures
        prepend_outcome(Seq::<NodeID>::empty(), o) == o,
{
    match o {
        Some(Ok(c)) => {
            assert(Seq::<NodeID>::empty() + c =~= c);
        },
        _ => {},
    }
}

/// Once the walk from `id` ends within `f` levels, more levels change nothing.
pub proof fn lemma_family_fuel(m: Map<u32, NodeTree>, id: NodeID, f: nat, g: nat)
    requires
        family(m, id, f) is Some,
        f <= g,
    ensures
        family(m, id, g) == family(m, id, f),
    decreases f, 0nat, 0nat,
{
    if f > 0 && m.contains_key(id.0) {
        lemma_children_family_fuel(m, m[id.0].spec_children(), (f - 1) as nat, (g - 1) as nat);
    }
}

/// Once the walks from `cs` end within `f` levels, more levels change nothing.
pub proof fn lemma_children_family_fuel(m: Map<u32, NodeTree>, cs: Seq<NodeID>, f: nat, g: nat)
    requires
        children_family(m, cs, f) is Some,
        f <= g,
    ensures
        children_family(m, cs, g) == children_family(m, cs, f),
    decreases f, 1nat, cs.len(),
{
    if cs.len() > 0 {
        lemma_family_fuel(m, cs[0], f, g);
        if family(m, cs[0], f) matches Some(Ok(_)) {
            lemma_children_family_fuel(m, cs.drop_first(), f, g);
        }
    }
}

/// The outcome of a walk that ends within `f` levels is the walk's outcome.
pub proof fn lemma_family_result(m: Map<u32, NodeTree>, id: NodeID, f: nat)
    requires
        family(m, id, f) is Some,
    ensures
        family_terminates(m, id),
        family_result(m, id) == family(m, id, f),
{
    let c = choose|x: nat| #[trigger] family(m, id, x) is Some;
    if c <= f {
        lemma_family_fuel(m, id, c, f);
    } else {
        lemma_family_fuel(m, id, f, c);
    }
}

/// Appends `id` and its descendants, depth first, to `output`.
///
/// Returns [`PrismaError::NodeComponentNotFound`] with the first node met
/// without a tree component.
pub(crate) fn collect_family(tree: &HashMap<u32, NodeTree>, id: NodeID, output: &mut Vec<NodeID>, Ghost(fuel): Ghost<nat>) -> (r: Result<(), PrismaError>)
    requires
        family(tree@, id, fuel) is Some,
    ensures
        family(tree@, id, fuel) matches Some(Ok(s)) ==> r is Ok && final(output)@ == old(output)@ + s,
        family(tree@, id, fuel) matches Some(Err(e)) ==> r == Err::<(), PrismaError>(PrismaError::NodeComponentNotFound(e)),
    decreases fuel,
{
    output.push(id);
    let t = match tree.get(&id.0) {
        Some(t) => t,
        None => { return Err(PrismaError::NodeComponentNotFound(id)); },
    };
    let children = t.get_children();
    let ghost m = tree@;
    let ghost cs = children@;
    let ghost f = (fuel - 1) as nat;
    let ghost start = old(output)@;
    let mut i: usize = 0;
    let ghost mut done: Seq<NodeID> = Seq::empty();
    proof {
        assert(cs.subrange(0, cs.len() as int) =~= cs);
        lemma_prepend_empty(children_family(m, cs, f));
        assert(output@ =~= start + seq![id] + done);
    }
    while i < children.len()
        invariant
                m == tree@,
            cs == children@,
            cs == m[id.0].spec_children(),
            m.contains_key(id.0),
            fuel > 0,
            f == fuel - 1,
            i <= cs.len(),
            family(m, id, fuel) is Some,
            children_family(m, cs, f) == prepend_outcome(done, children_family(m, cs.subrange(i as int, cs.len() as int), f)),
            output@ == start + seq![id] + done,
        decreases cs.len() - i,
    {
        let ghost rest = cs.subrange(i as int, cs.len() as int);
        assert(rest.drop_first() =~= cs.subrange(i + 1, cs.len() as int));
        assert(rest[0] == cs[i as int]);
        let ghost before = output@;
        let sub = collect_family(tree, children[i], output, Ghost(f));
        match sub {
            Err(e) => {
                return Err(e);
            },
            Ok(()) => {
                proof {
                    let a = family(m, cs[i as int], f)->Some_0->Ok_0;
                    assert(family(m, rest[0], f) == Some(Ok::<Seq<NodeID>, NodeID>(a)));
                    assert(children_family(m, rest, f) == prepend_outcome(a, children_family(m, rest.drop_first(), f)));
                    lemma_prepend_assoc(done, a, children_family(m, rest.drop_first(), f));
                    assert(output@ =~= start + seq![id] + (done + a));
                    done = done + a;
                }
            }
        }
        i = i + 1;
    }
    proof {
        assert(cs.subrange(i as int, cs.len() as int) =~= Seq::<NodeID>::empty());
        assert(done + Seq::<NodeID>::empty() =~= done);
        assert(start + seq![id] + done =~= start + (seq![id] + done));
    }
    Ok(())
}


} // verus!
