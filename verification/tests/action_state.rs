use std::collections::HashMap;
use prismae::error::PrismaError;
use prismae::event::event_manager::EventManager;
use prismae::ids::NodeID;
use prismae::scene::action_state::{process_node_actions, ActionNode, ActionSet, ActionState};
use prismae::scene::components::{NodeAction, Transform};
use prismae::util::{Color, Position, UNIT_SCALE_BITS};

#[test]
fn action_set_keeps_one_action_per_kind() {
    let mut s = ActionSet::new();
    s.insert(NodeAction::Layer { layer: 1 });
    s.insert(NodeAction::BGColor { color: Color::red() });
    s.insert(NodeAction::Layer { layer: 4 });
    assert_eq!(s.values(), vec![NodeAction::BGColor { color: Color::red() }, NodeAction::Layer { layer: 4 }]);
    let mut st = ActionState::new();
    st.on_hover(&[NodeAction::Size { width: 1, height: 2 }]).on_active(&[NodeAction::Layer { layer: 9 }]);
    assert_eq!(st.on_hover.size, Some(NodeAction::Size { width: 1, height: 2 }));
    assert_eq!(st.on_active.layer, Some(NodeAction::Layer { layer: 9 }));
}

#[test]
fn queued_action_is_kept_then_applied() {
    let mut n = ActionNode::new();
    n.push_action(NodeAction::BGColor { color: Color::red() });
    n.push_action(NodeAction::Position { position: Some(Position { x: 3, y: 4 }), absolute: Some(true) });
    let mut nodes: HashMap<u32, ActionNode> = HashMap::new();
    nodes.insert(0, n);
    let ids = vec![NodeID(0)];
    let em = EventManager::new();
    assert_eq!(process_node_actions(&mut nodes, &ids, &em, 0), Ok(()));
    assert_eq!(nodes[&0].style.color, Color::rgba(0, 0, 0, 0));
    assert_eq!(process_node_actions(&mut nodes, &ids, &em, 1), Ok(()));
    assert_eq!(nodes[&0].style.color, Color::red());
    assert_eq!(process_node_actions(&mut nodes, &ids, &em, 2), Ok(()));
    let t = nodes[&0].transform;
    assert_eq!((t.position, t.position_absolute), (Position { x: 3, y: 4 }, true));
}

#[test]
fn a_wait_stops_the_frame() {
    let mut n = ActionNode::new();
    n.push_action(NodeAction::Wait { duration: 100 });
    n.push_action(NodeAction::Layer { layer: 2 });
    let mut nodes: HashMap<u32, ActionNode> = HashMap::new();
    nodes.insert(0, n);
    let ids = vec![NodeID(0)];
    let em = EventManager::new();
    process_node_actions(&mut nodes, &ids, &em, 10).unwrap();
    process_node_actions(&mut nodes, &ids, &em, 20).unwrap();
    assert_eq!(nodes[&0].state.waiting_until, Some(120));
    assert_eq!(nodes[&0].state.og_state.layer, None);
}

#[test]
fn missing_node_is_reported() {
    let mut nodes: HashMap<u32, ActionNode> = HashMap::new();
    let em = EventManager::new();
    assert_eq!(process_node_actions(&mut nodes, &vec![NodeID(5)], &em, 0), Err(PrismaError::NodeNotFound(NodeID(5))));
    let t = Transform::new();
    assert_eq!(t.scale, (UNIT_SCALE_BITS, UNIT_SCALE_BITS));
}
