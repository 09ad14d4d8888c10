use prismae::error::PrismaError;
use prismae::event::event_manager::CloseRequest;
use prismae::event::EventType;
use prismae::event::MouseEventType;
use prismae::ids::NodeID;
use prismae::render::{build_render_layers, try_build_render_layers};
use prismae::scene::action::{ActionOrigin, ActionType};
use prismae::scene::scene::{PendingNodesHandler, CloseHandler, Scene};
use prismae::scene::storage::NodeStorage;
use prismae::scene::node_view::NodeView;
use prismae::scene::style_view::StyleView;
use prismae::event::event_manager::EventManager;
use prismae::util::{Color, Position, Size};

#[test]
fn storage_creates_and_destroys_nodes() {
    let mut st = NodeStorage::new();
    let a = st.insert_new_node();
    let b = st.insert_new_node();
    assert_eq!(a, NodeID(0));
    assert_eq!(b, NodeID(1));
    assert!(st.has_node(a));
    assert_eq!(st.get_nodes_id(), vec![a, b]);
    assert_eq!(st.destroy_node(a), Ok(()));
    assert!(!st.has_node(a));
    assert_eq!(st.destroy_node(a), Err(PrismaError::NodeNotFound(a)));
    assert_eq!(st.get_nodes_id(), vec![b]);
    assert!(st.get_tree(a).is_err());
    assert_eq!(st.get_visual(NodeID(9)), Err(PrismaError::NodeComponentNotFound(NodeID(9))));
}

#[test]
fn family_is_depth_first() {
    let mut st = NodeStorage::new();
    let root = st.insert_new_node();
    let c1 = st.insert_new_node();
    let c2 = st.insert_new_node();
    let g = st.insert_new_node();
    st.tree_add_child(root, c1);
    st.tree_add_child(root, c2);
    st.tree_add_child(c1, g);
    assert_eq!(st.get_family(root), Ok(vec![root, c1, g, c2]));
    assert_eq!(st.get_family(c2), Ok(vec![c2]));
    st.tree_add_child(c2, NodeID(42));
    assert_eq!(st.get_family(root), Err(PrismaError::NodeComponentNotFound(NodeID(42))));
    assert_eq!(st.family_within(root, 10), Some(Some(NodeID(42))));
    assert_eq!(st.family_within(c1, 10), Some(None));
    assert_eq!(st.family_within(c1, 1), None);
}

#[test]
fn node_view_add_child_checks() {
    let mut st = NodeStorage::new();
    let a = st.insert_new_node();
    let b = st.insert_new_node();
    let mut v = NodeView::new(a, &mut st, ActionOrigin::Code).unwrap();
    assert!(matches!(v.add_child(NodeID(77)), Err(PrismaError::NodeNotFound(NodeID(77)))));
    assert!(matches!(v.add_child(a), Err(PrismaError::InvalidTree(x, y)) if x == a && y == a));
    assert!(v.add_child(b).is_ok());
    assert!(matches!(v.remove_child(NodeID(5)), Err(PrismaError::NodeNotFound(NodeID(5)))));
    drop(v);
    assert_eq!(st.get_queue(a).unwrap().len_of(ActionType::NodeTree), 1);
    assert_eq!(st.get_queue(b).unwrap().len_of(ActionType::NodeTree), 1);
    assert!(matches!(NodeView::new(NodeID(9), &mut st, ActionOrigin::Code), Err(PrismaError::NodeNotFound(NodeID(9)))));
}

#[test]
fn style_view_queues_actions() {
    let mut st = NodeStorage::new();
    let a = st.insert_new_node();
    let mut s = StyleView::new(&mut st, a, ActionOrigin::Visual);
    s.bg_color(Color::red()).size(10, 20).wait(5).layer(2);
    drop(s);
    assert_eq!(st.get_queue(a).unwrap().len_of(ActionType::Style), 4);
}

#[test]
fn absolute_position_follows_parents() {
    let mut scene = Scene::new();
    let parent = scene.new_node().get_id();
    let child = scene.new_node().get_id();
    scene.get_node(parent).unwrap().position(10, 20).add_child(child).unwrap();
    scene.get_node(child).unwrap().position(1, 2);
    assert!(scene.begin_lifecycle(0).is_ok());
    let mut c = scene.get_node(child).unwrap();
    assert_eq!(c.get_parent(), Some(parent));
    assert_eq!(c.get_relative_position(), Position { x: 1, y: 2 });
    assert_eq!(c.get_absolute_position(), Position { x: 11, y: 22 });
    assert_eq!(c.try_absolute_position(), Some(Position { x: 11, y: 22 }));
    drop(c);
    scene.get_node(child).unwrap().position_absolute();
    assert!(scene.begin_lifecycle(1).is_ok());
    assert_eq!(scene.get_node(child).unwrap().get_absolute_position(), Position { x: 1, y: 2 });
}

#[test]
fn scene_background_is_opaque() {
    let mut scene = Scene::new();
    assert_eq!(scene.get_bg_color(), Color::white());
    scene.bg_color(Color::rgba(1, 2, 3, 4));
    assert_eq!(scene.get_bg_color(), Color::rgb(1, 2, 3));
    assert!(!scene.is_quitting());
}

#[test]
fn scene_applies_style_actions_each_frame() {
    let mut scene = Scene::new();
    let id = scene.new_node().get_id();
    scene.get_node(id).unwrap().bg_color(Color::red()).size(30, 40).border_radius(6);
    assert!(scene.contains(id));
    assert!(!scene.contains(NodeID(99)));
    let (added, destroyed) = scene.begin_lifecycle(0).unwrap();
    assert!(added.is_empty());
    assert!(destroyed.is_empty());
    let v = scene.get_node(id).unwrap().get_visual();
    assert_eq!(v.get_color(), Color::red());
    assert_eq!(v.get_size(), Size { width: 30, height: 40 });
    assert_eq!(v.get_border_radius(), 6);
}

#[test]
fn wait_holds_back_later_actions_until_it_ends() {
    let mut scene = Scene::new();
    let id = scene.new_node().get_id();
    scene.get_node(id).unwrap().bg_color(Color::red()).wait(100).bg_color(Color::yellow());
    scene.begin_lifecycle(1000).unwrap();
    assert_eq!(scene.get_node(id).unwrap().get_visual().get_color(), Color::red());
    scene.begin_lifecycle(1050).unwrap();
    assert_eq!(scene.get_node(id).unwrap().get_visual().get_color(), Color::red());
    scene.begin_lifecycle(1100).unwrap();
    let v = scene.get_node(id).unwrap().get_visual();
    assert_eq!(v.get_color(), Color::yellow());
    assert_eq!(v.get_timer(), None);
}

#[test]
fn destroying_a_parent_destroys_its_family() {
    let mut scene = Scene::new();
    let parent = scene.new_node().get_id();
    let child = scene.new_node().get_id();
    let other = scene.new_node().get_id();
    scene.get_node(parent).unwrap().add_child(child).unwrap();
    scene.begin_lifecycle(0).unwrap();
    scene.get_node(parent).unwrap().destroy();
    let (_, destroyed) = scene.begin_lifecycle(1).unwrap();
    assert_eq!(destroyed, vec![parent, child]);
    assert_eq!(scene.destroy_nodes(destroyed), Ok(()));
    assert_eq!(scene.get_nodes_id(), vec![other]);
    assert_eq!(scene.destroy_nodes(vec![parent]), Err(PrismaError::NodeNotFound(parent)));
}

#[test]
fn node_listeners_are_registered_by_the_frame() {
    let mut scene = Scene::new();
    let id = scene.new_node().get_id();
    scene.get_node(id).unwrap().on_event(EventType::Mouse(MouseEventType::Click));
    let (added, _) = scene.begin_lifecycle(0).unwrap();
    assert_eq!(added.len(), 1);
    assert_eq!(added[0].0, id);
    let cid = added[0].1;
    scene.get_node(id).unwrap().off_event(cid);
    let (added2, _) = scene.begin_lifecycle(1).unwrap();
    assert!(added2.is_empty());
    let scene_listener = scene.on_event(EventType::Quit);
    assert_eq!(scene_listener.0, cid.0 + 1);
}

#[test]
fn close_request_quits_when_due() {
    let mut scene = Scene::new();
    let id = scene.new_node().get_id();
    scene.end_dispatch(vec![], vec![], Some(CloseRequest { duration: 100, requested_at: 10 }), false, 50);
    assert!(!scene.is_quitting());
    scene.end_dispatch(vec![], vec![], None, false, 110);
    assert!(scene.is_quitting());
    assert!(scene.get_node(id).unwrap().get_node_state().destruction_requested);
}

#[test]
fn cancelled_close_request_never_quits() {
    let mut scene = Scene::new();
    scene.end_dispatch(vec![], vec![], Some(CloseRequest { duration: 100, requested_at: 0 }), true, 10);
    scene.end_dispatch(vec![], vec![], None, false, 1000);
    assert!(!scene.is_quitting());
}

#[test]
fn pending_nodes_handler_keeps_order() {
    let mut h = PendingNodesHandler::new();
    h.push_created(NodeID(1));
    h.push_destroyed(NodeID(2));
    h.extend_pending(vec![NodeID(3)], vec![NodeID(4)]);
    assert!(h.destroyed_contains(NodeID(4)));
    assert!(!h.destroyed_contains(NodeID(1)));
    assert_eq!(h.take_created(), vec![NodeID(1), NodeID(3)]);
    assert_eq!(h.take_created(), vec![]);
    assert_eq!(h.take_destroyed(), vec![NodeID(2), NodeID(4)]);
}

#[test]
fn close_handler_announces_and_quits() {
    let mut h = CloseHandler::new();
    let mut em = EventManager::new();
    let quit = h.handle_close(Some(CloseRequest { duration: 0, requested_at: 5 }), false, 5, &mut em);
    assert!(quit);
    let quit_again = h.handle_close(None, true, 6, &mut em);
    assert!(quit_again);
}

#[test]
fn render_order_by_layer_then_walk() {
    let mut scene = Scene::new();
    let a = scene.new_node().get_id();
    let b = scene.new_node().get_id();
    let c = scene.new_node().get_id();
    scene.get_node(a).unwrap().layer(2).add_child(c).unwrap();
    scene.get_node(b).unwrap().layer(1);
    scene.begin_lifecycle(0).unwrap();
    let order = build_render_layers(scene.storage());
    assert_eq!(order, vec![(1, b), (2, a), (2, c)]);
    assert_eq!(try_build_render_layers(scene.storage()), Some(vec![(1, b), (2, a), (2, c)]));
}

#[test]
fn removing_a_child_unlinks_both_nodes() {
    let mut scene = Scene::new();
    let parent = scene.new_node().get_id();
    let child = scene.new_node().get_id();
    scene.get_node(parent).unwrap().add_child(child).unwrap();
    scene.begin_lifecycle(0).unwrap();
    assert_eq!(scene.get_node(parent).unwrap().get_children(), vec![child]);
    scene.get_node(parent).unwrap().remove_child(child).unwrap();
    scene.begin_lifecycle(1).unwrap();
    assert_eq!(scene.get_node(parent).unwrap().get_children(), vec![]);
    assert_eq!(scene.get_node(child).unwrap().get_parent(), None);
}

#[test]
fn a_node_in_two_destroyed_families_is_listed_once() {
    let mut scene = Scene::new();
    let parent = scene.new_node().get_id();
    let child = scene.new_node().get_id();
    scene.get_node(parent).unwrap().add_child(child).unwrap();
    scene.begin_lifecycle(0).unwrap();
    scene.get_node(parent).unwrap().destroy();
    scene.get_node(child).unwrap().destroy();
    let (_, destroyed) = scene.begin_lifecycle(1).unwrap();
    assert_eq!(destroyed, vec![parent, child]);
}

#[test]
fn scene_listener_is_removed_by_its_identifier() {
    let mut scene = Scene::new();
    let a = scene.on_event(EventType::Quit);
    let b = scene.on_event(EventType::Quit);
    {
        let (_, events) = scene.dispatch_parts();
        assert_eq!(events.scene_listeners_for(EventType::Quit), vec![a, b]);
    }
    scene.off_event(a);
    let (_, events) = scene.dispatch_parts();
    assert_eq!(events.scene_listeners_for(EventType::Quit), vec![b]);
}

#[test]
fn one_style_frame_on_a_new_node_stops_at_the_wait() {
    let mut scene = Scene::new();
    let id = scene.new_node().get_id();
    scene.get_node(id).unwrap().bg_color(Color::rgb(255, 0, 0)).size(10, 20).wait(1000).bg_color(Color::rgb(0, 0, 255));
    scene.process_node_style_actions(id, 0);
    let v = scene.get_node(id).unwrap().get_visual();
    assert_eq!(v.get_color(), Color::rgb(255, 0, 0));
    assert_eq!(v.get_size(), Size { width: 10, height: 20 });
    assert_eq!(v.get_timer(), Some(1000));
    let storage = scene.storage();
    assert!(storage.queue_pop_style_action(id).is_some());
    assert!(storage.queue_pop_style_action(id).is_none());
}
