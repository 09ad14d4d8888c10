use prismae::error::PrismaError;
use prismae::ids::{EventCallbackID, NodeID};
use prismae::scene::components::{NodeAction, NodeActionType, Rect, Style as FlatStyle};
use prismae::scene::node_style::NodeStyle;
use prismae::scene::queue::NodeQueue;
use prismae::scene::action::{ActionOrigin, ActionType, NodeTreeAction, StyleAction};
use prismae::scene::tree::NodeTree;
use prismae::scene::visual::{CurrentVisualState, NodeVisual, Transform as VisualTransform};
use prismae::util::{Color, Position, Scale, Size, UNIT_SCALE_BITS};

#[test]
fn color_constructors() {
    assert_eq!(Color::rgb(1, 2, 3), Color { r: 1, g: 2, b: 3, a: 255 });
    assert_eq!(Color::rgba(1, 2, 3, 4), Color { r: 1, g: 2, b: 3, a: 4 });
    assert_eq!(Color::transparent(), Color { r: 0, g: 0, b: 0, a: 0 });
    assert_eq!(Color::white(), Color { r: 255, g: 255, b: 255, a: 255 });
    assert_eq!(Color::black(), Color { r: 0, g: 0, b: 0, a: 255 });
    assert_eq!(Color::red(), Color { r: 255, g: 0, b: 0, a: 255 });
    assert_eq!(Color::orange(), Color { r: 255, g: 165, b: 0, a: 255 });
    assert_eq!(Color::yellow(), Color { r: 255, g: 255, b: 0, a: 255 });
}

#[test]
fn position_size_scale_defaults() {
    assert_eq!(Position::new(), Position { x: 0, y: 0 });
    assert_eq!(Position { x: 3, y: -4 }.add(Position { x: 10, y: 20 }), Position { x: 13, y: 16 });
    assert_eq!(Size::new(), Size { width: 0, height: 0 });
    assert_eq!(Scale::new(), Scale { x: UNIT_SCALE_BITS, y: UNIT_SCALE_BITS });
    assert_eq!(f32::from_bits(UNIT_SCALE_BITS), 1.0f32);
}

#[test]
fn identifiers_count_up_and_wrap() {
    let mut counter: u32 = 7;
    assert_eq!(NodeID::next(&mut counter), NodeID(7));
    assert_eq!(counter, 8);
    let mut last: u32 = u32::MAX;
    assert_eq!(EventCallbackID::next(&mut last), EventCallbackID(u32::MAX));
    assert_eq!(last, 0);
    assert_eq!(NodeID::id(5).value(), 5);
    assert_eq!(EventCallbackID::id(9), EventCallbackID(9));
}

#[test]
fn visual_change_in_normal_reaches_every_state() {
    let mut v = NodeVisual::new();
    v.set_color(Color::red());
    assert_eq!(v.normal.style.color, Color::red());
    assert_eq!(v.hover.style.color, Color::red());
    assert_eq!(v.active.style.color, Color::red());
    assert_eq!(v.get_color(), Color::red());
}

#[test]
fn visual_change_in_hover_leaves_normal() {
    let mut v = NodeVisual::new();
    v.set_hover();
    v.set_size(30, 40);
    assert_eq!(v.normal.style.size, Size { width: 0, height: 0 });
    assert_eq!(v.hover.style.size, Size { width: 30, height: 40 });
    assert_eq!(v.active.style.size, Size { width: 30, height: 40 });
    v.set_active();
    v.set_layer(3);
    assert_eq!(v.get_layer(), Some(3));
    assert_eq!(v.hover.transform.layer, None);
    v.set_normal();
    assert_eq!(v.current, CurrentVisualState::Normal);
    assert_eq!(v.get_size(), Size { width: 0, height: 0 });
}

#[test]
fn visual_timer_set_and_cleared() {
    let mut v = NodeVisual::new();
    v.set_timer(250, 1000);
    assert_eq!(v.get_timer(), Some(250));
    assert_eq!(v.get_timer_start(), Some(1000));
    v.clear_timer();
    assert_eq!(v.get_timer(), None);
    assert_eq!(v.get_timer_start(), None);
}

#[test]
fn tree_children_unique_and_removed() {
    let mut t = NodeTree::new();
    assert_eq!(t.get_parent(), None);
    t.add_child(NodeID(1));
    t.add_child(NodeID(2));
    t.add_child(NodeID(1));
    assert_eq!(t.get_children(), vec![NodeID(1), NodeID(2)]);
    assert!(t.has_child(NodeID(2)));
    t.remove_child(NodeID(1));
    assert_eq!(t.get_children(), vec![NodeID(2)]);
    t.remove_child(NodeID(9));
    assert_eq!(t.get_children(), vec![NodeID(2)]);
    t.set_parent(Some(NodeID(4)));
    assert_eq!(t.get_parent(), Some(NodeID(4)));
}

#[test]
fn queue_is_first_in_first_out() {
    let mut q = NodeQueue::new();
    q.push_back_style(StyleAction::Layer { layer: 1 }, ActionOrigin::Code);
    q.push_back_style(StyleAction::Layer { layer: 2 }, ActionOrigin::Event);
    q.push_front_style(StyleAction::Layer { layer: 0 }, ActionOrigin::Visual);
    q.push_back_tree(NodeTreeAction::AddChild { child: NodeID(3) }, ActionOrigin::Code);
    assert_eq!(q.len_of(ActionType::Style), 3);
    assert_eq!(q.len_of(ActionType::NodeTree), 1);
    assert_eq!(q.len_of(ActionType::EventListener), 0);
    assert_eq!(q.pop_front_style(), Some(StyleAction::Layer { layer: 0 }));
    assert_eq!(q.pop_front_style(), Some(StyleAction::Layer { layer: 1 }));
    assert_eq!(q.take_style(), vec![StyleAction::Layer { layer: 2 }]);
    assert_eq!(q.pop_front_style(), None);
    assert_eq!(q.pop_front_tree(), Some(NodeTreeAction::AddChild { child: NodeID(3) }));
    assert_eq!(q.pop_front_tree(), None);
}

#[test]
fn node_style_fusion_and_timer() {
    let mut s = NodeStyle::new();
    s.set_color(Color::yellow());
    s.set_hover();
    s.set_border_radius(8);
    assert_eq!(s.get_border_radius(), 8);
    assert_eq!(s.normal.border_radius, 0);
    assert_eq!(s.active.border_radius, 8);
    assert_eq!(s.get_color(), Color::yellow());
    s.set_timer(100, 5);
    assert_eq!(s.get_timer(), Some(100));
    assert_eq!(s.get_timer_start(), Some(5));
    assert_eq!(s.active.timer, None);
    s.clear_timer();
    assert_eq!(s.get_timer(), None);
    s.set_active();
    s.set_size(Size { width: 7, height: 9 });
    assert_eq!(s.get_size(), Size { width: 7, height: 9 });
    assert_eq!(s.hover.size, Size { width: 0, height: 0 });
    s.set_normal();
    assert_eq!(s.get_size(), Size { width: 0, height: 0 });
}

#[test]
fn components_defaults() {
    let mut r = Rect::new();
    assert_eq!(r.get_size(), (0, 0));
    r.size(12, 34);
    assert_eq!(r.get_size(), (12, 34));
    let s = FlatStyle::new();
    assert_eq!(s.color, Color::rgba(0, 0, 0, 0));
    assert_eq!(s.border_radius, 0);
    assert_eq!(s.size, (50, 50));
    assert_eq!(NodeAction::Wait { duration: 10 }.get_type(), NodeActionType::Wait);
    assert_eq!(NodeAction::Scale { x: 1, y: 2 }.get_type(), NodeActionType::Scale);
}

#[test]
fn errors_compare() {
    assert_eq!(PrismaError::NodeNotFound(NodeID(3)), PrismaError::NodeNotFound(NodeID(3)));
    assert_ne!(PrismaError::NodeNotFound(NodeID(3)), PrismaError::NodeComponentNotFound(NodeID(3)));
}

#[test]
fn tree_children_follow_the_last_add_or_remove() {
    let mut t = NodeTree::new();
    t.add_child(NodeID(1));
    t.add_child(NodeID(2));
    t.add_child(NodeID(1));
    t.remove_child(NodeID(1));
    t.add_child(NodeID(3));
    t.add_child(NodeID(1));
    t.set_parent(Some(NodeID(9)));
    assert_eq!(t.get_children(), vec![NodeID(2), NodeID(3), NodeID(1)]);
    assert_eq!(t.get_parent(), Some(NodeID(9)));
}

#[test]
fn transforms_compose_positions_and_layers() {
    let mut a = VisualTransform::new();
    a.position = Position { x: 3, y: 4 };
    a.layer = Some(2);
    a.position_absolute = true;
    let mut b = VisualTransform::new();
    b.position = Position { x: 10, y: -1 };
    let c = a.compose(&b, 7, Scale { x: 8, y: 9 }).unwrap();
    assert_eq!(c.position, Position { x: 13, y: 3 });
    assert_eq!(c.layer, Some(2));
    assert!(c.position_absolute);
    assert_eq!((c.rotation, c.scale), (7, Scale { x: 8, y: 9 }));
    b.layer = Some(5);
    assert_eq!(a.compose(&b, 0, Scale { x: 0, y: 0 }).unwrap().layer, Some(5));
    b.position = Position { x: i32::MAX, y: 0 };
    assert!(a.compose(&b, 0, Scale { x: 0, y: 0 }).is_none());
}
