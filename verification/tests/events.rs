use prismae::event::context::{ContextAction, EventContext};
use prismae::event::dispatch::{hit_test, plan_deliveries, propagation_target, top_hit, Delivery};
use prismae::event::event_manager::{needs_hit_test, reaches_all_nodes, CloseRequest, EventManager, PropagationState};
use prismae::event::lifecycle_manager::LifecycleManager;
use prismae::event::mouse_manager::{MouseInput, MouseManager};
use prismae::event::window_manager::{WindowInput, WindowManager};
use prismae::event::{Event, EventKind, EventType, LifecycleEvent, LifecycleEventType, MouseButton, MouseEvent, MouseEventType, WindowEvent, WindowEventType};
use prismae::error::PrismaError;
use prismae::ids::{EventCallbackID, NodeID};
use prismae::scene::storage::NodeStorage;

#[test]
fn bubbling_table() {
    assert!(EventType::Mouse(MouseEventType::MouseDown).bubbles_by_default());
    assert!(EventType::Mouse(MouseEventType::MouseUp).bubbles_by_default());
    assert!(EventType::Mouse(MouseEventType::Click).bubbles_by_default());
    assert!(!EventType::Mouse(MouseEventType::MouseMove).bubbles_by_default());
    assert!(!EventType::Mouse(MouseEventType::Enter).bubbles_by_default());
    assert!(!EventType::Lifecycle(LifecycleEventType::Update).bubbles_by_default());
    assert!(!EventType::Window(WindowEventType::Resized).bubbles_by_default());
    assert!(!EventType::Quit.bubbles_by_default());
    assert_eq!(EventType::Quit.get_kind(), EventKind::Quit);
    assert_eq!(Event::Window { event: WindowEvent::CloseRequest }.get_type(), EventType::Window(WindowEventType::CloseRequest));
    assert_eq!(Event::Mouse { event: MouseEvent::Click { x: 1, y: 1, mouse_btn: MouseButton::Left } }.get_kind(), EventKind::Mouse);
    assert_eq!(LifecycleEvent::Creation { target: NodeID(1) }.event_type(), LifecycleEventType::Creation);
}

#[test]
fn propagation_decisions() {
    let click = EventType::Mouse(MouseEventType::Click);
    let moved = EventType::Mouse(MouseEventType::MouseMove);
    assert_eq!(propagation_target(Some(NodeID(1)), PropagationState::Unset, click), Some(NodeID(1)));
    assert_eq!(propagation_target(Some(NodeID(1)), PropagationState::Unset, moved), None);
    assert_eq!(propagation_target(Some(NodeID(1)), PropagationState::Bubble, moved), Some(NodeID(1)));
    assert_eq!(propagation_target(Some(NodeID(1)), PropagationState::Stopped, click), None);
    assert_eq!(propagation_target(None, PropagationState::Bubble, click), None);
}

#[test]
fn hit_test_orders_by_layer_then_id() {
    let hits = vec![(NodeID(5), 1), (NodeID(2), 3), (NodeID(9), 1), (NodeID(1), 3)];
    assert_eq!(hit_test(&hits), vec![(NodeID(5), 1), (NodeID(9), 1), (NodeID(1), 3), (NodeID(2), 3)]);
    assert_eq!(top_hit(&hits), Some(NodeID(2)));
    assert_eq!(top_hit(&vec![]), None);
}

#[test]
fn lifecycle_manager_queues_in_order() {
    let mut m = LifecycleManager::new();
    m.handle_creation(NodeID(1));
    m.handle_update(NodeID(2));
    m.handle_destruction(NodeID(3));
    assert_eq!(m.take_events(), vec![
        LifecycleEvent::Creation { target: NodeID(1) },
        LifecycleEvent::Update { target: NodeID(2) },
        LifecycleEvent::Destruction { target: NodeID(3) },
    ]);
    assert_eq!(m.take_events(), vec![]);
}

#[test]
fn window_manager_turns_input_into_events() {
    let mut w = WindowManager::new();
    w.handle_sdl_event(WindowInput::Resized { window_id: 1, width: 640, height: 480 });
    w.handle_sdl_event(WindowInput::Other);
    w.handle_sdl_event(WindowInput::CloseRequested { window_id: 1 });
    assert_eq!(w.take_events(), vec![WindowEvent::Resized { width: 640, height: 480 }, WindowEvent::CloseRequest]);
}

#[test]
fn mouse_press_and_release_is_a_click() {
    let mut m = MouseManager::new();
    m.handle_sdl_event(MouseInput::ButtonDown { button: MouseButton::Left, x: 10, y: 10 });
    m.handle_sdl_event(MouseInput::ButtonUp { button: MouseButton::Left, x: 12, y: 10 });
    assert_eq!(m.take_events(), vec![
        MouseEvent::MouseDown { x: 10, y: 10, mouse_btn: MouseButton::Left },
        MouseEvent::MouseUp { x: 12, y: 10, mouse_btn: MouseButton::Left },
        MouseEvent::Click { x: 12, y: 10, mouse_btn: MouseButton::Left },
    ]);
}

#[test]
fn mouse_drag_starts_beyond_tolerance() {
    let mut m = MouseManager::new();
    m.handle_sdl_event(MouseInput::ButtonDown { button: MouseButton::Left, x: 0, y: 0 });
    m.handle_sdl_event(MouseInput::Motion { x: 3, y: 4 });
    m.handle_sdl_event(MouseInput::Motion { x: 6, y: 0 });
    m.handle_sdl_event(MouseInput::Motion { x: 7, y: 0 });
    m.handle_sdl_event(MouseInput::ButtonUp { button: MouseButton::Left, x: 7, y: 0 });
    assert_eq!(m.take_events(), vec![
        MouseEvent::MouseDown { x: 0, y: 0, mouse_btn: MouseButton::Left },
        MouseEvent::MouseMove { x: 3, y: 4 },
        MouseEvent::MouseMove { x: 6, y: 0 },
        MouseEvent::DragStart { x: 0, y: 0, mouse_btn: MouseButton::Left },
        MouseEvent::MouseMove { x: 7, y: 0 },
        MouseEvent::Drag { x: 7, y: 0, mouse_btn: MouseButton::Left },
        MouseEvent::MouseUp { x: 7, y: 0, mouse_btn: MouseButton::Left },
        MouseEvent::DragEnd { x: 7, y: 0, mouse_btn: MouseButton::Left },
    ]);
}

#[test]
fn registry_add_list_remove() {
    let mut em = EventManager::new();
    let a = em.add_node_event_listener(NodeID(1), EventType::Quit);
    let b = em.add_node_event_listener(NodeID(1), EventType::Quit);
    let c = em.add_node_event_listener(NodeID(2), EventType::Quit);
    let s = em.add_scene_event_listener(EventType::Quit);
    assert_eq!((a, b, c, s), (EventCallbackID(0), EventCallbackID(1), EventCallbackID(2), EventCallbackID(3)));
    assert_eq!(em.listeners_for(NodeID(1), EventType::Quit), vec![a, b]);
    assert_eq!(em.scene_listeners_for(EventType::Quit), vec![s]);
    assert_eq!(em.stale_lookup_node(a), None);
    em.remove_event_listener(a);
    assert_eq!(em.listeners_for(NodeID(1), EventType::Quit), vec![b]);
    em.remove_event_listener(s);
    assert_eq!(em.scene_listeners_for(EventType::Quit), vec![]);
    em.clear_node_listeners(NodeID(1));
    assert_eq!(em.listeners_for(NodeID(1), EventType::Quit), vec![]);
    assert_eq!(em.listeners_for(NodeID(2), EventType::Quit), vec![c]);
    assert_eq!(em.stale_lookup_node(b), Some(NodeID(1)));
}

#[test]
fn close_and_quit_are_announced_once() {
    let mut em = EventManager::new();
    em.send_close_request(CloseRequest { duration: 10, requested_at: 0 });
    assert_eq!(em.build_events(), vec![Event::AppCloseRequest]);
    assert_eq!(em.build_events(), vec![]);
    em.cancel_close();
    assert_eq!(em.build_events(), vec![Event::CancelAppCloseRequest]);
    assert_eq!(em.build_events(), vec![]);
    em.send_quit();
    assert_eq!(em.build_events(), vec![Event::Quit]);
    assert_eq!(em.build_events(), vec![]);
}

#[test]
fn build_events_orders_mouse_window_lifecycle() {
    let mut em = EventManager::new();
    em.manage_sdl_event(MouseInput::Motion { x: 1, y: 2 }, WindowInput::CloseRequested { window_id: 3 });
    em.manage_lifecycle_events(&vec![NodeID(4)], &vec![]);
    assert_eq!(em.build_events(), vec![
        Event::Mouse { event: MouseEvent::MouseMove { x: 1, y: 2 } },
        Event::Window { event: WindowEvent::CloseRequest },
        Event::Lifecycle { event: LifecycleEvent::Creation { target: NodeID(4) } },
    ]);
}

#[test]
fn update_events_skip_created_and_destroyed_nodes() {
    let mut em = EventManager::new();
    em.add_node_event_listener(NodeID(1), EventType::Lifecycle(LifecycleEventType::Update));
    em.add_node_event_listener(NodeID(1), EventType::Lifecycle(LifecycleEventType::Update));
    em.add_node_event_listener(NodeID(2), EventType::Lifecycle(LifecycleEventType::Update));
    em.add_node_event_listener(NodeID(3), EventType::Lifecycle(LifecycleEventType::Update));
    em.manage_lifecycle_events(&vec![NodeID(2)], &vec![NodeID(3)]);
    assert_eq!(em.build_events(), vec![
        Event::Lifecycle { event: LifecycleEvent::Update { target: NodeID(1) } },
        Event::Lifecycle { event: LifecycleEvent::Creation { target: NodeID(2) } },
        Event::Lifecycle { event: LifecycleEvent::Destruction { target: NodeID(3) } },
    ]);
}

#[test]
fn routing_tracks_hover_active_and_drag() {
    let mut em = EventManager::new();
    let left = MouseButton::Left;
    let mv = Event::Mouse { event: MouseEvent::MouseMove { x: 5, y: 6 } };
    assert!(reaches_all_nodes(&mv));
    assert!(needs_hit_test(&mv));
    assert_eq!(em.route_event(mv, Some(NodeID(1))), vec![(NodeID(1), Event::Mouse { event: MouseEvent::Enter { x: 5, y: 6 } })]);
    assert!(em.is_node_hovered(NodeID(1)));
    assert_eq!(em.route_event(mv, Some(NodeID(1))), vec![]);
    assert_eq!(em.route_event(mv, Some(NodeID(2))), vec![
        (NodeID(1), Event::Mouse { event: MouseEvent::Leave { x: 5, y: 6 } }),
        (NodeID(2), Event::Mouse { event: MouseEvent::Enter { x: 5, y: 6 } }),
    ]);
    assert_eq!(em.route_event(mv, None), vec![(NodeID(2), Event::Mouse { event: MouseEvent::Leave { x: 5, y: 6 } })]);
    assert!(!em.is_node_hovered(NodeID(2)));
    let down = Event::Mouse { event: MouseEvent::MouseDown { x: 0, y: 0, mouse_btn: left } };
    assert!(!reaches_all_nodes(&down));
    assert_eq!(em.route_event(down, Some(NodeID(7))), vec![(NodeID(7), down)]);
    assert!(em.is_node_active(NodeID(7)));
    let up = Event::Mouse { event: MouseEvent::MouseUp { x: 0, y: 0, mouse_btn: left } };
    assert_eq!(em.route_event(up, None), vec![(NodeID(7), up)]);
    assert!(!em.is_node_active(NodeID(7)));
    let click = Event::Mouse { event: MouseEvent::Click { x: 0, y: 0, mouse_btn: left } };
    assert_eq!(em.route_event(click, None), vec![]);
    let start = Event::Mouse { event: MouseEvent::DragStart { x: 0, y: 0, mouse_btn: left } };
    let drag = Event::Mouse { event: MouseEvent::Drag { x: 9, y: 0, mouse_btn: left } };
    let end = Event::Mouse { event: MouseEvent::DragEnd { x: 9, y: 0, mouse_btn: left } };
    assert_eq!(em.route_event(start, Some(NodeID(3))), vec![(NodeID(3), start)]);
    assert_eq!(em.route_event(drag, None), vec![(NodeID(3), drag)]);
    assert_eq!(em.route_event(end, None), vec![(NodeID(3), end)]);
    assert_eq!(em.route_event(drag, None), vec![]);
    let life = Event::Lifecycle { event: LifecycleEvent::Update { target: NodeID(8) } };
    assert_eq!(em.route_event(life, None), vec![(NodeID(8), life)]);
    assert_eq!(em.route_event(Event::Quit, None), vec![]);
}

#[test]
fn context_actions_are_carried_out_in_order() {
    let mut st = NodeStorage::new();
    let a = st.insert_new_node();
    let b = st.insert_new_node();
    let mut em = EventManager::new();
    let mut ctx = EventContext::new(&mut st, 500);
    ctx.on_scene(EventType::Quit);
    ctx.add_child(a, b);
    ctx.destroy(b);
    ctx.close(30);
    assert_eq!(ctx.close_request(), Some(CloseRequest { duration: 30, requested_at: 500 }));
    let added = ctx.process_context_actions(&mut em).unwrap();
    assert_eq!(added, vec![EventCallbackID(0)]);
    assert_eq!(ctx.take_destroyed_nodes(), vec![b]);
    assert_eq!(ctx.take_created_nodes(), vec![]);
    ctx.add_child(a, NodeID(40));
    ctx.on_scene(EventType::Quit);
    assert_eq!(ctx.process_context_actions(&mut em), Err(PrismaError::NodeNotFound(NodeID(40))));
    assert_eq!(em.scene_listeners_for(EventType::Quit), vec![EventCallbackID(0)]);
    ctx.cancel_close();
    assert!(ctx.is_cancel_close_requested());
    assert_eq!(ctx.close_request(), None);
    ctx.stop_propagation();
    assert_eq!(ctx.propagation_state(), PropagationState::Stopped);
    assert!(ctx.get_node(b).unwrap().get_node_state().destruction_requested);
    let created = ctx.new_node().get_id();
    assert_eq!(ctx.take_actions(), vec![ContextAction::Create { target: created }]);
}

#[test]
fn adding_then_removing_a_listener_restores_the_registry() {
    let mut em = EventManager::new();
    let first = em.add_node_event_listener(NodeID(1), EventType::Quit);
    let before = em.listeners_for(NodeID(1), EventType::Quit);
    let second = em.add_node_event_listener(NodeID(1), EventType::Quit);
    assert_eq!(em.listeners_for(NodeID(1), EventType::Quit), vec![first, second]);
    em.remove_event_listener(second);
    assert_eq!(em.listeners_for(NodeID(1), EventType::Quit), before);
    em.remove_event_listener(second);
    assert_eq!(em.listeners_for(NodeID(1), EventType::Quit), before);
}

#[test]
fn deliveries_go_to_scene_then_all_nodes_then_routes() {
    let mv = Event::Mouse { event: MouseEvent::MouseMove { x: 1, y: 2 } };
    let enter = Event::Mouse { event: MouseEvent::Enter { x: 1, y: 2 } };
    let plan = plan_deliveries(mv, &vec![NodeID(4), NodeID(5)], &vec![(NodeID(5), enter)]);
    assert_eq!(plan, vec![
        Delivery::Scene { event: mv },
        Delivery::EveryNode { node: NodeID(4), event: mv },
        Delivery::EveryNode { node: NodeID(5), event: mv },
        Delivery::Routed { node: NodeID(5), event: enter },
    ]);
    let quit_plan = plan_deliveries(Event::Quit, &vec![], &vec![]);
    assert_eq!(quit_plan, vec![Delivery::Scene { event: Event::Quit }]);
    let created = Event::Lifecycle { event: LifecycleEvent::Creation { target: NodeID(1) } };
    let plan2 = plan_deliveries(created, &vec![NodeID(1)], &vec![(NodeID(1), created)]);
    assert_eq!(plan2, vec![Delivery::Scene { event: created }, Delivery::Routed { node: NodeID(1), event: created }]);
}
