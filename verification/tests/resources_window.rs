use std::collections::HashMap;
use prismae::error::PrismaError;
use prismae::event::EventKind;
use prismae::ids::NodeID;
use prismae::resources::font::FontManager;
use prismae::resources::resource::{FontID, ImageID};
use prismae::resources::resource_manager::ResourceManager;
use prismae::scene::components::Style;
use prismae::scene::handlers::{StyleHandler, TreeHandler};
use prismae::scene::tree::NodeTree;
use prismae::window::WindowBuilder;

#[test]
fn missing_font_names_its_id() {
    let fonts = FontManager::new();
    match fonts.get_font(FontID::id(7)) {
        Err(e) => assert_eq!(e, PrismaError::ResourceNotFound("Font with ID 7 not found".to_string())),
        Ok(_) => panic!("no font is loaded"),
    }
    match fonts.get_font(FontID::id(1234)) {
        Err(e) => assert_eq!(e, PrismaError::ResourceNotFound("Font with ID 1234 not found".to_string())),
        Ok(_) => panic!("no font is loaded"),
    }
    assert_eq!(ImageID::id(3).id, 3);
}

#[test]
fn resources_load() {
    let mut r = ResourceManager::new();
    assert_eq!(r.load_resources(), Ok(()));
    let mut f = FontManager::new();
    assert_eq!(f.load_fonts(), Ok(()));
}

#[test]
fn window_builder_defaults_and_flags() {
    let b = WindowBuilder::new("Example");
    assert_eq!(b.title, "Example");
    assert_eq!((b.width, b.height, b.x, b.y), (100, 100, 0, 0));
    assert!(!b.resizable && !b.borderless && !b.fullscreen && !b.is_pos_centered);
    let b = b.size(800, 400).resizable().borderless().fullscreen().position_centered();
    assert_eq!((b.width, b.height), (800, 400));
    assert!(b.resizable && b.borderless && b.fullscreen && b.is_pos_centered);
}

#[test]
fn window_builder_position_stores_second_coordinate() {
    let b = WindowBuilder::new("w").position(10, 20);
    assert_eq!((b.x, b.y), (20, 0));
}

#[test]
fn style_handler_reads_and_writes() {
    let mut map: HashMap<u32, Style> = HashMap::new();
    let mut h = StyleHandler::new(&mut map);
    assert!(!h.contains(NodeID(1)));
    assert_eq!(h.get(NodeID(1)).err(), Some(PrismaError::NodeComponentNotFound(NodeID(1))));
    h.context_insert(NodeID(1));
    assert!(h.contains(NodeID(1)));
    assert_eq!(h.get(NodeID(1)).unwrap().size, (50, 50));
    assert_eq!(h.context_get(NodeID(1)).border_radius, 0);
    h.context_remove(NodeID(1));
    assert!(!h.contains(NodeID(1)));
}

#[test]
fn tree_handler_family() {
    let mut map: HashMap<u32, NodeTree> = HashMap::new();
    let mut root = NodeTree::new();
    root.add_child(NodeID(1));
    map.insert(0, root);
    map.insert(1, NodeTree::new());
    let h = TreeHandler::new(&mut map);
    assert!(h.contains(NodeID(0)));
    assert_eq!(h.get_family(NodeID(0)), Ok(vec![NodeID(0), NodeID(1)]));
    assert_eq!(h.get_family(NodeID(5)), Err(PrismaError::NodeComponentNotFound(NodeID(5))));
}

#[test]
fn error_messages_name_what_went_wrong() {
    assert_eq!(PrismaError::NodeNotFound(NodeID(42)).message(), "Node 42 not found");
    assert_eq!(PrismaError::NodeComponentNotFound(NodeID(0)).message(), "Component not found for node: 0");
    assert_eq!(PrismaError::InvalidTree(NodeID(3), NodeID(10)).message(), "Invalid tree for parent 3 and child 10");
    assert_eq!(PrismaError::InitError("no video".to_string()).message(), "Initialization error: no video");
    assert_eq!(PrismaError::RenderError("lost".to_string()).message(), "Render error: lost");
    assert_eq!(PrismaError::NodeStateNotFound("Counter".to_string()).message(), "State Counter not found.");
    assert_eq!(PrismaError::ResourceNotFound("x".to_string()).message(), "Resource not found: x");
    assert_eq!(
        PrismaError::UnexpectedEventType(EventKind::Mouse, EventKind::Quit).message(),
        "Event types do not matches: expected Mouse but found Quit"
    );
}
