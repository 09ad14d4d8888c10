//! Plain node components: a rectangle shape, a flat style, and the kinds of
//! node actions.
use vstd::prelude::*;
use crate::util::{position_sum_fits, Color, Position, UNIT_SCALE_BITS};

verus! {

/// A rectangle shape of the given size.
#[derive(Clone, Copy, Debug, PartialEq, Eq, Structural)]
pub struct Rect {
    width: u32,
    height: u32,
}

impl Rect {
    pub closed spec fn spec_size(&self) -> (u32, u32) {
        (self.width, self.height)
    }

    /// An empty rectangle.
    pub fn new() -> (r: Rect)
        ensures
            r.spec_size() == (0u32, 0u32),
    {
        Rect { width: 0, height: 0 }
    }

    /// Sets the width and height.
    pub fn size(&mut self, w: u32, h: u32) -> (r: &mut Rect)
        ensures
            r.spec_size() == (w, h),
            *final(self) == *final(r),
    {
        self.width = w;
        self.height = h;
        self
    }

    /// The width and height.
    pub fn get_size(&self) -> (r: (u32, u32))
        ensures
            r == self.spec_size(),
    {
        (self.width, self.height)
    }
}

/// The look of a node: color, corner radius and size.
#[derive(Clone, Copy, Debug)]
pub struct Style {
    pub color: Color,
    pub border_radius: u32,
    pub size: (u32, u32),
}

impl Style {
    /// Transparent, square corners, 50 by 50 pixels.
    pub fn new() -> (s: Style)
        ensures
            s == (Style { color: Color { r: 0, g: 0, b: 0, a: 0 }, border_radius: 0, size: (50u32, 50u32) }),
    {
        Style { color: Color::rgba(0, 0, 0, 0), border_radius: 0, size: (50, 50) }
    }
}

/// Where a node stands: position, whether it is absolute, rotation and scale
/// (as `f32` bit patterns), and layer.
#[derive(Clone, Copy, Debug)]
pub struct Transform {
    pub position: Position,
    pub position_absolute: bool,
    pub rotation: u32,
    pub scale: (u32, u32),
    pub layer: Option<usize>,
}

impl Transform {
    /// `rhs` placed within `self`, as `visual::Transform::compose` does it.
    pub fn compose(&self, rhs: &Transform, rotation: u32, scale: (u32, u32)) -> (r: Option<Transform>)
        ensures
            r is Some <==> position_sum_fits(self.position, rhs.position),
            r matches Some(t) ==> {
                &&& t.position.x == self.position.x + rhs.position.x
                &&& t.position.y == self.position.y + rhs.position.y
                &&& t.position_absolute == self.position_absolute
                &&& t.rotation == rotation
                &&& t.scale == scale
                &&& t.layer == (if rhs.layer is Some { rhs.layer } else { self.layer })
            },
    {
        match crate::scene::visual::checked_position_sum(self.position, rhs.position) {
            Some(position) => Some(Transform {
                position,
                position_absolute: self.position_absolute,
                rotation,
                scale,
                layer: if rhs.layer.is_some() { rhs.layer } else { self.layer },
            }),
            None => None,
        }
    }

    /// At the origin, relative, not rotated, unit scale, no layer.
    pub fn new() -> (t: Transform)
        ensures
            t == (Transform {
                position: Position { x: 0, y: 0 },
                position_absolute: false,
                rotation: 0,
                scale: (UNIT_SCALE_BITS, UNIT_SCALE_BITS),
                layer: None,
            }),
    {
        Transform {
            position: Position::new(),
            position_absolute: false,
            rotation: 0,
            scale: (UNIT_SCALE_BITS, UNIT_SCALE_BITS),
            layer: None,
        }
    }
}

/// The kind of a node action.
#[derive(Clone, Copy, Debug, PartialEq, Eq, Structural, Hash)]
pub enum NodeActionType {
    BGColor,
    Layer,
    Position,
    BorderRadius,
    Scale,
    Size,
    Wait,
}

/// A change of a node's look, applied in order.
#[derive(Clone, Copy, Debug, PartialEq, Eq, Structural)]
pub enum NodeAction {
    BGColor { color: Color },
    Layer { layer: usize },
    BorderRadius { radius: u32 },
    /// Scale factors, as bit patterns of `f32`.
    Scale { x: u32, y: u32 },
    Position { position: Option<Position>, absolute: Option<bool> },
    Size { width: u32, height: u32 },
    /// A pause, in milliseconds.
    Wait { duration: u64 },
}

pub open spec fn spec_node_action_type(a: NodeAction) -> NodeActionType {
    match a {
        NodeAction::BGColor { .. } => NodeActionType::BGColor,
        NodeAction::Layer { .. } => NodeActionType::Layer,
        NodeAction::Position { .. } => NodeActionType::Position,
        NodeAction::BorderRadius { .. } => NodeActionType::BorderRadius,
        NodeAction::Scale { .. } => NodeActionType::Scale,
        NodeAction::Size { .. } => NodeActionType::Size,
        NodeAction::Wait { .. } => NodeActionType::Wait,
    }
}

impl NodeAction {
    /// The kind of this action.
    pub fn get_type(&self) -> (r: NodeActionType)
        ensures
            r == spec_node_action_type(*self),
    {
        match self {
            NodeAction::BGColor { .. } => NodeActionType::BGColor,
            NodeAction::Layer { .. } => NodeActionType::Layer,
            NodeAction::Position { .. } => NodeActionType::Position,
            NodeAction::BorderRadius { .. } => NodeActionType::BorderRadius,
            NodeAction::Scale { .. } => NodeActionType::Scale,
            NodeAction::Size { .. } => NodeActionType::Size,
            NodeAction::Wait { .. } => NodeActionType::Wait,
        }
    }
}

} // verus!
