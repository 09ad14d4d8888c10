//! The visual component of a node: a transform and a style for each of the
//! three interaction states (normal, hovered, active).
use vstd::prelude::*;
use crate::util::{position_sum_fits, Color, Position, Scale, Size};

verus! {

/// Where and how a node is placed.
#[derive(Clone, Copy, Debug, PartialEq, Eq, Structural)]
pub struct Transform {
    pub position: Position,
    pub position_absolute: bool,
    /// Rotation angle, as the bit pattern of an `f32`.
    pub rotation: u32,
    pub scale: Scale,
    pub layer: Option<usize>,
}

/// The sum of two positions, where it fits in `i32`.
pub fn checked_position_sum(a: Position, b: Position) -> (r: Option<Position>)
    ensures
        r is Some <==> position_sum_fits(a, b),
        r matches Some(p) ==> p.x == a.x + b.x && p.y == a.y + b.y,
{
    let x: i64 = a.x as i64 + b.x as i64;
    let y: i64 = a.y as i64 + b.y as i64;
    if i32::MIN as i64 <= x && x <= i32::MAX as i64 && i32::MIN as i64 <= y && y <= i32::MAX as i64 {
        Some(Position { x: x as i32, y: y as i32 })
    } else {
        None
    }
}

impl Transform {
    /// `rhs` placed within `self`: the positions add, `self` decides whether
    /// the position is absolute, the layer of `rhs` wins over that of `self`,
    /// and the rotation and scale are the given ones (their sum and product
    /// as `f32`, computed by the caller). `None` where the positions' sum
    /// leaves `i32`.
    pub fn compose(&self, rhs: &Transform, rotation: u32, scale: Scale) -> (r: Option<Transform>)
        ensures
            r is Some <==> position_sum_fits(self.position, rhs.position),
            r matches Some(t) ==> {
                &&& t.position.x == self.position.x + rhs.position.x
                &&& t.position.y == self.position.y + rhs.position.y
                &&& t.position_absolute == self.position_absolute
                &&& t.rotation == rotation
                &&& t.scale == scale
                &&& t.layer == (if rhs.layer is Some { rhs.layer } else { self.layer })
            },
    {
        match checked_position_sum(self.position, rhs.position) {
            Some(position) => Some(Transform {
                position,
                position_absolute: self.position_absolute,
                rotation,
                scale,
                layer: if rhs.layer.is_some() { rhs.layer } else { self.layer },
            }),
            None => None,
        }
    }

    /// At the origin, relative to the parent, not rotated, unit scale, no layer.
    pub fn new() -> (t: Transform)
        ensures
            t == (Transform {
                position: Position { x: 0, y: 0 },
                position_absolute: false,
                rotation: 0,
                scale: Scale { x: crate::util::UNIT_SCALE_BITS, y: crate::util::UNIT_SCALE_BITS },
                layer: None,
            }),
    {
        Transform {
            position: Position::new(),
            position_absolute: false,
            rotation: 0,
            scale: Scale::new(),
            layer: None,
        }
    }
}

/// How a node looks. Timer values are in milliseconds; the timer start is
/// a time stamp in milliseconds on the scene's clock.
#[derive(Clone, Copy, Debug, PartialEq, Eq, Structural)]
pub struct Style {
    pub color: Color,
    pub border_radius: u32,
    pub size: Size,
    pub timer: Option<u64>,
    pub timer_start: Option<u64>,
}

impl Style {
    /// Transparent, square corners, empty size, no timer.
    pub fn new() -> (s: Style)
        ensures
            s == (Style {
                color: Color { r: 0, g: 0, b: 0, a: 0 },
                border_radius: 0,
                size: Size { width: 0, height: 0 },
                timer: None,
                timer_start: None,
            }),
    {
        Style {
            color: Color::transparent(),
            border_radius: 0,
            size: Size::new(),
            timer: None,
            timer_start: None,
        }
    }
}

/// The transform and style of one interaction state.
#[derive(Clone, Copy, Debug, PartialEq, Eq, Structural)]
pub struct VisualState {
    pub transform: Transform,
    pub style: Style,
}

impl VisualState {
    pub fn new() -> (s: VisualState)
        ensures
            s.transform == Transform::new_spec(),
            s.style == Style::new_spec(),
    {
        VisualState { transform: Transform::new(), style: Style::new() }
    }
}

impl Transform {
    pub open spec fn new_spec() -> Transform {
        Transform {
            position: Position { x: 0, y: 0 },
            position_absolute: false,
            rotation: 0,
            scale: Scale { x: crate::util::UNIT_SCALE_BITS, y: crate::util::UNIT_SCALE_BITS },
            layer: None,
        }
    }
}

impl Style {
    pub open spec fn new_spec() -> Style {
        Style {
            color: Color { r: 0, g: 0, b: 0, a: 0 },
            border_radius: 0,
            size: Size { width: 0, height: 0 },
            timer: None,
            timer_start: None,
        }
    }
}

/// The interaction state a node is currently drawn in.
#[derive(Clone, Copy, Debug, PartialEq, Eq, Structural)]
pub enum CurrentVisualState {
    Normal,
    Hover,
    Active,
}

/// Normal < Hover < Active.
pub open spec fn level(c: CurrentVisualState) -> int {
    match c {
        CurrentVisualState::Normal => 0,
        CurrentVisualState::Hover => 1,
        CurrentVisualState::Active => 2,
    }
}

/// One change of a single visual property.
#[derive(Clone, Copy, Debug, PartialEq, Eq, Structural)]
pub enum VisualUpdate {
    Color(Color),
    BorderRadius(u32),
    Size(Size),
    Position(Position),
    Absolute(bool),
    Rotation(u32),
    Scale(Scale),
    Layer(usize),
}

/// The state `s` with the property that `u` names replaced.
pub open spec fn apply_update(s: VisualState, u: VisualUpdate) -> VisualState {
    match u {
        VisualUpdate::Color(c) => VisualState { style: Style { color: c, ..s.style }, ..s },
        VisualUpdate::BorderRadius(r) => VisualState {
            style: Style { border_radius: r, ..s.style },
            ..s
        },
        VisualUpdate::Size(z) => VisualState { style: Style { size: z, ..s.style }, ..s },
        VisualUpdate::Position(p) => VisualState {
            transform: Transform { position: p, ..s.transform },
            ..s
        },
        VisualUpdate::Absolute(b) => VisualState {
            transform: Transform { position_absolute: b, ..s.transform },
            ..s
        },
        VisualUpdate::Rotation(r) => VisualState {
            transform: Transform { rotation: r, ..s.transform },
            ..s
        },
        VisualUpdate::Scale(c) => VisualState {
            transform: Transform { scale: c, ..s.transform },
            ..s
        },
        VisualUpdate::Layer(l) => VisualState {
            transform: Transform { layer: Some(l), ..s.transform },
            ..s
        },
    }
}

fn apply_update_exec(s: VisualState, u: VisualUpdate) -> (r: VisualState)
    ensures
        r == apply_update(s, u),
{
    let mut r = s;
    match u {
        VisualUpdate::Color(c) => { r.style.color = c; },
        VisualUpdate::BorderRadius(x) => { r.style.border_radius = x; },
        VisualUpdate::Size(z) => { r.style.size = z; },
        VisualUpdate::Position(p) => { r.transform.position = p; },
        VisualUpdate::Absolute(b) => { r.transform.position_absolute = b; },
        VisualUpdate::Rotation(x) => { r.transform.rotation = x; },
        VisualUpdate::Scale(c) => { r.transform.scale = c; },
        VisualUpdate::Layer(l) => { r.transform.layer = Some(l); },
    }
    r
}

/// The visual component of a node. A change made while a node is in some
/// interaction state applies to that state and to every state above it
/// (normal < hover < active), so that a hovered or active look only keeps
/// what was set for it specifically.
#[derive(Clone, Copy, Debug, PartialEq, Eq, Structural)]
pub struct NodeVisual {
    pub normal: VisualState,
    pub hover: VisualState,
    pub active: VisualState,
    pub current: CurrentVisualState,
}

impl NodeVisual {
    /// The stored state for the given interaction state.
    pub open spec fn state_at(self, which: CurrentVisualState) -> VisualState {
        match which {
            CurrentVisualState::Normal => self.normal,
            CurrentVisualState::Hover => self.hover,
            CurrentVisualState::Active => self.active,
        }
    }

    /// The state the node is drawn with.
    pub open spec fn current_state(self) -> VisualState {
        self.state_at(self.current)
    }

    /// `self` after `u` is applied to the current state and every state above it.
    pub open spec fn fused(self, u: VisualUpdate) -> NodeVisual {
        NodeVisual {
            normal: if level(self.current) <= 0 { apply_update(self.normal, u) } else { self.normal },
            hover: if level(self.current) <= 1 { apply_update(self.hover, u) } else { self.hover },
            active: apply_update(self.active, u),
            current: self.current,
        }
    }

    /// `self` with the current state's style replaced by `st`.
    pub open spec fn with_current_style(self, st: Style) -> NodeVisual {
        match self.current {
            CurrentVisualState::Normal => NodeVisual {
                normal: VisualState { style: st, ..self.normal },
                ..self
            },
            CurrentVisualState::Hover => NodeVisual {
                hover: VisualState { style: st, ..self.hover },
                ..self
            },
            CurrentVisualState::Active => NodeVisual {
                active: VisualState { style: st, ..self.active },
                ..self
            },
        }
    }

    pub open spec fn new_spec() -> NodeVisual {
        let s = VisualState { transform: Transform::new_spec(), style: Style::new_spec() };
        NodeVisual { normal: s, hover: s, active: s, current: CurrentVisualState::Normal }
    }

    /// All three states with default values, drawn as normal.
    pub fn new() -> (v: NodeVisual)
        ensures
            v == NodeVisual::new_spec(),
    {
        NodeVisual {
            normal: VisualState::new(),
            hover: VisualState::new(),
            active: VisualState::new(),
            current: CurrentVisualState::Normal,
        }
    }

    fn get_current_state(&self) -> (r: VisualState)
        ensures
            r == self.current_state(),
    {
        match self.current {
            CurrentVisualState::Normal => self.normal,
            CurrentVisualState::Hover => self.hover,
            CurrentVisualState::Active => self.active,
        }
    }

    fn set_current_style(&mut self, st: Style)
        ensures
            *final(self) == old(self).with_current_style(st),
    {
        match self.current {
            CurrentVisualState::Normal => { self.normal.style = st; },
            CurrentVisualState::Hover => { self.hover.style = st; },
            CurrentVisualState::Active => { self.active.style = st; },
        }
    }

    /// Applies `u` to the current state and every state above it.
    fn fusion_state(&mut self, u: VisualUpdate)
        ensures
            *final(self) == old(self).fused(u),
    {
        match self.current {
            CurrentVisualState::Normal => {
                self.normal = apply_update_exec(self.normal, u);
                self.hover = apply_update_exec(self.hover, u);
                self.active = apply_update_exec(self.active, u);
            },
            CurrentVisualState::Hover => {
                self.hover = apply_update_exec(self.hover, u);
                self.active = apply_update_exec(self.active, u);
            },
            CurrentVisualState::Active => {
                self.active = apply_update_exec(self.active, u);
            },
        }
    }

    pub fn get_color(&self) -> (r: Color)
        ensures
            r == self.current_state().style.color,
    {
        self.get_current_state().style.color
    }

    pub fn get_border_radius(&self) -> (r: u32)
        ensures
            r == self.current_state().style.border_radius,
    {
        self.get_current_state().style.border_radius
    }

    /// The pending timer of the current state, in milliseconds.
    pub fn get_timer(&self) -> (r: Option<u64>)
        ensures
            r == self.current_state().style.timer,
    {
        self.get_current_state().style.timer
    }

    /// When the pending timer of the current state started, on the scene's clock.
    pub fn get_timer_start(&self) -> (r: Option<u64>)
        ensures
            r == self.current_state().style.timer_start,
    {
        self.get_current_state().style.timer_start
    }

    pub fn get_size(&self) -> (r: Size)
        ensures
            r == self.current_state().style.size,
    {
        self.get_current_state().style.size
    }

    pub fn get_relative_position(&self) -> (r: Position)
        ensures
            r == self.current_state().transform.position,
    {
        self.get_current_state().transform.position
    }

    pub fn is_position_absolute(&self) -> (r: bool)
        ensures
            r == self.current_state().transform.position_absolute,
    {
        self.get_current_state().transform.position_absolute
    }

    /// The rotation angle, as the bit pattern of an `f32`.
    pub fn get_rotation(&self) -> (r: u32)
        ensures
            r == self.current_state().transform.rotation,
    {
        self.get_current_state().transform.rotation
    }

    pub fn get_scale(&self) -> (r: Scale)
        ensures
            r == self.current_state().transform.scale,
    {
        self.get_current_state().transform.scale
    }

    pub fn get_layer(&self) -> (r: Option<usize>)
        ensures
            r == self.current_state().transform.layer,
    {
        self.get_current_state().transform.layer
    }

    pub fn set_color(&mut self, color: Color)
        ensures
            *final(self) == old(self).fused(VisualUpdate::Color(color)),
    {
        self.fusion_state(VisualUpdate::Color(color));
    }

    pub fn set_border_radius(&mut self, radius: u32)
        ensures
            *final(self) == old(self).fused(VisualUpdate::BorderRadius(radius)),
    {
        self.fusion_state(VisualUpdate::BorderRadius(radius));
    }

    /// Starts a timer of `ms` milliseconds on the current state, at time `now`.
    pub fn set_timer(&mut self, ms: u64, now: u64)
        ensures
            *final(self) == old(self).with_current_style(
                Style { timer: Some(ms), timer_start: Some(now), ..old(self).current_state().style },
            ),
    {
        let mut st = self.get_current_state().style;
        st.timer = Some(ms);
        st.timer_start = Some(now);
        self.set_current_style(st);
    }

    pub fn set_size(&mut self, width: u32, height: u32)
        ensures
            *final(self) == old(self).fused(VisualUpdate::Size(Size { width, height })),
    {
        self.fusion_state(VisualUpdate::Size(Size { width, height }));
    }

    pub fn set_position(&mut self, position: Position)
        ensures
            *final(self) == old(self).fused(VisualUpdate::Position(position)),
    {
        self.fusion_state(VisualUpdate::Position(position));
    }

    pub fn set_position_absolute(&mut self)
        ensures
            *final(self) == old(self).fused(VisualUpdate::Absolute(true)),
    {
        self.fusion_state(VisualUpdate::Absolute(true));
    }

    pub fn set_position_relative(&mut self)
        ensures
            *final(self) == old(self).fused(VisualUpdate::Absolute(false)),
    {
        self.fusion_state(VisualUpdate::Absolute(false));
    }

    /// Sets the rotation angle, given as the bit pattern of an `f32`.
    pub fn set_rotation(&mut self, rotation: u32)
        ensures
            *final(self) == old(self).fused(VisualUpdate::Rotation(rotation)),
    {
        self.fusion_state(VisualUpdate::Rotation(rotation));
    }

    /// Sets the scale, each factor given as the bit pattern of an `f32`.
    pub fn set_scale(&mut self, x: u32, y: u32)
        ensures
            *final(self) == old(self).fused(VisualUpdate::Scale(Scale { x, y })),
    {
        self.fusion_state(VisualUpdate::Scale(Scale { x, y }));
    }

    pub fn set_layer(&mut self, layer: usize)
        ensures
            *final(self) == old(self).fused(VisualUpdate::Layer(layer)),
    {
        self.fusion_state(VisualUpdate::Layer(layer));
    }

    /// Removes the timer of the current state.
    pub fn clear_timer(&mut self)
        ensures
            *final(self) == old(self).with_current_style(
                Style { timer: None, timer_start: None, ..old(self).current_state().style },
            ),
    {
        let mut st = self.get_current_state().style;
        st.timer = None;
        st.timer_start = None;
        self.set_current_style(st);
    }

    pub fn set_normal(&mut self)
        ensures
            *final(self) == (NodeVisual { current: CurrentVisualState::Normal, ..*old(self) }),
    {
        self.current = CurrentVisualState::Normal;
    }

    pub fn set_hover(&mut self)
        ensures
            *final(self) == (NodeVisual { current: CurrentVisualState::Hover, ..*old(self) }),
    {
        self.current = CurrentVisualState::Hover;
    }

    pub fn set_active(&mut self)
        ensures
            *final(self) == (NodeVisual { current: CurrentVisualState::Active, ..*old(self) }),
    {
        self.current = CurrentVisualState::Active;
    }
}

} // verus!
