//! The style component of a node with one style per interaction state, where
//! a change made in a state also applies to every state above it.
use vstd::prelude::*;
use crate::scene::visual::{level, CurrentVisualState, Style};
use crate::util::{Color, Size};

verus! {

/// One change of a single style property.
#[derive(Clone, Copy, Debug, PartialEq, Eq, Structural)]
pub enum StyleUpdate {
    Color(Color),
    BorderRadius(u32),
    Size(Size),
}

/// The style `s` with the property that `u` names replaced.
pub open spec fn apply_style_update(s: Style, u: StyleUpdate) -> Style {
    match u {
        StyleUpdate::Color(c) => Style { color: c, ..s },
        StyleUpdate::BorderRadius(r) => Style { border_radius: r, ..s },
        StyleUpdate::Size(z) => Style { size: z, ..s },
    }
}

fn apply_style_update_exec(s: &mut Style, u: StyleUpdate)
    ensures
        *final(s) == apply_style_update(*old(s), u),
{
    match u {
        StyleUpdate::Color(c) => { s.color = c; },
        StyleUpdate::BorderRadius(r) => { s.border_radius = r; },
        StyleUpdate::Size(z) => { s.size = z; },
    }
}

/// The styles of a node for the normal, hovered and active states, and the
/// state it is in.
#[derive(Clone, Copy, Debug, PartialEq, Eq, Structural)]
pub struct NodeStyle {
    pub normal: Style,
    pub hover: Style,
    pub active: Style,
    pub current: CurrentVisualState,
}

impl NodeStyle {
    /// The style of the state the node is in.
    pub open spec fn current_spec(self) -> Style {
        match self.current {
            CurrentVisualState::Normal => self.normal,
            CurrentVisualState::Hover => self.hover,
            CurrentVisualState::Active => self.active,
        }
    }

    /// `self` after `u` is applied to the current state and every state above it.
    pub open spec fn fused(self, u: StyleUpdate) -> NodeStyle {
        NodeStyle {
            normal: if level(self.current) <= 0 { apply_style_update(self.normal, u) } else { self.normal },
            hover: if level(self.current) <= 1 { apply_style_update(self.hover, u) } else { self.hover },
            active: apply_style_update(self.active, u),
            current: self.current,
        }
    }

    /// `self` with the current state's style replaced by `st`.
    pub open spec fn with_current(self, st: Style) -> NodeStyle {
        match self.current {
            CurrentVisualState::Normal => NodeStyle { normal: st, ..self },
            CurrentVisualState::Hover => NodeStyle { hover: st, ..self },
            CurrentVisualState::Active => NodeStyle { active: st, ..self },
        }
    }

    /// Three default styles, in the normal state.
    pub fn new() -> (s: NodeStyle)
        ensures
            s.normal == Style::new_spec(),
            s.hover == Style::new_spec(),
            s.active == Style::new_spec(),
            s.current == CurrentVisualState::Normal,
    {
        NodeStyle { normal: Style::new(), hover: Style::new(), active: Style::new(), current: CurrentVisualState::Normal }
    }

    /// The style of the state the node is in.
    pub fn current_style(&self) -> (r: Style)
        ensures
            r == self.current_spec(),
    {
        match self.current {
            CurrentVisualState::Normal => self.normal,
            CurrentVisualState::Hover => self.hover,
            CurrentVisualState::Active => self.active,
        }
    }

    /// Replaces the style of the state the node is in.
    pub fn set_current_style(&mut self, st: Style)
        ensures
            *final(self) == old(self).with_current(st),
    {
        match self.current {
            CurrentVisualState::Normal => { self.normal = st; },
            CurrentVisualState::Hover => { self.hover = st; },
            CurrentVisualState::Active => { self.active = st; },
        }
    }

    /// Applies `u` to the current state and every state above it.
    pub fn modify_current_style(&mut self, u: StyleUpdate)
        ensures
            *final(self) == old(self).fused(u),
    {
        match self.current {
            CurrentVisualState::Normal => {
                apply_style_update_exec(&mut self.normal, u);
                apply_style_update_exec(&mut self.hover, u);
                apply_style_update_exec(&mut self.active, u);
            },
            CurrentVisualState::Hover => {
                apply_style_update_exec(&mut self.hover, u);
                apply_style_update_exec(&mut self.active, u);
            },
            CurrentVisualState::Active => {
                apply_style_update_exec(&mut self.active, u);
            },
        }
    }

    pub fn get_color(&self) -> (r: Color)
        ensures
            r == self.current_spec().color,
    {
        self.current_style().color
    }

    pub fn get_border_radius(&self) -> (r: u32)
        ensures
            r == self.current_spec().border_radius,
    {
        self.current_style().border_radius
    }

    /// The timer of the current state, in milliseconds.
    pub fn get_timer(&self) -> (r: Option<u64>)
        ensures
            r == self.current_spec().timer,
    {
        self.current_style().timer
    }

    /// When the timer of the current state started, in milliseconds on the scene's clock.
    pub fn get_timer_start(&self) -> (r: Option<u64>)
        ensures
            r == self.current_spec().timer_start,
    {
        self.current_style().timer_start
    }

    pub fn get_size(&self) -> (r: Size)
        ensures
            r == self.current_spec().size,
    {
        self.current_style().size
    }

    pub fn set_color(&mut self, color: Color)
        ensures
            *final(self) == old(self).fused(StyleUpdate::Color(color)),
    {
        self.modify_current_style(StyleUpdate::Color(color));
    }

    pub fn set_border_radius(&mut self, radius: u32)
        ensures
            *final(self) == old(self).fused(StyleUpdate::BorderRadius(radius)),
    {
        self.modify_current_style(StyleUpdate::BorderRadius(radius));
    }

    /// Starts a timer of `ms` milliseconds on the current state at time `now`.
    pub fn set_timer(&mut self, ms: u64, now: u64)
        ensures
            *final(self) == old(self).with_current(Style { timer: Some(ms), timer_start: Some(now), ..old(self).current_spec() }),
    {
        let mut st = self.current_style();
        st.timer = Some(ms);
        st.timer_start = Some(now);
        self.set_current_style(st);
    }

    pub fn set_size(&mut self, size: Size)
        ensures
            *final(self) == old(self).fused(StyleUpdate::Size(size)),
    {
        self.modify_current_style(StyleUpdate::Size(size));
    }

    /// Removes the timer of the current state.
    pub fn clear_timer(&mut self)
        ensures
            *final(self) == old(self).with_current(Style { timer: None, timer_start: None, ..old(self).current_spec() }),
    {
        let mut st = self.current_style();
        st.timer = None;
        st.timer_start = None;
        self.set_current_style(st);
    }

    pub fn set_normal(&mut self)
        ensures
            *final(self) == (NodeStyle { current: CurrentVisualState::Normal, ..*old(self) }),
    {
        self.current = CurrentVisualState::Normal;
    }

    pub fn set_hover(&mut self)
        ensures
            *final(self) == (NodeStyle { current: CurrentVisualState::Hover, ..*old(self) }),
    {
        self.current = CurrentVisualState::Hover;
    }

    pub fn set_active(&mut self)
        ensures
            *final(self) == (NodeStyle { current: CurrentVisualState::Active, ..*old(self) }),
    {
        self.current = CurrentVisualState::Active;
    }
}

} // verus!
