//! Turns mouse input into mouse events: presses, releases, clicks and drags.
use vstd::prelude::*;
use crate::event::types::{MouseButton, MouseEvent};
use crate::util::Position;

verus! {

/// The mouse input the library reacts to, read from the windowing system,
/// with the cursor position in whole pixels.
#[derive(Clone, Copy, Debug, PartialEq, Eq, Structural)]
pub enum MouseInput {
    ButtonDown { button: MouseButton, x: i32, y: i32 },
    ButtonUp { button: MouseButton, x: i32, y: i32 },
    Motion { x: i32, y: i32 },
    /// Any other input; it produces no event.
    Other,
}

/// How far, in pixels, the cursor moves with a button held before a drag starts.
pub const DRAG_TOLERANCE: i32 = 5i32;

/// The cursor moved farther than the drag tolerance from `p`.
pub open spec fn beyond_tolerance(p: Position, x: i32, y: i32) -> bool {
    (x - p.x) * (x - p.x) + (y - p.y) * (y - p.y) > DRAG_TOLERANCE * DRAG_TOLERANCE
}

/// Whether `downs` holds an entry for `b`.
pub open spec fn has_button(downs: Seq<(MouseButton, Position)>, b: MouseButton) -> bool {
    exists|i: int| 0 <= i < downs.len() && #[trigger] downs[i].0 == b
}

/// `downs` with the position of `b` set to `p`: replaced where `b` has an entry, appended otherwise.
pub open spec fn set_down(downs: Seq<(MouseButton, Position)>, b: MouseButton, p: Position) -> Seq<(MouseButton, Position)> {
    if has_button(downs, b) {
        downs.map_values(|e: (MouseButton, Position)| if e.0 == b { (b, p) } else { e })
    } else {
        downs.push((b, p))
    }
}

/// Keeps the entries of buttons other than `b`.
pub open spec fn other_down(b: MouseButton) -> spec_fn((MouseButton, Position)) -> bool {
    |e: (MouseButton, Position)| e.0 != b
}

/// Keeps the buttons other than `b`.
pub open spec fn other_button(b: MouseButton) -> spec_fn(MouseButton) -> bool {
    |e: MouseButton| e != b
}

/// Every button occurs at most once.
pub open spec fn unique_buttons(downs: Seq<(MouseButton, Position)>) -> bool {
    forall|i: int, j: int| 0 <= i < j < downs.len() ==> downs[i].0 != downs[j].0
}

/// Every dragged button is a pressed button.
pub open spec fn dragged_are_pressed(downs: Seq<(MouseButton, Position)>, dragging: Seq<MouseButton>) -> bool {
    forall|k: int| 0 <= k < dragging.len() ==> has_button(downs, #[trigger] dragging[k])
}

/// The events and the dragged buttons after a cursor motion to `(x, y)` has been
/// checked against the pressed buttons in `downs`, in order, starting from the
/// dragged buttons `dragging`.
pub open spec fn drag_pass(
    downs: Seq<(MouseButton, Position)>,
    dragging: Seq<MouseButton>,
    x: i32,
    y: i32,
) -> (Seq<MouseEvent>, Seq<MouseButton>)
    decreases downs.len(),
{
    if downs.len() == 0 {
        (Seq::empty(), dragging)
    } else {
        let (ev, dr) = drag_pass(downs.drop_last(), dragging, x, y);
        let (b, p) = downs.last();
        if beyond_tolerance(p, x, y) {
            if dr.contains(b) {
                (ev.push(MouseEvent::Drag { x, y, mouse_btn: b }), dr)
            } else {
                (ev.push(MouseEvent::DragStart { x: p.x, y: p.y, mouse_btn: b }), dr.push(b))
            }
        } else {
            (ev, dr)
        }
    }
}

/// `new` is `old` after the mouse manager handled `event`.
pub open spec fn mouse_step(old: MouseManager, new: MouseManager, event: MouseInput) -> bool {
    match event {
        MouseInput::ButtonDown { button, x, y } => {
            &&& new.spec_position() == (Position { x, y })
            &&& new.spec_downs() == set_down(old.spec_downs(), button, Position { x, y })
            &&& new.spec_dragging() == old.spec_dragging()
            &&& new.spec_queue() == old.spec_queue().push(MouseEvent::MouseDown { x, y, mouse_btn: button })
        },
        MouseInput::ButtonUp { button, x, y } => {
            &&& new.spec_position() == (Position { x, y })
            &&& new.spec_downs() == old.spec_downs().filter(other_down(button))
            &&& new.spec_dragging() == old.spec_dragging().filter(other_button(button))
            &&& new.spec_queue() == old.spec_queue().push(MouseEvent::MouseUp { x, y, mouse_btn: button })
                + (if old.spec_dragging().contains(button) {
                    seq![MouseEvent::DragEnd { x, y, mouse_btn: button }]
                } else if has_button(old.spec_downs(), button) {
                    seq![MouseEvent::Click { x, y, mouse_btn: button }]
                } else {
                    Seq::empty()
                })
        },
        MouseInput::Motion { x, y } => {
            &&& new.spec_position() == (Position { x, y })
            &&& new.spec_downs() == old.spec_downs()
            &&& new.spec_dragging() == drag_pass(old.spec_downs(), old.spec_dragging(), x, y).1
            &&& new.spec_queue() == old.spec_queue().push(MouseEvent::MouseMove { x, y })
                + drag_pass(old.spec_downs(), old.spec_dragging(), x, y).0
        },
        MouseInput::Other => {
            &&& new.spec_position() == old.spec_position()
            &&& new.spec_downs() == old.spec_downs()
            &&& new.spec_dragging() == old.spec_dragging()
            &&& new.spec_queue() == old.spec_queue()
        },
    }
}

/// Tracks the mouse and queues its events until they are dispatched.
pub struct MouseManager {
    position: Position,
    last_down_position: Vec<(MouseButton, Position)>,
    is_dragging: Vec<MouseButton>,
    queue: Vec<MouseEvent>,
}

impl MouseManager {
    pub closed spec fn spec_position(&self) -> Position {
        self.position
    }

    /// The pressed buttons with where each was pressed, in order of first press.
    pub closed spec fn spec_downs(&self) -> Seq<(MouseButton, Position)> {
        self.last_down_position@
    }

    /// The buttons whose drag has started.
    pub closed spec fn spec_dragging(&self) -> Seq<MouseButton> {
        self.is_dragging@
    }

    pub closed spec fn spec_queue(&self) -> Seq<MouseEvent> {
        self.queue@
    }

    pub closed spec fn wf(&self) -> bool {
        &&& unique_buttons(self.last_down_position@)
        &&& self.is_dragging@.no_duplicates()
        &&& dragged_are_pressed(self.last_down_position@, self.is_dragging@)
    }

    pub fn new() -> (m: MouseManager)
        ensures
            m.wf(),
            m.spec_position() == (Position { x: 0, y: 0 }),
            m.spec_downs() == Seq::<(MouseButton, Position)>::empty(),
            m.spec_dragging() == Seq::<MouseButton>::empty(),
            m.spec_queue() == Seq::<MouseEvent>::empty(),
            dragged_are_pressed(m.spec_downs(), m.spec_dragging()),
    {
        MouseManager {
            is_dragging: Vec::new(),
            position: Position { x: 0, y: 0 },
            last_down_position: Vec::new(),
            queue: Vec::new(),
        }
    }

    fn down_index(&self, b: MouseButton) -> (r: Option<usize>)
        ensures
            r is None <==> !has_button(self.last_down_position@, b),
            r matches Some(i) ==> i < self.last_down_position@.len() && self.last_down_position@[i as int].0 == b,
    {
        let mut i: usize = 0;
        while i < self.last_down_position.len()
            invariant
                i <= self.last_down_position@.len(),
                forall|j: int| 0 <= j < i ==> self.last_down_position@[j].0 != b,
            decreases self.last_down_position@.len() - i,
        {
            if self.last_down_position[i].0 == b {
                return Some(i);
            }
            i = i + 1;
        }
        None
    }

    fn dragging_contains(&self, b: MouseButton) -> (r: bool)
        ensures
            r == self.is_dragging@.contains(b),
    {
        let mut i: usize = 0;
        while i < self.is_dragging.len()
            invariant
                i <= self.is_dragging@.len(),
                forall|j: int| 0 <= j < i ==> self.is_dragging@[j] != b,
            decreases self.is_dragging@.len() - i,
        {
            if self.is_dragging[i] == b {
                return true;
            }
            i = i + 1;
        }
        false
    }

    fn remove_down(&mut self, b: MouseButton)
        requires
            old(self).wf(),
            !old(self).spec_dragging().contains(b),
        ensures
            final(self).wf(),
            final(self).spec_downs() == old(self).spec_downs().filter(other_down(b)),
            !has_button(final(self).spec_downs(), b),
            final(self).spec_dragging() == old(self).spec_dragging(),
            final(self).spec_queue() == old(self).spec_queue(),
            final(self).spec_position() == old(self).spec_position(),
    {
        let ghost s = self.last_down_position@;
        let ghost pred = other_down(b);
        let mut kept: Vec<(MouseButton, Position)> = Vec::new();
        let mut i: usize = 0;
        while i < self.last_down_position.len()
            invariant
                s == self.last_down_position@,
                pred == other_down(b),
                unique_buttons(s),
                i <= s.len(),
                kept@ == s.subrange(0, i as int).filter(pred),
                forall|j: int| 0 <= j < kept@.len() ==> kept@[j].0 != b,
                forall|j: int, k: int| 0 <= j < kept@.len() && i <= k < s.len() ==> kept@[j].0 != s[k].0,
                unique_buttons(kept@),
            decreases s.len() - i,
        {
            let e = self.last_down_position[i];
            let ghost k0 = kept@;
            proof {
                reveal(Seq::filter);
                assert(s.subrange(0, i + 1).drop_last() =~= s.subrange(0, i as int));
                assert(s.subrange(0, i + 1).last() == s[i as int]);
            }
            if e.0 != b {
                kept.push(e);
            }
            proof {
                reveal(Seq::filter);
                let t = s.subrange(0, i + 1);
                assert(t.drop_last() =~= s.subrange(0, i as int));
                assert(t.filter(pred) == (if pred(t.last()) { t.drop_last().filter(pred).push(t.last()) } else { t.drop_last().filter(pred) }));
                assert(t.last() == e);
                assert(t.drop_last().filter(pred) == k0);
                assert(pred(e) == (e.0 != b));
                assert(pred(e) ==> kept@ == k0.push(e));
                assert(!pred(e) ==> kept@ == k0);
                assert(kept@ == t.filter(pred));
            }
            i = i + 1;
        }
        assert(s.subrange(0, i as int) =~= s);
        proof {
            let d = self.is_dragging@;
            assert forall|k: int| 0 <= k < d.len() implies has_button(kept@, #[trigger] d[k]) by {
                let c = d[k];
                assert(d.contains(c));
                assert(c != b);
                let j = choose|j: int| 0 <= j < s.len() && #[trigger] s[j].0 == c;
                s.lemma_filter_contains(pred, j);
                let m = choose|m: int| 0 <= m < kept@.len() && kept@[m] == s[j];
                assert(kept@[m].0 == c);
            }
        }
        self.last_down_position = kept;
    }

    fn remove_dragging(&mut self, b: MouseButton)
        requires
            old(self).wf(),
        ensures
            final(self).wf(),
            final(self).spec_dragging() == old(self).spec_dragging().filter(other_button(b)),
            !final(self).spec_dragging().contains(b),
            final(self).spec_downs() == old(self).spec_downs(),
            final(self).spec_queue() == old(self).spec_queue(),
            final(self).spec_position() == old(self).spec_position(),
    {
        let ghost s = self.is_dragging@;
        let ghost pred = other_button(b);
        let mut kept: Vec<MouseButton> = Vec::new();
        let mut i: usize = 0;
        while i < self.is_dragging.len()
            invariant
                s == self.is_dragging@,
                pred == other_button(b),
                s.no_duplicates(),
                i <= s.len(),
                kept@ == s.subrange(0, i as int).filter(pred),
                forall|j: int| 0 <= j < kept@.len() ==> kept@[j] != b,
                forall|j: int, k: int| 0 <= j < kept@.len() && i <= k < s.len() ==> kept@[j] != s[k],
                kept@.no_duplicates(),
            decreases s.len() - i,
        {
            let e = self.is_dragging[i];
            let ghost k0 = kept@;
            proof {
                reveal(Seq::filter);
                assert(s.subrange(0, i + 1).drop_last() =~= s.subrange(0, i as int));
                assert(s.subrange(0, i + 1).last() == s[i as int]);
            }
            if e != b {
                kept.push(e);
            }
            proof {
                reveal(Seq::filter);
                let t = s.subrange(0, i + 1);
                assert(t.drop_last() =~= s.subrange(0, i as int));
                assert(t.filter(pred) == (if pred(t.last()) { t.drop_last().filter(pred).push(t.last()) } else { t.drop_last().filter(pred) }));
                assert(t.last() == e);
                assert(t.drop_last().filter(pred) == k0);
                assert(pred(e) == (e != b));
                assert(pred(e) ==> kept@ == k0.push(e));
                assert(!pred(e) ==> kept@ == k0);
                assert(kept@ == t.filter(pred));
            }
            i = i + 1;
        }
        assert(s.subrange(0, i as int) =~= s);
        proof {
            let downs = self.last_down_position@;
            assert forall|k: int| 0 <= k < kept@.len() implies has_button(downs, #[trigger] kept@[k]) by {
                let c = kept@[k];
                assert(kept@.contains(c));
                s.lemma_filter_contains_rev(pred, c);
                let j = choose|j: int| 0 <= j < s.len() && s[j] == c;
                assert(has_button(downs, s[j]));
            }
        }
        self.is_dragging = kept;
    }

    fn set_down(&mut self, b: MouseButton, p: Position)
        requires
            old(self).wf(),
        ensures
            final(self).wf(),
            final(self).spec_downs() == set_down(old(self).spec_downs(), b, p),
            final(self).spec_dragging() == old(self).spec_dragging(),
            final(self).spec_queue() == old(self).spec_queue(),
            final(self).spec_position() == old(self).spec_position(),
    {
        match self.down_index(b) {
            Some(i) => {
                let ghost s = self.last_down_position@;
                self.last_down_position.set(i, (b, p));
                proof {
                    let m = s.map_values(|e: (MouseButton, Position)| if e.0 == b { (b, p) } else { e });
                    assert forall|j: int| 0 <= j < s.len() implies #[trigger] self.last_down_position@[j] == m[j] by {
                        if j != i {
                            assert(s[j].0 != s[i as int].0);
                        }
                    }
                    assert(self.last_down_position@ =~= m);
                    let d = self.is_dragging@;
                    assert forall|k: int| 0 <= k < d.len() implies has_button(m, #[trigger] d[k]) by {
                        let c = d[k];
                        assert(has_button(s, c));
                        let j = choose|j: int| 0 <= j < s.len() && #[trigger] s[j].0 == c;
                        assert(m[j].0 == c);
                    }
                }
            },
            None => {
                self.last_down_position.push((b, p));
                proof {
                    let s = self.last_down_position@;
                    assert forall|j: int, k: int| 0 <= j < k < s.len() implies s[j].0 != s[k].0 by {
                        if k == s.len() - 1 {
                            assert(old(self).last_down_position@[j].0 != b);
                        }
                    }
                    let d = self.is_dragging@;
                    let o = old(self).last_down_position@;
                    assert forall|k: int| 0 <= k < d.len() implies has_button(s, #[trigger] d[k]) by {
                        let c = d[k];
                        assert(has_button(o, c));
                        let j = choose|j: int| 0 <= j < o.len() && #[trigger] o[j].0 == c;
                        assert(s[j].0 == c);
                    }
                }
            },
        }
    }

    /// Queues the events of one mouse input and updates the pressed and dragged buttons.
    pub fn handle_sdl_event(&mut self, event: MouseInput)
        requires
            old(self).wf(),
        ensures
            final(self).wf(),
            mouse_step(*old(self), *final(self), event),
            dragged_are_pressed(final(self).spec_downs(), final(self).spec_dragging()),
    {
        match event {
            MouseInput::ButtonDown { button, x, y } => {
                self.position = Position { x, y };
                self.set_down(button, Position { x, y });
                self.queue.push(MouseEvent::MouseDown { x, y, mouse_btn: button });
            },
            MouseInput::ButtonUp { button, x, y } => {
                self.queue.push(MouseEvent::MouseUp { x, y, mouse_btn: button });
                let ghost q1 = self.queue@;
                self.position = Position { x, y };
                if self.dragging_contains(button) {
                    self.queue.push(MouseEvent::DragEnd { x, y, mouse_btn: button });
                    assert(self.queue@ =~= q1 + seq![MouseEvent::DragEnd { x, y, mouse_btn: button }]);
                } else if self.down_index(button).is_some() {
                    self.queue.push(MouseEvent::Click { x, y, mouse_btn: button });
                    assert(self.queue@ =~= q1 + seq![MouseEvent::Click { x, y, mouse_btn: button }]);
                } else {
                    assert(self.queue@ =~= q1 + Seq::<MouseEvent>::empty());
                }
                self.remove_dragging(button);
                self.remove_down(button);
            },
            MouseInput::Motion { x, y } => {
                self.position = Position { x, y };
                self.queue.push(MouseEvent::MouseMove { x, y });
                let ghost q1 = self.queue@;
                let ghost d0 = self.is_dragging@;
                let ghost downs = self.last_down_position@;
                let mut i: usize = 0;
                proof {
                    assert(downs.subrange(0, 0) =~= Seq::<(MouseButton, Position)>::empty());
                    assert(q1 + Seq::<MouseEvent>::empty() =~= q1);
                }
                while i < self.last_down_position.len()
                    invariant
                        self.wf(),
                        downs == self.last_down_position@,
                        i <= downs.len(),
                        self.is_dragging@ == drag_pass(downs.subrange(0, i as int), d0, x, y).1,
                        self.queue@ == q1 + drag_pass(downs.subrange(0, i as int), d0, x, y).0,
                        self.position == (Position { x, y }),
                    decreases downs.len() - i,
                {
                    let (button, down_position) = self.last_down_position[i];
                    let dx: i128 = x as i128 - down_position.x as i128;
                    let dy: i128 = y as i128 - down_position.y as i128;
                    let tol: i128 = DRAG_TOLERANCE as i128;
                    assert(dx * dx <= 0x1_0000_0000_0000_0000) by (nonlinear_arith)
                        requires -0x1_0000_0000 <= dx <= 0x1_0000_0000;
                    assert(dy * dy <= 0x1_0000_0000_0000_0000) by (nonlinear_arith)
                        requires -0x1_0000_0000 <= dy <= 0x1_0000_0000;
                    assert(dx * dx >= 0) by (nonlinear_arith);
                    assert(dy * dy >= 0) by (nonlinear_arith);
                    let ghost t = downs.subrange(0, i + 1);
                    proof {
                        assert(t.drop_last() =~= downs.subrange(0, i as int));
                        assert(t.last() == downs[i as int]);
                    }
                    let ghost prev_q = self.queue@;
                    if dx * dx + dy * dy > tol * tol {
                        if self.dragging_contains(button) {
                            self.queue.push(MouseEvent::Drag { x, y, mouse_btn: button });
                        } else {
                            proof {
                                assert(self.last_down_position@[i as int].0 == button);
                                assert(has_button(self.last_down_position@, button));
                            }
                            self.is_dragging.push(button);
                            self.queue.push(MouseEvent::DragStart { x: down_position.x, y: down_position.y, mouse_btn: button });
                        }
                    }
                    proof {
                        let prev = drag_pass(downs.subrange(0, i as int), d0, x, y);
                        assert(beyond_tolerance(down_position, x, y) == (dx * dx + dy * dy > tol * tol));
                        assert(prev_q == q1 + prev.0);
                        assert(forall|ev: MouseEvent| (q1 + prev.0).push(ev) =~= q1 + prev.0.push(ev));
                    }
                    i = i + 1;
                }
                proof {
                    assert(downs.subrange(0, i as int) =~= downs);
                }
            },
            MouseInput::Other => {},
        }
    }

    /// Returns the queued events, oldest first, and empties the queue.
    pub fn take_events(&mut self) -> (r: Vec<MouseEvent>)
        requires
            old(self).wf(),
        ensures
            final(self).wf(),
            r@ == old(self).spec_queue(),
            final(self).spec_queue() == Seq::<MouseEvent>::empty(),
            final(self).spec_downs() == old(self).spec_downs(),
            final(self).spec_dragging() == old(self).spec_dragging(),
            final(self).spec_position() == old(self).spec_position(),
    {
        let mut taken: Vec<MouseEvent> = Vec::new();
        std::mem::swap(&mut taken, &mut self.queue);
        taken
    }
}

} // verus!
