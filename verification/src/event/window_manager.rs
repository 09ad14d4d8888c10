//! Turns window input into window events.
use vstd::prelude::*;
use crate::event::types::WindowEvent;

verus! {

/// The window input the library reacts to, read from the windowing system.
#[derive(Clone, Copy, Debug, PartialEq, Eq, Structural)]
pub enum WindowInput {
    CloseRequested { window_id: u32 },
    Moved { window_id: u32, x: i32, y: i32 },
    Resized { window_id: u32, width: i32, height: i32 },
    /// Any other input; it produces no event.
    Other,
}

/// The window events produced by one input.
pub open spec fn window_events_of(input: WindowInput) -> Seq<WindowEvent> {
    match input {
        WindowInput::CloseRequested { .. } => seq![WindowEvent::CloseRequest],
        WindowInput::Moved { window_id, x, y } => seq![WindowEvent::Move { window_id, x, y }],
        WindowInput::Resized { width, height, .. } => seq![WindowEvent::Resized { width, height }],
        WindowInput::Other => Seq::empty(),
    }
}

/// Collects window events until they are dispatched.
pub struct WindowManager {
    close_requested: bool,
    queue: Vec<WindowEvent>,
}

impl WindowManager {
    pub closed spec fn spec_queue(&self) -> Seq<WindowEvent> {
        self.queue@
    }

    /// Whether a close of the window was ever requested.
    pub closed spec fn spec_close_requested(&self) -> bool {
        self.close_requested
    }

    pub fn new() -> (m: WindowManager)
        ensures
            m.spec_queue() == Seq::<WindowEvent>::empty(),
            !m.spec_close_requested(),
    {
        WindowManager { close_requested: false, queue: Vec::new() }
    }

    /// Queues the events of one window input.
    pub fn handle_sdl_event(&mut self, event: WindowInput)
        ensures
            final(self).spec_queue() == old(self).spec_queue() + window_events_of(event),
            final(self).spec_close_requested() == (old(self).spec_close_requested()
                || event is CloseRequested),
    {
        match event {
            WindowInput::CloseRequested { .. } => {
                self.close_requested = true;
                self.queue.push(WindowEvent::CloseRequest);
            },
            WindowInput::Moved { window_id, x, y } => {
                self.queue.push(WindowEvent::Move { window_id, x, y });
            },
            WindowInput::Resized { width, height, .. } => {
                self.queue.push(WindowEvent::Resized { width, height });
            },
            WindowInput::Other => {},
        }
        proof {
            assert(old(self).queue@ + Seq::<WindowEvent>::empty() =~= old(self).queue@);
            assert(forall|e: WindowEvent| old(self).queue@.push(e) =~= old(self).queue@ + seq![e]);
        }
    }

    /// Returns the queued events, oldest first, and empties the queue.
    pub fn take_events(&mut self) -> (r: Vec<WindowEvent>)
        ensures
            r@ == old(self).spec_queue(),
            final(self).spec_queue() == Seq::<WindowEvent>::empty(),
            final(self).spec_close_requested() == old(self).spec_close_requested(),
    {
        let mut taken: Vec<WindowEvent> = Vec::new();
        std::mem::swap(&mut taken, &mut self.queue);
        taken
    }
}

} // verus!
