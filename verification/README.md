# prismae

A small retained-mode UI toolkit: a scene of nodes arranged in a tree, each
node with a visual state machine (normal, hovered, active), queued style,
listener and tree actions, and an event system that turns mouse and window
input into events routed to node and scene listeners.

- `src/` is the library, verified with Verus: identifiers, colors and
  geometry (`util`), events and their managers, routing and hit testing
  (`event`), nodes, their components, storage, views and the per-frame scene
  logic (`scene`), the drawing order (`render`), integer line and triangle
  geometry (`math`), error and resource messages (`message`), the decisions of
  the application loop (`run_loop`), resources, window
  descriptions, and `laws`, the properties that relate several operations.
- `app/` is the SDL side: reading SDL input, opening windows, calling user
  callbacks in the order the library decides, and drawing.
- `tests/` exercises the library on concrete values.

Time is passed to the library as milliseconds on the scene's clock; scale
factors and rotations are kept as `f32` bit patterns.
