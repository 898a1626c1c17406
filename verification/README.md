# tokio_way_core

The mechanism half of a Wayland compositor, verified with Verus: protocol
handling, input delivery, frame pacing and scene building. Window-management
policy stays with the caller.

## Layout

- `src/state/` - what the compositor knows: clients and their objects,
  surfaces and their tree, windows, layer surfaces, memory, selections and
  drags, and what becomes of all of it when something goes.
- `src/protocol/` - the wire format, the request tables, dispatch, and the
  handlers of the interfaces.
- `src/input/` - hit testing, pointer, touch and scroll delivery, grabs, drags,
  focus, frame callbacks.
- `src/scene/` - surfaces as quads, textures and damage, cursors and cursor
  files.
- `src/run/` - what the event loop decides, one event at a time.
- `src/layer.rs`, `src/keys.rs`, `src/shell.rs` - panel placement, key and mouse
  combinations, and the questions asked of a window manager.
- `src/laws/` - what holds across operations: the surface tree has no loops, a
  client that goes leaves nothing behind, no frame callback is lost, and so on.
- `app/` - ordinary Rust around the library: the task that waits on sockets and
  a backend, maps memory, compiles keymaps and loads cursor themes.

## Reading the contracts

Every type has a view, and the state's view is `StateView`. Each operation is a
spec function from view to view, written as the composition of small named
steps, and the executable function of the same name ensures that the view after
it is that function of the view before.

What a client is told is queued in its outbox. Events of interfaces that are
encoded elsewhere are queued as notices. What a window manager is to be told is
queued as hooks, and what it answers is handed in as `ShellAnswers`. Where it has
to be told in the middle of an operation, the operation has a start and a finish.
