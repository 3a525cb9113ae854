# gears

The core of the gears game engine, with its behaviour stated in contracts and
proved with Verus.

- `src/` — the verified library:
  - `ecs/world.rs`, `ecs/access_table.rs`: entities, the component types each
    entity carries, and the table of active component accesses.
  - `ecs/query_system.rs`, `ecs/query.rs`: queries that acquire read and write
    access to components all at once or not at all, and release it again.
  - `ecs/components/fsm.rs`: the hierarchical state machine; each change of
    state returns the enter and exit hooks to run, in order.
  - `ecs/components/controllers.rs`: key bindings and the jump state machine.
  - `ecs/components/pathfinding.rs`: grid cells, their neighbours, and
    obstacle boxes.
  - `ecs/components/misc.rs`, `interactive.rs`, …: plain components, among
    them the animation queue.
  - `animation/`: the animation state machine's bookkeeping, transitions in
    priority order, and the undo/redo history of timeline edits.
  - `systems/`: named systems and their collections; system errors.
  - `config.rs`, `event.rs`: window configuration and engine events.
- `tests/` — tests of the library.
- `app/` — the runtime around it: the world shared between threads (component
  storage, blocking query acquisition), state objects for the state machine,
  the intent channel, the floating-point components (physics, view and
  movement controllers, health), pathfinding in world coordinates, timed
  animation states, and running async systems.
