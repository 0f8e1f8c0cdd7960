# quartzite

The verified core of the quartzite GUI and object framework.

`src/` is a Verus library: every function in it carries a `requires`/`ensures`
contract that Verus proves, and the laws that hold across calls are stated as public
proof functions.

- `object_tree`, `object_tree_ext`, `object_ref`, `ids` — the parent/child tree of
  runtime objects with its by-name index, depth-first destruction and breadth-first
  search by name.
- `connection_table` — signal-to-slot connections indexed by receiver and by signal.
- `application`, `global_tree`, `event_loop`, `loop_registry`, `factory` — the
  application singleton rules, the event loop's tick and stop policy, the per-thread
  loop registry and the class-name factory.
- `timer`, `timer_drivers` — timer firing rules and the scheduling decisions of the
  timer drivers (per-timer wake loops and the shared deadline queue).
- `snapshot` — rewriting object references inside stored values, and the pre-order
  walk used when capturing a tree.
- `style_types`, `style_dispatch` — colour roles, groups and palettes, and the paint
  plan of a widget tree.
- `renderer` — window registry and event routing, conversion of windowing-system
  events, the painter's save/restore stack, and the readback layout of offscreen
  render targets.

`app/` is ordinary Rust around the library: threads and channels, the windowing
system's event loop and windows, timer threads, and error types implementing
`std::error::Error`.
