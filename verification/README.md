# roam-shm

Buffers in shared memory that peers pass to each other by handle. A `ShmBytes` names a slot of a
`VarSlotPool` and has a length; only these two cross the wire, the bytes stay where they are. The
sender takes the slot into flight, the receiver claims it and owns it from then on.

- `src/` is the library, verified with Verus. `src/laws.rs` states what holds across operations.
  `src/facet_view.rs` is where reflection by the `facet` crate enters; what is believed of that
  crate is written above each of its functions.
- `app/` puts the library into tokio tasks: the pool and the peer id are task-locals there, and
  the types carry the derives that serialisation needs.
- `tests/` runs the library.
