# lib

The object data, operation observers and synchronisation state of a
collaborative document, written in Verus and verified.

- `src/types.rs`: object types, operation ids, keys, values, operations, clocks,
  and when an operation is visible.
- `src/op_tree.rs`: the operations of one object, read by position, by key, at a
  point in history, and by queries that walk over them.
- `src/object_data.rs`: the data of one object (type, operations, parent).
- `src/op_observer.rs`: observers of applied operations and the patches they record.
- `src/sync_state.rs`: the state of synchronisation with a peer and its equality.
- `src/c_sync_state.rs`: the decisions behind the C accessors of that state.
- `app/lib.rs`: the C entry points, which turn raw pointers into references.
