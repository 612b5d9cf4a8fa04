# bifp-core

The primitives of the Bidirectional Instant Feedback Protocol (BIFP) as a Verus library:
a ternary `Trit` with ternary consensus, the flag tuple, teach-then-handoff planning, a
hold-until-resolved interceptor, the ten-symbol badge palette, and the framing and
counting of an append-only JSON-lines flag store. Each public function states its
behaviour in `ensures`, and the laws that span functions (consensus commutative with tend
neutral, each planned task in exactly one queue, the hold applying exactly on tend,
append-only storage, read-after-write of a record line, the reconfirmation count after a
remember) are public proof functions.

Layout:

- `src/`: the verified library (`trit`, `flag`, `plan`, `tap`, `badge`, `store`).
- `tests/`: tests of the library on concrete values.
- `app/`: the MCP server over stdio (`rmcp`, `tokio`), the file I/O of the store, the
  serde copies of the flag and plan types, and the floating-point evidence arithmetic
  (means, zone thresholds, clamping), which the library does not hold: a confidence
  crosses into it as the bit pattern of its `f64`.
