# CivitasOS

A layered system for accountable collective decision making, written in
Verus: every function of the library in `src/` carries a contract that the
verifier proves.

- `src/` — the library: the execution engine, the versioned state store,
  consensus (stake-weighted and PBFT-style), governance and policies, the
  civilization layer's voting rules, the token economy, the atomic
  transaction layer, the cross-chain bridge, message queues, node management
  and discovery, and monitoring (health, audit, threat detection, counters).
  Calls into `sha2`, `hex`, `uuid` and `rand`, and reads of the
  clock, go through a few small trusted functions whose contracts say what
  the outside code does.
- `tests/` — tests of the library on concrete values.
- `app/` — the demo program and what cannot be verified: sockets and async
  services, serde records, and formulas with fractional rates.

Times in the library are integers (seconds, milliseconds or nanoseconds, as
each module says); the caller reads the clock where a function takes `now`.
