# vudo_vm

A capability-based sandbox runtime for WebAssembly guest programs ("Spirits"),
with its rules written in Verus and proved.

## Layout

- `src/` — the verified library.
  - `fuel` — fuel metering: consumption, refuelling, reset, and keeping a
    manager in step with an engine store.
  - `capability` — capability grants (scoped, expiring, revocable, signed)
    and capability sets.
  - `host` — the host functions a sandbox offers to guest code, each gated
    by a capability: time, randomness, logging, key-value storage,
    networking (with a simulated network), and credits (with an in-memory
    ledger that holds credits in escrow).
  - `linker` — the guest side of the host functions: pointers and lengths
    into guest memory checked, results turned into the integers guest code
    gets back.
  - `sandbox` — the sandbox lifecycle: which calls each state admits, what
    an execution's outcome does to the state, and what is counted.
  - `limits`, `error` — resource limits and execution errors.
  - `text`, `bytes`, `clock`, `shared` — message text, little-endian
    encoding, the system clock, and state shared behind a lock.
- `tests/` — tests of the library.
- `app/` — the runtime around the library: the WebAssembly engine
  (wasmtime) driving the sandbox, host function registration, terminal
  output for guest logs, and serde and `std::error::Error` forms of the
  library's types.
