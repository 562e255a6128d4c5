# io-thread-controller

A daemon that sizes the IO-thread pools of VMs, and the mock filesystem that its
component tests run on. `src/` holds the decisions, each with a contract that Verus
proves; `app/` holds what reads, waits and writes.

## Layout

- `src/rolling.rs`: bounded per-VM history and its 1m/5m/15m rates.
- `src/controller/`: the inventory (`inventory.rs`), one tick (`tick.rs`), guards and
  actions (`decisions.rs`), bus requests (`requests.rs`).
- `src/config.rs`, `src/state.rs`, `src/host_cpu.rs`, `src/status.rs`,
  `src/snapshot.rs`: configuration rules, ownership registry, host utilisation, status
  lines, fleet views.
- `src/backends/fake.rs`: the file-backed backend for component tests.
- `src/mockfs/`: paths that may be registered (`registration.rs`), names and inodes
  (`tree.rs`), files and handles (`inner.rs`), kernel operations (`filesystem.rs`), the
  table of mounts (`control.rs`), and what holds across operations (`laws.rs`).
- `src/double.rs`, `src/clock.rs`, `src/text.rs`, `src/paths.rs`: numbers by bit
  pattern, time in nanoseconds, text and slash-separated paths.
- `app/`: FUSE and bus plumbing, files, the clock, JSON shapes.
- `tests/`: scenarios on concrete values.

Numbers with a fraction are held by their bit pattern. The library compares them
exactly; where a quotient or a product is needed, the caller hands in the function
that computes it.

Functions named `law_*` state what holds across operations or for every state.
