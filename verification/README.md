# malcolm

Chaos engineering with reproducible runs: faults, scenarios made of them, budgets that
judge a run, records that can be replayed and verified, and exports for machines and
people. The library is verified with Verus, and the functions of `src/` state
what they do in contracts. Two things have no value over time in a contract. Setting, reading
and counting the flags that the clones of a `FaultHandle` share is tied to the flag of each
handle, but not to what was done to that flag before. And a `MetricsHub` says that each of its
recorders took a sample, but not in which order, nor what a recorder does with it.

## Layout

- `src/fault.rs`, `src/faults/`: the fault trait, cancellation handles, clocks, and the
  network, resource, clock and Byzantine faults.
- `src/scenario.rs`, `src/presets.rs`: scenarios and ready-made ones.
- `src/topology.rs`, `src/topology/`: dependency graphs, cascades along them, how far
  these get, and their analysis.
- `src/assertions.rs`, `src/report_formats.rs`, `src/report_formats/`: budgets; JUnit and
  SARIF reports, and how escaped text in them is read back.
- `src/replay.rs`, `src/replay/`: records with an integrity tag, what the tag protects, and
  sealed envelopes around records.
- `src/metrics.rs`, `src/metrics/`: samples of a run and what exporters do with them.
- `src/rootcause.rs`, `src/search.rs`: queries for root causes; the search for fragile
  configurations.
- `src/cli.rs`: what the command-line runner decides.
- `src/scalar.rs`, `src/scalar/`, `src/text.rs`, `src/message.rs`, `src/json.rs`,
  `src/names.rs`, `src/rng.rs`, `src/environment.rs`: the values that the rest is made of.
- `app/`: the program. It reads and writes, waits, draws floating-point samples, and
  drives the exporters.
- `tests/`: tests of the library.

## Numbers

A floating-point number is a `Scalar`: its 64 bits. The library orders, bounds, negates
and rounds scalars; it leaves other arithmetic to the program. A text that shows such
arithmetic is a `Message`, whose slots the program fills in.

## What is trusted

The contracts of a few calls are taken as given: seeding and stepping the small
generator of `rand` and the entropy of the operating system, Argon2id, ChaCha20-Poly1305,
the system clock, the quoted form of a text, and `String::push`. Each has a doc comment that says what is claimed.
