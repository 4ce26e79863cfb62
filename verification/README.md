# delta_kernel

Table scans over Delta Lake tables, in verified Rust: log replay, data skipping, incremental
snapshots, and the metrics of these.

- `src/scan/` builds scans, rewrites predicates into predicates over file statistics, and replays
  the log into the files to read. `skipping_laws.rs` and `partition_filter.rs` prove that skipping
  drops no file that holds a matching row; `dedup_laws.rs` proves that replay finds the live files,
  each once, and `update_laws.rs` that updating an earlier scan selects the files of a full scan.
- `src/snapshot/` updates a snapshot from new log files. `incremental_laws.rs` proves that this
  gives the segment that a fresh listing gives, and `configuration_laws.rs` the same of protocol,
  metadata and configuration.
- `src/parallel/` replays a log in two phases, the second in parallel. `phase_laws.rs` proves that
  both treat checkpoints alike.
- `src/metrics/` turns spans into events, and meters storage. Operations add their events to a
  list, so that contracts say exactly what is reported.
- `src/expressions/`, `src/schema.rs`, `src/kernel_predicates.rs` hold expressions, schemas, and how
  predicates are evaluated and rewritten.
- `src/uri.rs`, `src/time.rs`, `src/text.rs` hold the few calls whose contracts are believed: into
  the `url` crate, the clock, and lower-casing by the Unicode tables.
- `app/` is what cannot be verified here: the file system, JSON, tracing, iterators.

An engine evaluates expressions and reads files. Contracts say what it is asked, and what follows
from every answer.
