# merutable

The verified core of merutable, an LSM table engine that keeps its files as
Parquet and its state as Iceberg snapshots.

- `src/` is the library. Verus proves the contract of every function but those
  that only call an outside crate or `std`; these are marked, and believed.
- `tests/` runs the library on concrete values.
- `app/` is ordinary Rust around it: the asynchronous stores and catalogs, the
  background workers, the database handle and the `merutable-migrate` command.

## Modules

- `types`: errors, levels and file metadata, sequence numbers, schemas, rows.
- `engine`: configuration, flush, compaction (`picker`, `job`), the row cache,
  the row framing of the log and the phases of background workers.
- `iceberg`: deletion vectors and their Puffin files, versions, snapshot
  transactions, the file-system catalog and the object-store catalog with its
  HEAD discovery, commit retries and manifest reclaim.
- `parquet`: the bloom filter of data files.
- `wal`: record types of the log.
- `db`, `options`, `mirror`: opening and closing a table.
- `sql`, `replica`: the change feed and the log sources of a replica.
- `store`: object locations and what the answers of a store mean.
- `migrate`: plans and outcomes of a layout migration.
- `text`, `textmap`, `paths`, `keyorder`, `wire`, `json`: shared ground.

## Laws

Public proof functions whose names start with `law_` state what holds across
calls: a bloom filter has no false negatives, a Puffin file gives back what was
put into it, rows that were deleted stay deleted, a compaction keeps its output
level free of overlaps, HEAD discovery finds the newest manifest in a
logarithmic number of probes, a version hint only ever names a durable
manifest, and so on.

## What is trusted

The library calls `serde_json`, `hex`, `roaring`, `xxhash-rust`, `uuid`, `lru`,
`object_store` and `bumpalo`, and a few functions of `std` on texts. Each such
call stands behind one declaration with a doc comment that says what is claimed
of it.
