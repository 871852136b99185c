# spx

The verified core of `spx`, a TypeScript runner for Node.js that pre-warms
a transpile cache before Node starts.

- `src/` is the library, verified with Verus:
  - `key.rs`: cache keys, the BLAKE3 digest of a path and its mtime;
  - `cache.rs`: the two-level cache (an in-memory map, and content-addressed
    `.js` files whose reads and writes the caller performs);
  - `parse.rs`, `options.rs`, `transpile.rs`: the oxc pipeline and its
    decisions;
  - `walk.rs`: the breadth-first walk over the import graph;
  - `graph.rs`: import extraction, resolution, and the manifest;
  - `cli.rs`, `errors.rs`: the command line's types and decisions.
- `app/` is the `spx` binary: argument parsing, file system and process I/O,
  parallel transpilation.
- `tests/` exercise the library with the real outside crates.
