# MotherDuck connector

The logic of a connector to DuckDB and MotherDuck databases, written in Verus, and the driver
around it.

- `src/` is the library. It reads requests, decides what to open, which statements to run and in
  which order, how many rows to answer and how the catalog is arranged, and says what each call
  answers. Its contracts and the laws of `src/laws.rs` and `src/connecting_laws.rs` (and beside the
  functions they are about) are proved by Verus. It performs no input or output: a call proceeds in steps, and each step
  is a response or an action to perform.
- `app/` performs the actions on DuckDB, keeps the open connections behind a lock, and exchanges
  buffers with the host. The crate that exports the connector supplies the host's envelope by
  implementing `Envelope`.
- `tests/` runs the library on concrete values.

What is not proved but relied on:

- how `serde_json` parses a text, and what it gives of a value and of a number, both for the
  documents of the connector and for the requests of the host (`src/document.rs`);
- `String::push` (`src/text.rs`);
- the contracts that Verus's own library, `vstd`, gives to the parts of `std` in use, among them
  its map from strings, which holds the open connections;
- the driver in `app/`, which tells the library what came of each action.

The driver links against the DuckDB library of the system; enable the `bundled` feature of the
`duckdb` crate to build the engine along with it.
