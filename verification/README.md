# parqview

A lightweight explorer for Parquet, CSV, TSV, JSON and JSONL files that runs
its queries through the system `duckdb` command-line tool (`duckdb -json`).

- `src/` is the library, verified with Verus: the SQL it writes, how it reads
  DuckDB's JSON output into a grid of text cells, the detection of derived
  (currency and numeric-in-text) columns, the table describe with its grain
  detection, the folder tree and the application state.  Long-running work
  that needs the DuckDB tool is written as state machines: each step takes the
  answer to the last query and gives the next query.
- `app/` is the program around it: the egui window, running `duckdb`, reading
  directories and the environment, the file dialog, and the two places where
  the grain ranking and the coverage figure compute with floating-point numbers.
- `tests/` holds scenario tests and comparisons with the standard library.
