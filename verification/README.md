# graze

A terminal explorer for tabular data files (CSV, TSV, Parquet, JSON) with
sorting, SQL filters, regex search, row marks, column hiding and freezing, a
statistics overlay, a SQL scratchpad, tabs, and a side-by-side diff of two
files.

## Layout

- `src/` is the library, verified with Verus. It holds the decisions the
  program makes: what each key does in each mode, the view's scrolling and
  column layout, the SQL sent to DuckDB (queries, filters, search, the diff
  join), how a filter expression is read and matched against a cell, text
  editing with history and autocomplete, and what the status bar shows.
- `app/` is the program around it: argument handling, the terminal, drawing
  with ratatui, and DuckDB on worker threads. It performs the work that the
  library's functions hand back.
- `tests/` exercises the library on concrete values.
