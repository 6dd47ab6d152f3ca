# sql

The storage and value core of a small SQL engine, verified with Verus.

The library holds values, expressions, schemas, in-memory and catalog tables, and
INSERT, UPDATE and DELETE on a catalog table, each all or nothing. A column has an id, a
name, a type and a NULL flag; it carries no constraint, default, auto-increment setting or
index, and the library has no ALTER TABLE, catalog store, database or command layer.

- `src/domain`: values and their three-valued logic, the order of values, arithmetic,
  casts, date and time parsing, rows, schemas (with their checks of names and of rows),
  expression building and evaluation, and an in-memory table that checks each row
  against its schema.
- `src/catalog`: id generators, the registry that maps table and column names to ids,
  catalog tables and the INSERT, UPDATE and DELETE handlers.
- `src/disk`: slotted pages, the LRU replacer, the in-memory state of the buffer pool,
  table heaps and the page bookkeeping of a table file.
- `src/text.rs`: trimming, integer parsing and decimal formatting.
- `app/`: what the library leaves to its caller: file I/O, the buffer pool with its disk,
  the clock and local time zone, floating-point work, serialisation and `std::error::Error`.

Where a float takes part in a comparison, an arithmetic operator or a cast, the library
hands the operands back (`Comparison::Floats`, `ArithOutcome::Floats`, `CastOutcome::Float`)
and `app/floats.rs` finishes the work. The buffer pool is driven the same way: the library
decides which frame to use and which page to write back, and the caller moves the bytes.

Expression evaluation, row checks, tables and the statement handlers take two functions
instead, one that orders float operands and one that combines them; their contracts hold
for any such pair of functions that always answers the same way.
