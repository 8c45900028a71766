# ged_io

A library for reading GEDCOM genealogy files (5.5.1 and 7.0), verified with
Verus.

It reads a file into records (individuals, families, sources, repositories,
submitters, submissions, shared notes, multimedia records, a header and
user-defined structures), detects and converts character encodings (UTF-8,
UTF-16, ANSEL, ASCII and others), reads GEDZIP archives, indexes records by
cross-reference, checks that references resolve, and formats the data for
display.

The contracts state, over the text that is read, which inputs are accepted,
what each record and structure holds afterwards, and where reading stops; the
check of references is stated over the text as well.

Layout:

- `src/` — the verified library. `tokenizer.rs` and `parser.rs` read lines
  and structures; `types/` holds the records and their readers;
  `types/records.rs` states what a whole file holds after reading;
  `references.rs` and `builder.rs` state the check of references; `stream.rs`
  reads a file record by record; `encoding.rs`, `gedzip.rs`, `indexed.rs`,
  `display.rs` and `cli.rs` hold the rest.
- `tests/` — tests of the library.
- `app/` — the command-line program and the parts that do I/O.
