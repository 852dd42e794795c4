# Transcript decoder

A library that reads legal transcripts. It takes a text or a PDF, decides which part of the
document each page is, and parses the testimony into lines, blocks, exchanges of questions and
answers, and a graph of how they relate. Every row of the source keeps one identifier from the
page to the parsed transcript, nothing is made up where the source is silent, and what stays in
doubt is reported.

The library is written in Verus. Each executable function states in its `ensures` what it
returns, over spec functions on sequences of characters and on views of the data types, and is
proved to do so. What holds of the library as a whole is stated in the proof functions whose
names begin with `law_`.

## Layout

- `src/text.rs`, `scan.rs`, `pieces.rs`, `order.rs`, `number.rs`, `lookup.rs`: characters, texts,
  words, lines, decimal numbers and lists of identifiers.
- `src/measure.rs`: measurements. A real number is held as an integer that orders like it, so
  that positions and confidences can be compared exactly.
- `src/digest.rs`: the SHA-256 digest that identifies a source.
- `src/document/`: from files to pages. `lopdf_items.rs` holds the calls into `lopdf` and what
  they are trusted to do; `page_tree.rs` tells whether a PDF declares more pages than can be
  counted, before any of those calls rely on it; `layout.rs` and `sections.rs` classify pages; `drawing.rs`, `shown.rs`,
  `rows.rs` and `reconstruct.rs` turn the operations of a page into rows, with redactions masked.
- `src/transcript/`: from pages to a transcript. `preflight.rs` learns the conventions of a
  document, `source.rs` lists its rows, `classify.rs` and `parser.rs` read them, `blocks.rs` and
  `graph.rs` relate them, `verification.rs` and `quality.rs` say how far the result can be relied
  on, and `omni.rs` projects it for consumers. `laws.rs` and `quotes.rs` hold what is true of every
  parse.
- `app/`: the HTTP service, the coordinate adapter, and the arithmetic on coordinates and
  confidences in floating point.
- `tests/`: the library from outside.
