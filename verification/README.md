# rust-recon

A static fact extractor for Solana Anchor programs. It reads a program's Rust sources
(and its IDL when one has been built) and writes, under `.rust-recon/`, the instruction
surface, accounts and PDAs, CPIs, SOL and token flows, state mutations, error codes and
risk flags as JSON.

## Layout

- `src/` is the library, verified with Verus. Every public function states what it
  returns or changes in its `ensures`, over models of the records (`types.rs`) and of the
  parsed source (`syntax.rs`).
  - `text.rs`, `std_text.rs`, `seqs.rs`: string and sequence operations with their
    specifications.
  - `flow_extractor.rs`: execution steps, CPIs, flows and mutations of a handler body.
  - `rust_parser.rs`: the walk over a file's functions, structs, enums and macros.
  - `merger.rs`, `idl.rs`: IDL reading and merge, lamport-flow pairing and handler
    deduplication. `workspace.rs`: the programs an `Anchor.toml` lists.
  - `aggregate.rs`: risk flags. `summary.rs`: the program summary. `output.rs`: names of
    the per-instruction fact files. `report.rs`: the counts printed after an extraction.
  - `laws.rs`, `file_laws.rs`, `tag_laws.rs`, `name_laws.rs`: properties proved across
    these operations.
- `app/` is the command line around it: argument handling, the workspace and file system,
  parsing with `syn` (read into the library's syntax records), and the JSON output.
- `tests/` exercise the library on concrete values.
