# ina

The support libraries of the 1N4 Discord bot, written in Verus: each service's state and decisions
are proved against their contracts, and a thin runtime carries out the I/O.

- `src/localization`: locale-keyed translation tables with inheritance between locales.
- `src/localizing`: language codes, territory codes and bounded inheritance between language files.
- `src/storage`: a path-keyed memory store, a caching storage front, and the compression and
  encryption formats (gzip through flate2; Argon2id and XChaCha20-Poly1305 through argon2 and
  chacha20poly1305), with the sealed layout parsed and written by verified code.
- `src/logging`: log levels, entries and ISO 8601 timestamps (through time), and the logger's queue.
- `src/threading`: a slot for a thread handle and the routing of answers to the calls that asked.
- `src/derives`: the decisions of the project's derive macros (`AsTranslation`, `Stored` and the
  `optional` attribute) over a plain model of their input: the grammars of their attribute
  arguments, the choice between an implementation and an error, and what each field or variant
  becomes. `app/derives.rs` turns `syn` input into these values and the answers back into tokens
  with `quote`; a crate of procedural macros forwards each macro to it.
- `app/`: the token side of the derives, settings from the command line and files, the service threads, the file system and the
  terminal and file log endpoints.
- `tests/`: tests of the library on concrete values.

Each module states its laws as public proof functions next to the functions they relate.
