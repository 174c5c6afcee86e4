# dat_linter

Static checks of Simutrans `.dat` object definitions before they are packed:
what makeobj refuses (FATAL ERROR), warns about, or silently mangles
(integers narrowed into smaller fields, clamped values, text cut at a NUL,
first-write-wins keys), written as a library verified with Verus.

## Layout

- `src/dat.rs` — a parsed definition: lowered keys, first value wins, repeats
  recorded.
- `src/text.rs` — the string and number readings makeobj relies on (ASCII
  lowering, trimming, decimal and `strtol` parsing).
- `src/diagnostics.rs` — findings: severity, code, location and the values a
  message is built from; image requests that only the file system can settle.
- `src/images.rs` — how an image reference resolves to a file and a tile, and
  how the decoded file is judged (the `image` crate decodes the PNG).
- `src/common.rs`, `src/names.rs`, `src/house.rs` — checks shared by several
  object types (waytypes, narrowed integers, date indexes, text fields,
  footprint and build tool).
- one module per object type (`way.rs`, `vehicle.rs`, `building.rs`, ...),
  each with the list of its rules and `check_<type>`.
- `src/registry.rs` — every rule, and dispatch by `obj=` name.
- `src/keys.rs` — the keys each object type reads, for editors.
- `app/` — the file-system side: it reads the image files that the rules ask
  about and hands their bytes to the library, and renders each finding as
  an English or Japanese message.

Every rule has a specification function; each executable check is proved to
return exactly what its specification says.
