# fix_music_tags

Repairs text tags of music files whose Windows-1251 bytes were read as Latin-1
("Îäèíàêîâûå ñíû" instead of "Одинаковые сны"). Dry-run by default.

- `src/` is the verified library:
  - `text.rs`: characters of a string, Unicode whitespace, trimming;
  - `detect.rs`: `detect_encoding_issue` and its specification;
  - `fixing.rs`: `fix_encoding`, built on `encoding_rs`'s Windows-1251 decoder;
  - `types.rs`: `EncodingIssue`, `FixError` and its message;
  - `scan.rs`: the decisions of a scan (which values to repair, what to write back,
    how files are counted);
  - `laws.rs`: properties that hold for all inputs.
- `app/` is the command-line program: argument parsing, logging, the directory walk,
  and reading and saving tags with `lofty`.
- `tests/` runs the library on concrete values.
