# stirn

A small multi-site web server whose request handling is written in Verus and
proved against its specifications.

- `src/` — the verified library:
  - `text`: whitespace, trimming, searching, splitting and decimal output,
    specified over character sequences;
  - `headers`: header lookup (first line named, value after `": "`);
  - `gzip`: body compression through `flate2` (the one trusted wrapper into an
    outside crate);
  - `assoc`: key/value lists and their laws (a definition is read back, other
    keys are untouched);
  - `libx`: the directory server and the fixed-route server;
  - `xom_http`: the template servers and the template language
    (`@key(value)`, `@get`, `@getheader`, `@callbody`, `@@`);
  - `utils`, `config`: the multi-site server, its configuration and mimetypes;
  - `pages`, `rapid`: the index page's commands and the first header lookup.
- `tests/`: tests of every module, including agreement with `std` on
  whitespace, splitting and number formatting.
- `app/`: the executable: sockets, files, threads, the tokio runtime, and
  reading `stirners.json` with `xom_json`.
