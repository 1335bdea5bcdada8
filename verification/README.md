# maws

A small HTTP/1.x server library whose logic is verified with Verus.

- `src/` is the verified library:
  - `text` — ASCII case folding, searching, splitting, trimming and decimal numbers,
    each with a mathematical model;
  - `http` — methods, versions and statuses, case-insensitive strings and byte
    strings, header maps, request parsing, response serialisation and URL decoding;
  - `maht` — the byte-oriented header parser, its pattern-search helpers, requests with
    their body length, and responses whose header lines must be ASCII;
  - `route` — the route tree: patterns, insertion and lookup with arguments;
  - `handler`, `ext` — handlers and ready-made responses;
  - `query` — query strings;
  - `util` — the buffer between a byte stream and the parser; `lib.rs` holds the
    decisions of a connection: whether to read more while a header block is awaited
    (`sniff_header`), what an arrived header block comes to (`plan_request`: request,
    handler, body length), which bytes are the body (`take_body`) and what is written
    back (`Response::to_wire`).
- `app/` holds what the verifier does not see: the TCP listener, the per-connection
  loop that performs the reads and writes that the library decides on, and the
  configuration types.
- `tests/` runs the library on concrete inputs.
