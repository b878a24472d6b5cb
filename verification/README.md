# moq

The rules of a Media over QUIC stack, verified with Verus: the wire format of the subscribe and
GOAWAY messages, graceful drain and reconnection of sessions, the import of fragmented MP4, CMSF
broadcasts and their catalogs, the demuxer that reads them back, and what a relay and a command
line decide around them.

- `src/` is the library. Every function states what it returns in its contract; laws that span
  functions are public proof functions whose names begin with `law_`.
  - `coding`, `error`, `path`, `text`, `time`: numbers and strings on the wire, error codes,
    broadcast paths.
  - `ietf`, `lite`: messages of the IETF drafts 14 to 19 and of moq-lite.
  - `session`, `reconnect`: drain, GOAWAY, bandwidth and seamless handoff.
  - `mux`: MP4 atoms, sample entries, codecs, catalogs, the broadcast producer and the demuxer.
    Bytes from which the reader of MP4 would not return are refused before they reach it
    (`mux::atoms`, `mux::leaf`).
  - `libmoq`: the publishing half of the C interface.
  - `cli`, `relay`, `failover`: the decisions of the programs.
- `tests/` runs the library.
- `app/` carries the decisions out over streams, timers, signals and standard input and output.

A call that publishes does not touch the transport. It notes its requests in an `Outbox`, and is
told beforehand which of them are refused; whoever drives the transport performs them in order,
and on a refusal makes the same call once more from the state before it.
