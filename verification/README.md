# feo

The logic of the FeO node runtime and of `fup`, its upload client, verified with Verus.

- `src/frame.rs`: packets are `Content-Length: <N>\r\n\r\n` followed by `N` bytes; building
  headers and packets, recognizing the end of a header, reading the announced length, and
  the proof that a reader recovers what a writer framed.
- `src/protocol.rs`: the messages of upload and start sessions (`upload`, `UPLOAD <name>\n`,
  `FILE <path>\n<contents>`, `END\n`, `START <name>\n`, the reply `r`), and the steps the
  server takes on them. A file is written only at a path that stays below the project's
  directory, and a project is created only under a name without `/` or `..`.
- `src/paths.rs`: which files an upload leaves out (any path with a `runtime` component).
- `src/link.rs`: handles and error codes of the native runtime, and the result of each of
  its calls for what the call returned and the error code it left.
- `src/text.rs`: whitespace trimming and searching over `&str`.
- `app/`: the `fup` command line (`upload`, `start`, and `serve`, which runs the runtime's
  server), the TLS connection, the bindings to the native runtime and the server's file
  writes under `/etc/nodes`.
