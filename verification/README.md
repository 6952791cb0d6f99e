# vectordb

A small vector-database server and its client, speaking a framed binary
protocol over TCP.

- `src/` is the verified library (Verus):
  - `wire.rs`: network-order integers and byte copying;
  - `protocol.rs`: command kinds, result codes, and the handshake, command
    and response frames, with decoders that say how many bytes they still
    need, and the laws that tie each decoder to its encoder;
  - `server.rs`: what the server answers to each command or failed read, the
    state of one connection, and the serving of a whole stream of commands;
  - `client.rs`: the commands a client sends and how it reads the answers;
  - `cli.rs`: how the command-line client reads a typed line (`INS`, `UPD`,
    `DEL`, `PING`, `EXIT`) and what it reports;
  - `exchange.rs`: laws about whole request/answer exchanges;
  - `msgpack.rs`: the message-pack bytes of an array of texts;
  - `words.rs`: cutting a line at Unicode white space;
  - `foreign.rs`: the trusted wrappers around message-pack encoding and
    decoding and the standard library's lossy UTF-8 reading.
- `app/` holds the sockets, the serde types (peer descriptions, documents)
  and the two programs, `vecdb` and `vectordbd`.
- `tests/` exercises the library on concrete values.
