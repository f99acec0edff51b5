# eventstore_tcp

The framing, the protobuf messages and the request builders of the EventStore TCP protocol,
as a library verified with Verus.

## Layout

- `src/wire.rs`: protobuf varints and fields, with the laws that reading back what was written
  gives it back.
- `src/raw/`: every protobuf message of the protocol, each with a model, an exact decoder
  (`from_reader`), encoder (`encode`) and size (`get_size`), and a roundtrip lemma;
  `src/raw.rs` ties them to the discriminators of `RawMessage`.
- `src/auth.rs`, `src/package.rs`, `src/codec.rs`, `src/client.rs`: credentials, packages and
  the length-prefixed frames that carry them.
- `src/adapted.rs` and `src/adapted/`: the validated view of the messages (`AdaptedMessage`),
  the conversion from raw messages and back, and the laws that relate the two.
- `src/failures.rs`: the non-success results of the protocol's result enumerations.
- `src/builder.rs`: builders of the request packages.
- `src/decoder.rs`: decoding of hex dumps of captured frames, line by line.
- `src/commands.rs`: what the arguments of the command line client mean.
- `app/`: the command line client (ping, write, read, delete, decode), a blocking connection,
  and `tokio_io` codecs over the framing.
- `tests/`: tests of the library on concrete values.
