# mcutie

A small MQTT client for embedded devices, with its decisions verified by Verus.

The library makes no input and output. The program around it reads from and writes to the broker,
waits and sleeps; it hands over what it read and how its waiting ended, and is told what to do next.

- `src/frame.rs`: how long the next packet in the byte stream is.
- `src/packet.rs`: packets as plain values, and their layout on the wire.
- `src/codec.rs`: encoding and decoding, done by the `mqttrs` crate.
- `src/buffer.rs`, `src/topic.rs`, `src/publish.rs`: payloads, topics, and what can be published.
- `src/pipe.rs`: the pipe between the tasks that send packets and the one that writes them.
- `src/io/receive.rs`: what a received packet asks for.
- `src/io/send.rs`: sending packets and waiting for confirmations.
- `src/io/task.rs`: opening the connection, and opening it again when it is lost.
- `src/lib.rs`: errors, messages, the sender and the builder.
- `app/`: the client on embassy.
- `tests/`: tests on concrete values.

Contracts are stated over plain values: a packet by its fields and the bytes of its layout, the
pipe by its state, the receiver by the bytes that are not yet used. What is taken on trust is the
behaviour of `mqttrs` and `heapless`, in the functions marked as external in `src/codec.rs` and
`src/topic.rs`; each says what it claims.
