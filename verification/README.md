# haxball-live-protocol

Versioned, Protocol-Buffers-compatible messages for reconstructing the
visible state of a live HaxBall room, with the encoding, decoding and the
protocol's limits proved in Verus.

Layout of `src/`:

- `messages.rs`, `envelope.rs`: the messages, their mathematical views and
  defaults. A `double` is held as the bit pattern of its `f64`;
  `equality.rs` gives the messages that hold doubles an `==` that compares
  them as `f64`s do.
- `varint.rs`, `wire.rs`: the wire format as spec functions, and the
  `prost::encoding` primitives that write and read it, each behind a trusted
  wrapper whose contract states what the primitive does, the description of
  each error it can give included.
- `failure.rs`: a decoding error as plain values (description and the
  fields it arose in) and the text `prost` displays for it.
- `encode.rs`, `decode.rs`: each message's fields in tag order, written and
  read field by field; decoding is proved equal to a spec reader that follows
  the Protocol Buffers merge rules (later scalars win, repeated fields
  append, messages merge, unknown fields and groups are skipped up to the
  nesting limit), and each failure to a spec of the error it gives.
- `frame.rs`: `validate`, `encode_frame` and `decode_frame`, with contracts
  that give every outcome, the text of a decoding error included; and the
  message of each error.
- `laws.rs`: reading back the encoding of a message gives the message (a
  negative-zero `double` comes back as zero, its equal); a frame that
  `encode_frame` writes obeys the rules and decodes to its envelope.

`app/` holds the same messages with `prost` derives and `f64` fields, and the
error type with `thiserror`, converting one for one to the library's types.
