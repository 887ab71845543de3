# foliage

Rpc between two peers over a byte stream, with every decision of the protocol verified
by Verus.

- `src/` is the verified library: the length header and the frames that carry messages
  (`message::length`, `message::encoder`, `message::decoder`), the message tuple and its
  kind byte (`message`), the bookkeeping of a peer's worker (`peer`), the errors
  (`error`), the socket path of a group (`socket`), the options of the macro attributes
  (`options`), and what the `service` and `service_impl` attributes read from an item and
  decide to write (`service_macro`).
- `app/` is the asynchronous side: tokio tasks, unix sockets, the `tokio_util` codecs,
  serde and bincode for messages, and the code that the `service` and `service_impl`
  attributes write.
- `tests/` runs the library on concrete values.
