# MiZe

Items made of CBOR-like data, addressed by ids, kept in stores and exchanged
with peers through a small message protocol.

- `src/` is the library, verified with Verus: the data model of items
  (`value`, `item`, `item_laws`), ids and namespaces (`id`), the message
  protocol (`proto`), the in-memory and on-disk stores (`memstore`,
  `fsstore`, `itemstore`), the instance with its connections, subscriptions
  and the decisions of its update loop (`instance`, `updater`,
  `instance_laws`), the choice of the log level and the tracer (`log`,
  `tracer`), modules and their hashes (`module`, `os`), and the older
  web-server pieces (`server`, `web`, `unix_socket`).
- `app/` is the program around it: the command line, files, sockets,
  threads, the logging subscriber, the conversions to and from the
  serialisation formats, and the store folder on disk, which takes over the
  instance's items when it is opened and is written after every change.
- `tests/` runs the library on concrete values.
