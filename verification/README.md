# recsync

Record synchronisation between EPICS IOC clients and the `recceiver`
server: the wire protocol, the server's session logic, and the preparation
of inventory updates for its storage backends, verified with Verus.

- `src/` is the verified library:
  - `types`, `error`: message IDs and messages, protocol errors;
  - `buffer`, `codec`: framing of messages in a `bytes::BytesMut`;
  - `announce`: the UDP announcement datagram;
  - `session`: the per-client session state machine, which gathers the
    client's upload into a transaction;
  - `inventory`: transactions and the maps and sets they hold;
  - `channelfinder`, `storage`: what a transaction becomes for the
    ChannelFinder and SQLite backends;
  - `config`, `text`: configuration from settings, and the text handling
    it needs.
- `app/` is the server program around it: sockets, the async runtime,
  HTTP and SQL, configuration files and environment.
- `tests/` exercises the library on concrete values.
