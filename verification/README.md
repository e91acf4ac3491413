# bpl

The desktop side of Bluetooth Personal Link, a binary protocol between a
desktop and a phone over Bluetooth RFCOMM.

- `src/` is the library, verified with Verus: frame encoding and decoding
  with fragmentation and replay protection, the protocol codec, capability
  negotiation, the service registry, channel multiplexing with flow control,
  PSK authentication and key derivation, sessions and their keepalive policy,
  the RFCOMM link state, and the desktop configuration, event bus and
  migration plan. Calls into outside crates (hashing, AEAD, base64, UUID
  parsing, tokio channels, the clock) sit behind small trusted wrappers whose
  contracts are documented where they are declared.
- `tests/` runs the library against the real outside crates.
- `app/` is the command-line tool and daemon: argument handling, the
  configuration file, the SQLite store, the async service framework, the
  keepalive task and the Bluetooth platform layer.
