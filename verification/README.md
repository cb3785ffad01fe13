# Messenger

A peer-to-peer messenger whose logic is verified with Verus.

Nodes know each other by the SHA3-256 digest of an ML-DSA-87 public key and
talk over QUIC or WebTransport inside a Noise_XX session. Messages go to
their recipient directly where its address is known and are flooded with a
limited number of hops where it is not. Recipients answer with delivery
receipts, and what could not be sent waits in an outbox for a retry.

- `src/` is the library: wire formats, the message store, routing and retry
  decisions, session framing, identity and bootstrap handling, the command
  line, and the state and contents of the terminal interface. Functions state
  in contracts what they do; the laws that relate them stand as public proof
  functions beside them. Calls into other crates stand in small functions
  whose contracts are trusted, each with a comment on what is trusted.
- `app/` holds the programs: sockets, files, the terminal, and the loops that
  ask the library what to do next. `messenger` runs the bare node,
  `messenger cli` the command line, `messenger tui` the terminal interface.
- `tests/` runs the library.

Environment variables: `PRIMUS_PORT`, `PRIMUS_TLS_DOMAIN`, `PRIMUS_SEEDS`,
`PRIMUS_SEEDS_FILE`, `PRIMUS_CONFIG_DIR`, `PRIMUS_KEY_PASSPHRASE`,
`PRIMUS_REDUCED_MOTION`. Seeds can also be given with `--seed` and
`--seeds-file`.
