# wallet_gateway

The verified core of a custodial wallet gateway: the authority that
registers users, devices and wallets and prepares what a TEE signs and
syncs; the records the gateway keeps in its key-value store; and the
decisions of its periodic tasks (gas prices, balances, received payments,
delegated transactions, notifications).

Layout:

- `src/` — the library, verified with Verus. Each module states its
  operations over mathematical models (`Seq`, `Set`, `Map` and spec
  functions); `src/laws.rs` states what holds across operations.
- `tests/` — tests of the library on concrete values.
- `app/` — what stays outside verification: the runtime configuration, the
  JSON forms exchanged with nodes and explorers, HTTP calls, the client of
  the storage service, the network side of the periodic tasks, exported
  files, and fee rates in floating point.
