# ble-gatt

Bluetooth Low Energy GATT in both roles, central and peripheral, with its decisions
verified by Verus.

A BLE stack is asynchronous and address-backed: callbacks come late, addresses are reused,
and a report of one connection can land on the one that replaced it. This crate keeps
everything that has to be decided about that in plain, synchronous state machines with
exact contracts, and leaves the platform calls to a thin shell.

## Layout

- `src/`: the verified library.
  - `models`, `error`, `uuids`, `text`, `assoc`, `clock`: the vocabulary.
  - `backend/link_state`: the life of one link, in each role, and of the radio.
  - `backend/linux`, `backend/android`: who may be dialled, who is served, which call an
    answer belongs to, and which reports are stale.
  - `backend/mock`: a radio in memory, and a broker that shares one between processes.
  - `datagram`: messages of any size over small writes: fragmentation, bounded reassembly,
    channels, and a server for one central at a time.
  - `peer_link`: links to a set of peers, dialled or accepted, kept alive with backoff, a
    limit on how many stand at once, and recovery from a lost radio.
  - `plugin`: the requests and answers of a user interface.
- `tests/`: what runs it.
- `app/`: the asynchronous shell on Tokio, BlueZ, JNI and Tauri.

Laws that span several operations are public proof functions, next to the types they are
about or in a `laws` module: that a message which is split arrives whole in any order of
its fragments, that a completed one is made of the first copies, that a stale handle or report cannot touch a connection's successor, that
no more links stand than may, and so on.

Two functions are trusted, both in `uuids`: the printing and the parsing of a UUID by the
`uuid` crate.
