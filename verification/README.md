# eth_pir

The verified part of an ETH token-balance PIR service: the record format, the
server's records and their updates, rebuilds and restarts, the keyword helper's
sync rules, batched answering, and the client's verification of what comes back.

- `src/` is the library, verified by Verus. It trusts two statements about the
  standard library: what `<[T]>::last_chunk` returns (`src/record.rs`), and which
  variants `std::io::ErrorKind` has (`src/error.rs`).
- `app/` puts it to work over `poulpy-pir`: it makes the calls into the PIR layer
  and the keyword directory, holds the locks, and reads the clock and the
  environment.
- `tests/` runs the library on concrete values.

## How the pieces meet

The keyword directory and the PIR layer are not part of the library. A function
that needs them takes the calls it makes as parameters. Its contract says what is
handed to each call and what comes of every outcome; the decisions themselves stand
in functions on plain values, with exact contracts.

Where the order of calls matters, they act on a value that is handed from one to the
next: the outside world, or the directory. The contract follows that value from call
to call, so that it says which calls are made, in which order, and that no other is.
The clock is read in the same way.

A server is described by its view: the state of its directory, the record in each
slot, the records that the served database was last built from, and the number of
updates that were not published yet. The laws over that view are in
`src/server/laws.rs` and `src/server/restore_laws.rs`; `src/laws.rs` follows a lookup
from client to server and back.
