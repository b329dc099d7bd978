# solforge

The verified core of a Solana data aggregator and of the REST service that
queries what it stored.

- `src/` is the library, verified with Verus:
  - `poll.rs`: which finalised blocks a poll processes, where the next poll
    starts, how long to wait; and the proof that a chained run of polls
    processes every block exactly once.
  - `blocks.rs`: the account keys a block's transactions list, read as
    public keys; gathering them into one set; the record stored per account.
  - `accounts.rs`: public-key parsing and printing (through
    `solana-program`), and the duplicate-free account set.
  - `datetime.rs`: date parsing and printing (through `chrono`) and the
    choice of a block's timestamp.
  - `query.rs`: query parameters and the document filters that answer them.
  - `error.rs`: the error a request is answered with.
- `app/` runs the two programs (`aggregator`, `server`): RPC calls, the
  document database, HTTP, tasks and timers.
- `tests/` runs the library on concrete values.
