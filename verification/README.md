# drip

An automated trading engine for the infinite-buying method: a seed is split into equal tranches
that are bought a day at a time, and the whole position is sold at a profit target.

- `src/` is the engine, verified with Verus: money and decimals, the trading calendar, the
  strategy, risk checks, the ledger and its reconciliation, backtests, the paper broker, the
  wire formats of the KIS and Toss brokers, the tick as a state machine, and the daemon's rules.
- `app/` is the program around it: the command line, HTTP, files, SQLite, the daemon's loop and
  the dashboard.
- `tests/` runs the library on concrete values.

Each function states its result in `ensures`. Properties that span functions are the public
proof functions named `law_..`, next to what they speak of. Decimal arithmetic comes from
`rust_decimal` and dates from `time`; what is assumed of them, and of a few functions of the
standard library, is said in the doc comments of the functions marked `external_body` in
`decimal.rs`, `date.rs`, `text.rs`, `connect.rs` and `kis_session.rs`.

Arithmetic that can leave the range of a decimal comes in two forms: `try_..` returns `None`
there, and the plain form requires that it does not happen.
