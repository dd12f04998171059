# updown_trader

Strategies, decisions and records of a trader on up-or-down markets, verified with Verus.

- `src/` is the library. Numbers are `Binary64`, the 64-bit binary format with correctly rounded
  operations, proved against exact arithmetic on integers. On them stand the indicators and
  features of a window of candles, the strategies that vote on these features or fade exhausted
  moves, and the analysis of recorded trajectories. The way from a signal to an order is a state
  machine. Compressed trajectories and their index are functions on bytes and records.
- `tests/` runs the library: the numbers against the machine's own, the features against
  straightforward formulas, the strategies, the state machine and the trajectories on examples.
- `app/` holds what touches the world: files, JSON, asynchronous services and the clock.

What is believed without proof stands behind small functions next to their callers: the calendar
and the clock (`clock`), compression and checksums (`trajectory`), random names
(`trading_runtime`). The comment above each says what is claimed of it.
