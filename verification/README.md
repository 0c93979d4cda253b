# pos_core

The domain core of a point-of-sale system, verified with Verus: orders,
tables, checks (bills, with discounts, service charges and payments), the
command router and workflows that tie them together, event envelopes,
snapshots with replay, and the kitchen display (KDS) projection with its
routing and delta printing.

Layout:

- `src/` — the verified library. Each aggregate has a model (a view over
  plain values), a command handler whose `ensures` gives the exact decision
  (events or error), and an `apply` that folds an event into state.
  `src/laws.rs` and `src/kds/laws.rs` hold the properties that span several
  calls: payments stay consistent, totals add up, snapshot-then-tail replay
  equals a full replay, the KDS bookkeeping and ticket order are kept, and so on.
  Decimal arithmetic is done by `rust_decimal` and random identifiers by
  `uuid`, each behind a small trusted wrapper in `src/amount.rs` and
  `src/ids.rs` whose contract states what the library relies on.
- `tests/` — scenario tests and tests of the laws on concrete values.
- `app/` — serde copies of the library types (JSON wire format) with
  conversions both ways, and envelope encoding/decoding.
