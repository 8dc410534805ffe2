# routing

Routing metadata in Verus.

- `src/compaction.rs`: conversion of routing edges between the expanded form
  (venue type by name) and the compact storage form (venue type by code),
  with exact contracts and the round-trip laws proved over their models.
- `src/timeout.rs`: clamping of an adaptive timeout estimate to its bounds.
- `app/`: the adaptive timeout controller (its moving average is a float),
  and the serialisable edge types with `f64` prices, converting to and from
  the library's types.
