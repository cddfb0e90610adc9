# ubu_core

The shared domain foundation of UbU: prefixed identifiers, RFC 3339
timestamps, provenance, compartment labels and policy summaries, the advisory
candidate lifecycle, device registration, mutation envelopes with canonical
payload bytes, the export legitimizer, and the universe-state mutation and
precondition rules.

- `src/` is the library, written in Verus. Every function carries a contract
  over mathematical models (`Seq`, `Map`, `Multiset`, spec functions), and the
  laws that relate functions stand there as proof functions. Calls into the
  `regex`, `uuid` and `time` crates go through the trusted items of
  `src/foreign.rs`, whose contracts say what each call is taken to do.
- `tests/` runs the library on concrete values.
- `app/` holds what the library does not verify: the serde wire form of its
  values, `Display` for its errors, conversion to `time::OffsetDateTime`, and
  binary64 addition for universe numeric values.

Floating-point numbers are held by their bit patterns in the library; the one
floating-point operation it needs (addition of numeric values) is passed in by
the caller.
