# hearsay

A provenance boundary and a deterministic policy engine for a proxy that stops
instructions hidden inside images from being executed by a vision-language
agent. Content the user authored travels on the instruction channel; everything
the agent merely observed travels on the data channel, and crosses over only
through a `Declassification` that the policy engine issues for a region it
allowed.

Layout:

- `src/` — the library, verified with Verus: channel labels and provenance,
  the clearance witness, identifiers and the content-hash text form, the
  normaliser, the offset-preserving normalised text, the ruleset and its
  validation, the seven-rule policy engine with request aggregation, the
  bounded decision log, and the counts behind the dashboard summary.
  `src/wrappers.rs` holds every call into std and into outside crates (uuid,
  blake3) together with the contract the rest of the library is proved
  against.
- `app/` — the HTTP service around the library (axum, tokio): handlers, the
  locked shared state, the serialisable copies of the library's types, the
  boot fixtures, and everything that computes with floating-point scores and
  fractions. Scores, thresholds and fractions reach the library as
  `Reading`s: an order rank and the text a reason quotes.
- `tests/` — scenario tests of the library.
