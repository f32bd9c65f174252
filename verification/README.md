# enfinitos_auditor

An offline verifier for the evidence a spatial-advertising platform
issues: signed proof packs and their hash chains, metering and
settlement summaries, tenant chains, rights-provenance records and
signed exports. Every verdict is re-derived from the evidence and a
pinned Ed25519 key directory; nothing is fetched.

The library in `src/` is written in Verus. Each audit function states,
in its `ensures`, the exact sequence of steps it reports (as a
mathematical view of the steps) and its verdict, and Verus proves the
code against it. Laws that relate several functions are public proof
functions, among them:

- a tenant chain, a proof chain and a signed export are VALID exactly
  when they are intact / authentic;
- the canonical sort-key JSON lists object keys in ascending order and
  does not depend on member order;
- a scaled decimal rendered and parsed back is the same value;
- a meter's exact-cent split adds up to its gross;
- legacy provenance records are never INVALID, and an all-legacy set is
  SKIPPED.

SHA-256 (`sha2`), base64url (`base64`), Ed25519 (`ed25519-dalek`) and
RFC 3339 parsing (`chrono`) are called through small trusted wrappers
whose contracts name their results.

`app/` holds the JSON side: the wire shapes with serde, an error type
with `std::error::Error`, and entry points that parse JSON and call the
library. `tests/` exercises the library with real keys and signatures.
