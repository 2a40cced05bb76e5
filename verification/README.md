# Beacon

A BitVM3-style dispute layer: the Engine posts an Assert (an extractable
opening plus the hashlock `H(L*)`), a challenger evaluates off-chain, and the
connector is spent by **Timeout** (honest claim) or **Disprove** (fraud, by
revealing `L*`).

The library is written in Verus. The functions in `src/` carry contracts
that the verifier checks (all but one, whose result is a trait object), and
the laws the protocol rests on are proof functions: the hashlock an Engine
commits to is opened by the label an invalid evaluation reveals; completing an
adaptor signature reveals the adaptor secret; encodings decode back to what
was encoded, and a decoded witness re-encodes to its input; an honest
ciphertext store passes the cut-and-choose checks.

Layout:

- `src/claim_mini.rs`, `src/backend/` — the Claim Mini statement and the
  circuit backends.
- `src/phase_a/`, `src/phase_b/`, `src/phase_c/` — openings and dispute flows
  of the three phases (direct seed, Schnorr adaptor, share bundle and garbled
  stand-in), the connector's leaf scripts, Taproot output, control blocks and
  amounts, the conclusion of a garbled evaluation, the ciphertext-store checks,
  the cut-and-choose schedule and the evaluation sidecar framing.
- `src/witness.rs`, `src/carrier.rs` — the packed Assert witness and its
  `OP_RETURN` / annex carriers.
- `tests/` — executable tests against the compiled library.
- `app/` — the edges: JSON forms, the directory-backed ciphertext store,
  the wrapping of the library's outputs and witness stacks into `bitcoin`
  transactions, and the regtest runner.
