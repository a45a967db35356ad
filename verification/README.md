# chainsettle

Milestone-based escrow for shipments, verified with Verus.

A shipment locks the buyer's funds in escrow and pays the supplier milestone by
milestone: after a proof is submitted and every co-buyer confirms, after a holdback,
pro rata for partial deliveries, at a quality grade, or as an arbiter decides a
dispute. A protocol fee, retainage and a warranty holdback can be taken from each
payment; cancellation refunds whatever is left to the primary buyer.

Layout:

- `src/types.rs` — the data: shipments, milestones, options, transfers, errors, and
  their mathematical views.
- `src/model.rs` — the model: the invariant (`wf`), the escrow a shipment holds,
  and for every operation the error it gives and the state it leads to.
- `src/settlement.rs`, `src/operations.rs`, `src/create.rs`, `src/config.rs`,
  `src/queries.rs` — the executable operations, each proved to follow the model.
- `src/ledger.rs` — checks, for a caller, that the ledger arithmetic an operation
  does on its path (holdback, grade review, warranty end) stays within `u32`.
- `src/laws.rs`, `src/lemmas.rs` — the proofs: every successful operation is a
  sound step (the invariant holds, no value is created or lost, only parties of the
  shipment are paid, settled milestones and terminal states never change, the
  audit trail only grows), plus the laws on multi-signature approval, deadlines,
  sequencing, how a confirmation splits its payment, completion and the token
  whitelist.
- `app/` — the Soroban contract around the library: authorization, storage, token
  transfers, events and the ledger sequence.
- `tests/` — scenarios run against the library with a simulated token ledger.
