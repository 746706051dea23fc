# Reyn Studio core

The decision core of Reyn Studio, verified with Verus.

- `src/access.rs`, `session.rs`, `gate.rs`, `access_laws.rs`: invitation-only
  preview access. The access gate is a state machine: each operation changes it
  and returns the effect that the application has to carry out.
- `src/credential_store.rs`, `secret.rs`: what credential vaults answer, and
  text that is erased after use.
- `src/cad_identity.rs`, `identity_laws.rs`: face identity across a reimport.
- `src/cad_step.rs`, `step_units.rs`, `step_lexis.rs`, `step_laws.rs`: STEP import
  rules.
- `src/cad_postpro.rs`, `cad_field_ready.rs`: the lattice side of
  post-processing, and the seal of a result.
- `src/text.rs`, `json.rs`: text, and JSON objects.
- `app/`: windows, threads, the network, vaults, the B-rep translator and
  floating point.

A build is gated when it was made with both `REYN_ACCESS_REQUIRED=1` and
`REYN_ACCESS_ENDPOINT`, which names its access service. Linux release builds
switch on a Secret Service feature of `keyring` (`sync-secret-service` or
`async-secret-service`).
