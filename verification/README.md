# veritoken

A verified kit for tokenizing real-world assets: a KYC registry, a
compliance engine, and four asset tokens (a general RWA token, invoices,
fractional property with pro-rata dividends, and carbon credits) whose every
mint and transfer runs through both.

## Layout

- `src/` — the library, verified with Verus.
  - `types.rs` — identifiers, invocations (ledger time, ledger sequence and
    the parties that authorized a call) and small byte and list helpers.
  - `kyc_registry.rs` — verifiers, approvals with tier, expiry and
    jurisdiction, and the expiry index.
  - `compliance_engine.rs` — transfer rules, blocklist, pause and the holder
    registry; `transfer_verdict` is the rule set as a function.
  - `rwa_token.rs` and `rwa_token/` — the general token with its storage
    helpers (balances, allowances, metadata, compliance metadata).
  - `invoice_token.rs`, `property_token.rs`, `carbon_credit_token.rs` — the
    asset tokens; `dividend.rs` holds the dividend-per-share accounting.
  - `pair_map.rs` — a map keyed by (owner, spender).
  - `laws.rs` — properties that span calls and contracts, proved.
- `tests/` — tests of the library on concrete values.
- `app/` — the Soroban side: address and string conversions, contract types
  and contract errors, and a host that runs the verified contracts in a
  Soroban environment with real authorization.

Each contract is a state machine over plain values. A call takes an
`Invocation`; a refused call returns an error and leaves every state it was
given unchanged. Calls between contracts are made on the registry and engine
values the caller passes, and each postcondition says which verdict of theirs
the call depended on.

Verify with `verus --crate-type lib src/lib.rs`.
