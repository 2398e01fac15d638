# harvesta

Verified core of the Harvesta Soroban contracts, written in Verus.

Each contract is a state machine over its storage: every entry point takes
the current state, the parties that signed the invocation (`Signers`) and the
values the host supplies (ledger time, the platform pause flag), and either
refuses with a `Fault` that leaves the state untouched or performs exactly the
change its contract describes.

- `src/` — the library, verified by Verus:
  - `carbon_dex` — per-token liquidity pools with locked minimum liquidity;
  - `farmer_registry` — validator-gated farmer profiles whose document hashes
    are checked with SHA-256, versions, plots, land tenures, freezes;
  - `kyc_attestation` — verifier-gated KYC, ZK-proof path with replay
    protection, jurisdiction flags;
  - `tree_registry` — sponsored and anonymous tree minting, dashboards;
  - `zk_location_verifier` — commit / approve / reject flow, batches, proof
    cache;
  - `reentrancy`, `contract_utils` — lock and whitelist helpers;
  - `table`, `common`, `crypto`, `harvesta_errors` — shared storage model,
    identities, host hashing and error codes.
- `tests/` — scenarios run against the compiled library.
- `app/` — the host side: address directory, authorisation, cross-contract
  calls, token transfers, events and storage lifetimes.

Three further contract sources of the suite — `escrow`, `planter-registry`
and `carbon-marketplace` — are not covered: as they stand they do not parse
(the escrow source opens `initialize` twice, and the other two have
unbalanced braces), so their intended behaviour cannot be read off them with
confidence. Their logic stands neither in `src/` nor in `app/`.
