# provenance

A supply chain provenance registry, verified with Verus: participants register
with a role, farmers (and the role `Other`) register products, owners hand
products over and set their lifecycle status, owners and inspectors record
events, and every product keeps an append-only, numbered history.

- `src/types.rs` — errors, roles, statuses, addresses and the records, with
  their mathematical views.
- `src/spec.rs` — the abstract registry state (`ProvenanceView`), its validity
  invariant, what each operation does to it, runs of calls (`Operation`,
  `apply`, `run`) with the counts of successful calls, and paging.
- `src/contract.rs` — the executable registry (`Provenance`), each operation
  proved to refine its abstract counterpart and to keep the invariant, plus the
  stored form (`from_parts` / `into_parts`).
- `src/laws.rs` — laws over the abstract state: every reachable state is
  valid, histories only grow along any run, the admin is set once, product and
  event counts equal the numbers of successful calls, what a read returns after
  a write, inspector access, transfers move products between owner lists, and
  pages tile a list.
- `app/lib.rs` — the Soroban contract: authentication, ledger time, contract
  storage, and conversion between host values and library values.
