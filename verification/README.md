# sim

A minimal closed-economy simulation: a fixed pile of money and one good change
hands between households and firms, tick by tick, under a set of audits that
halt the run on the first broken invariant.

The library under `src/` is verified with Verus:

- `money` — integer cents with checked arithmetic and an exact split;
- `ids` — household and firm identities, and the generational firm arena;
- `config` — the parameter set, its domain checks, and the hash of the file;
- `books` — the double-entry ledger: transfers, production, consumption and
  exchanges, each refused or committed whole, with conservation proved;
- `invariants` — the audits (money and goods conservation, non-negativity,
  well-formed postings, liveness) and the laws that healthy books pass them;
- `rng` — the seeded generator and its per-purpose sub-streams;
- `world`, `phases` — the population and the tick pipeline;
- `log` — the records a run emits, their declared schema, and the text
  helpers that read it back.

`app/` holds the command line: reading the parameter file, writing the run
directory, and the floating-point helpers.
