# codesearch symbol lookup

The verified core of the `find_impact` tool of a code-search server.

- `src/` is the library, checked by Verus:
  - `tables`, `codec`, `resolve`: the tables of a SCIP symbol index, the
    payloads stored in them (bincode key lists and references), and how a
    name, a file position or an exact key resolves to canonical keys.
  - `references`: collapsing repeated references.
  - `budget`: the wall-clock budget from its environment value, and the
    race of a lookup against it.
  - `envelopes`, `handler`: the answers (busy, typed failure, ambiguity,
    references) and the decisions that choose between them.
  - `warnings`: rebuild warnings in the meta table.
  - `git`: reading the commit of a checkout from its `.git` files.
  - `fixtures`: sample indexes and requests.
- `app/` holds what Verus does not see: the LMDB store (heed), environment
  and file reads, the tokio race, and the serde copies of the envelopes.
- `tests/` runs the library on concrete values.
