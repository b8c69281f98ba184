# pallet_authors

Economically backed block authors, as a verified library: authors enrol with
collateral, are backed by accounts directly or through indexes and pools,
earn rewards and suffer penalties that fall due some blocks later, move
between probation and permanence by their risk, and take part in elections.

Every operation is an executable function with a `requires`/`ensures`
contract proved by Verus. The commitment system that freezes collateral and
backing, the activity provider and the influence model are supplied by the
runtime that uses the library, through the traits in `src/adapter.rs`; the
contracts are stated over what those traits name.

Layout of `src/`:

- `perbill.rs`: parts-per-billion ratios and their rounding.
- `keys.rs`: the order in which storage meets the entries under one key:
  by their `Blake2_128Concat` keys, hashed with `sp-crypto-hashing`.
- `table.rs`: the keyed tables the storage is made of.
- `types.rs`: author metadata, funders, errors, events.
- `adapter.rs`: what the runtime supplies.
- `pallet.rs`: storage, settings and genesis.
- `hooks.rs`: the events each operation reports.
- `probation.rs`, `roles.rs`, `funding.rs`, `compensation.rs`,
  `election.rs`: the role operations.
- `calls.rs`: the calls, with their origins.
- `laws.rs`: properties that relate several operations.

`tests/authors.rs` runs the library against an in-memory ledger.
