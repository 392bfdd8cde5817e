# pallets

Three on-chain registries written as verified state machines:

- `account`: each signed account registers one profile and may replace it.
- `cv`: signed accounts create credential items, listed per account, and revoke them.
- `sysman`: system managers approve managers and organisations and revoke
  managers of a lower rank; revoked managers are kept apart for good.

Each registry is a `Pallet` value owning its storage tables and its event
list. Each call is specified by a `*_model` spec function over the
registry's view, and the proof functions named `lemma_*` state the laws
that hold across calls. `dispatch` holds call origins and results;
`utils` the shared roles, statuses and creation records.

`app/` holds the SCALE-encodable and serde forms of the records, with
conversions to and from the library's types.
