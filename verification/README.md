# quorum_credit

QuorumCredit is a social-trust microlending protocol: vouchers lock stakes
for a borrower, the borrower obtains a loan backed by those stakes, and a
full repayment returns every stake together with a share of the loan's yield.

The protocol's rules live in `src/` as a library verified with Verus:

- `contract.rs`, `lending.rs`, `vouching.rs`, `helpers.rs`, `stake.rs` — the
  contract's state, its invariant, and every operation on it (initialisation,
  vouching and stake management, the withdrawal queue, loan requests,
  repayment, restructuring, administration).  Token transfers and events are
  queued as effects for the host.
- `auction.rs` — auctions of defaulted collateral with bridge-attested bids.
- `webhook.rs` — the webhook subscription registry and the retry policy.
- `metrics.rs`, `openapi.rs`, `search.rs` — monitoring output, the API
  description and the search endpoints.
- `laws.rs` — properties that span operations.

`app/` is the host: the Soroban contract entry points over ledger storage,
the auction helpers, and the asynchronous HTTP webhook sender.  `tests/`
exercises the library on concrete scenarios.
