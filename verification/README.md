# remitwise

Verified core of the RemitWise contracts: a remittance split, bill payments,
micro-insurance policies with premium schedules, savings goals with deposit
schedules and checksummed snapshots, and a multi-signature family wallet.

Layout:

- `src/` — the library, verified with Verus. Each contract is a state
  machine over plain values (`BillPayments`, `Insurance`,
  `SavingsGoalContract`, `FamilyWallet`, `RemittanceSplit`); every operation
  takes the ledger time as an argument and states in its contract exactly
  which result and which new state it produces, and on which inputs it
  refuses. Where a contract fails outright, the operation requires that the
  request is acceptable, and a companion `*_refusal` function reports, for
  the caller to check first, why a request would be turned away. Shared
  pieces: `address` (account numbers and a small map keyed
  by them), `id_map` (records ordered by identifier), `admin` (pause and
  upgrade administration), `schedule` (catching up recurring schedules),
  `events` (event topic codes). Public `law_*` proof functions state
  properties that span several operations.
- `tests/` — executable tests of the library.
- `app/` — the Soroban contracts: authorisation, instance storage, events
  and token transfers around the library.
