# lockup_contract

A time-locked deposit ledger with tiered, progressively increasing rewards,
verified with Verus.

Users lock one coin of the configured denomination; the deposit's tier fixes
its base APR, which grows by a yearly increase up to a cap. Rewards accrue on
demand, can be claimed at any time while the reward pool covers them, and are
paid out together with the principal once the unlock time has passed. Adding to
a lockup before its unlock time pays out the pending rewards, keeps its start
and unlock times, and moves it to the tier of the combined deposit.

Layout:

- `src/` — the verified library: decimal and timestamp arithmetic (`math`),
  the stored values (`state`), tiers and reward accrual (`rewards`), errors,
  messages, the entry points (`contract`), and properties that span several
  functions (`laws`).
- `app/` — the contract's storage, bank queries and JSON plumbing around the
  library.
- `tests/` — scenarios driven through the library's entry points.
