# amm

A constant-product (x * y = k) automated market maker for two tokens, with
LP shares, a pool fee that stays with the LPs, a protocol fee that goes to a
treasury, and a lock that stops deposits and swaps but never withdrawals.

- `src/` is the verified library (Verus): the pool arithmetic (`curve`), the
  configuration (`state`), and the decision of each instruction
  (`instructions`): given the balances and settings an instruction reads, it
  answers with the token movements to make or the error that refuses the
  request. `laws` proves properties that span the instructions: a swap never
  lowers the product of the reserves, deposits and withdrawals never dilute
  the other LPs, a deposit followed by a withdrawal returns at most what was
  paid, a locked pool refuses deposits and swaps but not withdrawals.
- `app/` is the on-chain program around it: account validation, the token
  transfers, mints and burns, and the program entry points.
- `tests/` runs the library on concrete values.
