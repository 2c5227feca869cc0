# ShadowLend

An over-collateralised lending program. Users supply tokens to markets, borrow
from other markets against what they supplied, and are liquidated when their
debt is no longer covered.

- `src/` is the library: the rules of the program, verified with Verus.
  - `circuits`: yes/no questions and interest on encrypted amounts.
  - `valuation`: tokens to dollars and back; `math`: saturating arithmetic.
  - `oracle`: which posted prices may be used.
  - `interest`: the borrow index and the debts that follow it.
  - `layout`: how positions and price updates lie in their accounts.
  - `health`: collateral and debt over all of a user's markets.
  - `markets`, `positions`, `liquidation`, `stats`: the instructions.
  - `laws`: what holds across the instructions.
  - `chain`, `keys`, `state`, `errors`: the data.
- `tests/` runs the library on concrete values.
- `app/` is the on-chain program around the library: account validation, token
  transfers, and the accounts and events as they are stored.

An instruction that moves tokens answers in two parts: the transfer to make, and
what is recorded once it is made, or why the instruction is refused after all.
