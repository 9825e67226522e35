# bluechip

The creator pool and the multi-hop router of the bluechip exchange, written in Verus: every
function states what it returns and changes, and Verus proves it.

A creator pool collects commits up to a funding threshold. Crossing the threshold mints the
creator token, seeds a constant-product pool and starts handing tokens out to the committers,
in batches that anyone may call for. From there on the pool trades. The router chains up to
three pools into one swap and holds the whole route to a minimum.

## Layout

- `src/` is the library.
  - `number`, `text`, `table`, `chain`, `error`, `asset`: amounts and decimals, how they are
    written, ordered tables, what a call brings along and answers, tokens.
  - `pool`: the state of a pool (`state`), prices and spreads (`swap_helper`), fees, payouts and
    batches (`generic_helpers`), shares and claims (`liquidity_helpers`), commits (`commit`),
    administration (`admin`), swaps and the dispatch of calls (`contract`), queries (`query`).
    `laws` states what holds of the pool as a whole, and `range` decides ahead of a call whether
    its arithmetic stays in range.
  - `router`: routes (`execution`), previews (`simulation`), settings (`contract`), and `laws`.
- `tests/` runs the library on concrete values.
- `app/` is the contracts around it: entry points, storage, queries to other contracts and wire
  formats.

What the chain, the oracle and other contracts answer reaches the library as arguments, so the
library is proved for every answer. The arithmetic of `cosmwasm_std` and `cw_utils::must_pay` are
called through small trusted functions in `number` and `asset`, each with the contract that its
documentation gives it.
