# core_invoice

An invoicing contract. A creator issues an invoice to a payer for a decimal
value; the payer pays it off in one or more payments in the invoice's unit.
Each payment is recorded on the invoice and stored on its own; the invoice is
`Open` until the first payment, then `Partially Paid`, and `Closed` once
nothing is outstanding.

- `src/` is the library, verified with Verus: the records (`state`), their
  creation and payment (`invoice`), the contract's store (`store`, invoices
  walked in ascending byte order of their ids, `key_order`), the entry points
  (`contract`), and properties that span operations (`laws`). Decimal amounts
  are kept as atomics (value times 10^18) and parsed by the platform's own
  decimal parser (`decimal`).
- `app/` holds the deployed entry points: they read and write chain storage,
  ask the host to validate addresses, and hand the library plain values.
- `tests/` runs the library on concrete messages.
