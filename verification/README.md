# secret_token

A fungible token whose balances and transfers are shown only to those who have an account's
viewing key. Native coins can be deposited for tokens and withdrawn again, tokens can be moved,
burned, minted by an admin, spent on an owner's behalf, and burned to be paid out elsewhere.

`src/` is the library, verified with Verus.

- `contract` runs messages and answers questions; `guard` tells beforehand whether a call stays
  within the range of amounts.
- `model` says what each message does and what each question is answered, as functions of the
  storage and of the answers that the chain gave; the contracts of `contract` speak of these.
- `laws` holds what follows for the token as a whole: the supply always covers the balances,
  nobody but the owner and its spenders debits an account, spenders stay within what the owner last approved,
  a wrong viewing key learns nothing.
- `state`, `api`, `viewing_key` and `deps` are what a message works on; `types` and `msg` are what
  goes in and out; `display`, `listing`, `text`, `utils`, `names` and `codec` write and read texts
  and bytes; `table` and `ledger` are the lookup table and the sum of all balances.

Two calls are trusted rather than proved: `Decimal::from_ratio` of `cosmwasm-std` with the text of
its result, in `display`, and std's quoting of a text, in `listing`.

`app/` runs the library as a contract of the chain. It reads what a message works on from the
chain's storage, has the chain convert addresses, writes back what has changed, and puts messages
and answers into JSON. How viewing keys are made and hashed is left to its `KeyScheme`.
