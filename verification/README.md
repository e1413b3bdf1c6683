# downtown_program

A town of houses, each backed by an NFT, with a rent vault.

- `src/` is the verified core: addresses (`key`), positions (`vector3d`),
  houses (`building`), errors (`custom_error`), the town and its laws
  (`town`), lamport balances and account sizes (`lamports`), and the rent
  vault arithmetic (`rent`).
- `app/` is the on-chain program around it: account validation, the
  serialized forms of the town, and the token and lamport transfers that the
  core's decisions ask for.
- `tests/` runs the core on concrete values.

Claiming rent and emptying the rent vault are not instructions of `app/`:
the town's records hold no slot at which a house was placed and the program
defines no rent rate, so claiming is offered only as `Town::claim_rent` (and
`rent::claim_rent_amount`), which take the placement slot and the rate as
arguments and decide the amount and whether the vault can pay it.
