# exo_programs

The instruction logic of four Solana programs, verified with Verus:

- `exo_token` – the EXO token: role-checked mint and burn, role updates, pause.
- `gcred_token` – the GCRED token: role-checked mint and burn, purchases split
  25% / 5% / 70% between the MD account, the DAO account and a burn, and
  transfers that pay a 2% MD fee and burn 3%.
- `bridge` – mints and burns EXO or GCRED for cross-chain transfers.
- `staking_reward` – EXO staking with tiers, per-rate stake counters and
  tier candidacies.

`src/` holds the verified library: each instruction is a function from the
program's account and the instruction's arguments to the new account and the
token operations to perform, with its contract. `amount` parses the decimal
amounts that every instruction takes; `pubkey` is the 32-byte address type.

`app/` is the runtime side (Anchor): it reads and writes the program accounts,
checks signers, reads the clock and token balances, and performs the
token-program and cross-program calls that the library answers with.
