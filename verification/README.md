# magic_hat

A verified library for the magic hat NFT sale program on Solana. The
library (`src/`, checked with Verus) holds the program's decisions: the
checks of each instruction, in the order the program runs them, and what
each one writes; `app/` is the Anchor program around it, which reads and
writes accounts and makes the cross-program calls that the library asks
for.

- `state.rs`, `wallet_whitelist.rs`, `whitelist_config.rs`: the accounts, as
  plain values (addresses are 32-byte arrays).
- `processor/initialize.rs`: account size, creation of a magic hat (UUID,
  sale token, symbol padding, creator limit), the config-line count.
- `processor/update.rs`: settings and authority updates.
- `processor/whitelist_mint.rs`: the single checks of a whitelisted mint,
  the mint bitmask search and the reading of config lines.
- `processor/mint_session.rs`: a whitelisted mint from start to end: the
  checks in order, the outside calls they lead to, and what a successful
  mint changes; laws over sequences of mints.
- `processor/instruction_scan.rs`: reading the instructions sysvar and
  checking which programs a transaction calls.
- `whitelist_instructions/`, `whitelist_config_instructions/`: whitelist
  entries and the tier schedule.
