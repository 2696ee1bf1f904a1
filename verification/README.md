# mycelium

A Solana NFT staking program, with its decisions verified in Verus.

Users stake NFTs of the program's own collection, earn one reward token per
second per staked NFT, claim those rewards, and unstake. The program also
mints the collection's NFTs.

- `src/` is the verified library:
  - `pubkey.rs`: account addresses as 32 bytes, and base58 parsing;
  - `stake_info.rs`: the per-user stake record, its model, its size;
  - `staking.rs`: what `initialize_user`, `stake`, `unstake` and `claim`
    decide and change;
  - `metadata.rs`: the collection check that admits an NFT, and the
    metadata of the NFTs the program mints;
  - `laws.rs`: properties of the operations taken together.
- `app/` is the Anchor program: account validation, the clock and rent
  reads, and the token, metadata and system program calls.
- `tests/` runs the library on concrete values.
