# gpl_nft_voter

Vote tracking for an NFT voter plugin of SPL governance, verified with Verus.

Each proposal and collection gets a vote state: a byte vector read as a bit
slice (least significant bit of each byte first). The NFT whose name carries
the number `n` (the first run of ASCII digits in its name, followed by a
character that is not a digit) owns bit `n - 1`. Casting a vote sets the bits
of the voting NFTs, refuses an NFT whose bit is already set, and adds the NFTs'
weights into the voter weight record, accumulating over several instructions
on the same proposal.

Layout:

- `src/` — the verified library:
  - `nft_name.rs` — reading the NFT index out of a name;
  - `voted_bits.rs` — the bit view of the vote bytes (through `bitvec`);
  - `voted_nfts.rs` — the vote state, its seeds, its program-derived address
    (through anchor's `Pubkey`) and its set-up;
  - `cast_nft_vote.rs` — the account checks (realm, mint, vote state,
    governing token owner and its signer), one NFT's vote, the batch vote and
    the voter weight record update, with the laws that tie them together;
  - `pubkey.rs`, `error.rs` — addresses and errors (the plugin's, and the one
    governance error that the owner check raises).
- `tests/` — tests of the library.
- `app/` — glue to the Solana runtime: address and metadata conversion,
  logging, the clock, and the walk over the instruction's remaining accounts.
