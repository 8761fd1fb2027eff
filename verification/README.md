# lumina_core

The verified core of the Lumina platform, written in Verus. Every function in
`src/` carries a contract that Verus proves; the few calls into outside
crates (clock, SHA-256, Ed25519, hex, UUIDs) go through small trusted
wrappers whose contracts say only what those crates document.

## Layout

- `src/cross_chain/` — light-client pieces: header cache, committee sync
  with backoff, finality decisions and per-chain metrics.
- `src/congestion/` — zero-window handling for the pool: forced window
  opening, ACK suppression and exponential probe backoff.
- `src/aggregate_cache.rs` — cache of aggregated committee keys by epoch.
- `src/attestation/` — signed relay tickets and the crypto wrappers.
- `src/net/relay/` — relay registry, the attested endpoint cache with
  poison penalties, and the STUN binding handler.
- `src/social/` — the dead-letter queue of failed message processing, the
  health answer, and the log resource with its choice of deployment
  environment.
- `src/contracts/` — the vesting and grant contracts as state machines over
  plain values: configuration manager, vesting vaults, milestone vesting,
  vesting NFTs, virtual accumulator, lessor registry, fraud clawback and the
  anti-reentry guard of grant withdrawals.
  Ledger time and other ledger facts are passed in as arguments; a call that
  fails leaves the state as it was.
- `src/str_map.rs` — an insertion-ordered map keyed by strings.
- `app/` — process plumbing outside the proofs: logging setup from the
  environment and the calls into a vesting contract that the NFT wrapper's
  decisions ask for.
- `tests/` — executable tests of the library.
