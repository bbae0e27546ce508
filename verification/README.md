# solana-falcon-auth

Verified core of a set of Solana programs for post-quantum application authorization:
a Falcon-512 key program, a Falcon-gated SOL vault, an example consumer, a 2-of-3
post-quantum quorum (Falcon-512, Winternitz, ML-DSA-44), a smart account that moves SOL and
classic SPL tokens under quorum approval, and a registry binding legacy wallets to smart
accounts.

## Layout

- `src/` — the library, verified with Verus.
  - `runtime.rs` — the plain view of an account the programs read, and byte helpers.
  - `digest.rs` — the calls into SHA-256, Keccak-256, SHAKE, Falcon-512 verification and
    program-address derivation, with the contracts the library relies on.
  - `mldsa44/` — ML-DSA-44 verification split into steps (arithmetic, NTT, encodings,
    sampling, the prepared layouts and the protocol). The transforms are proved equal,
    modulo Q, to FIPS 204 Algorithms 41 and 42, and `verify_mldsa44` returns `true` exactly
    when `ML-DSA.Verify` (empty context) accepts, with the hash and sampling streams taken
    from the trusted SHAKE calls, except that sampling reads bounded stream prefixes (1344
    bytes per matrix entry, 544 for the challenge) so that it always ends; a stream that
    would need more is rejected, where the standard keeps reading. The split steps together
    accept exactly when `verify_mldsa44` does (`law_split_steps_match_verify`).
  - `falcon_auth.rs`, `vault.rs`, `consumer.rs`, `registry.rs` — the Falcon key program and
    the programs that call it.
  - `quorum/` — the quorum program: state, Winternitz signatures, payloads, the split ML-DSA
    proof account, setup instructions and the three approvals. Each proof step keeps
    `proof_sound` and the agreement of its progress masks (`law_masks_through_steps`), and an
    approval from a sound proof account satisfies `mldsa44_accepts` for the buffered signature
    on the payload.
  - `smart_account/` — the smart account: state and buffers, setup instructions, transfers.
  - `dispatch.rs` — the instruction tags of every program.

  Each instruction is a function from the accounts' headers, their data and the
  instruction data to either an error or a plan (accounts to create, calls to make,
  balances to set); the contracts state the outcome of every check in order, and the laws
  (`law_*`) state what holds across instructions.
- `app/` — the programs' `process_instruction` functions on the runtime's accounts: they
  convert accounts, call the library and perform what it planned.
- `tests/` — the programs' scenarios run on a small in-process runtime, ML-DSA-44 against
  reference signatures, and unit tests of the library.
