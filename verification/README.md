# pqvm

The Shell-Chain post-quantum virtual machine, written and verified in Verus: 32-byte
addresses derived with BLAKE3, transactions signed with ML-DSA-65 or
SLH-DSA-SHA2-256f, an in-memory world state with checkpoints, the precompile set, and
the execution of transactions and blocks.

## Layout

- `src/primitives.rs`: addresses, hashes, algorithms, the transaction envelope and its
  signing message.
- `src/word.rs`, `src/bytes.rs`, `src/hexcode.rs`: 256-bit words, big-endian bytes,
  hexadecimal text.
- `src/digest.rs`, `src/signatures.rs`: BLAKE3 and the signature schemes.
- `src/keyed.rs`, `src/state.rs`: finite maps, accounts, storage, checkpoints, diffs.
- `src/interpreter.rs`: the stack and the call frame. No opcode is implemented; empty
  code succeeds, and the removed `CALLCODE` is refused by name.
- `src/precompiles.rs`, `src/gas.rs`: precompile addresses, behaviour and cost.
- `src/transaction.rs`, `src/block.rs`: execution.
- `src/laws.rs`: what holds of executions as a whole, such as the conservation of the
  sum of balances, the impossibility of a replay and the gas of a block.
- `app/`: serializable envelopes, displayable addresses and errors with messages.

## What is trusted

Functions marked `external_body` call another crate, and their contracts are believed:
the arithmetic of `alloy_primitives::U256`, `blake3`, `hex`, and signature verification
with `pqcrypto-dilithium` and `pqcrypto-sphincsplus`. The vector code of these two is
switched off in the manifest, because its ML-DSA-65 verifier accepts signatures that the
portable one refuses, and a verdict must not depend on the machine. Digests and signature verdicts are
given names, and the contracts above them speak of those names. Everything else is
proved.
