//! Gas constants and helpers.
use vstd::prelude::*;

verus! {

pub const BLOCK_GAS_LIMIT: u64 = 50_000_000;

pub const MAX_TX_PER_BLOCK: usize = 500;

pub const INTRINSIC_GAS_TX: u64 = 21_000;

pub const ML_DSA_65_VERIFY_GAS: u64 = 46_000;

pub const SLH_DSA_SHA2_256F_VERIFY_GAS: u64 = 2_300_000;

pub const ML_DSA_65_BATCH_VERIFY_GAS_PER_SIG: u64 = 12_000;

pub const BLAKE3_BASE_GAS: u64 = 30;

pub const BLAKE3_WORD_GAS: u64 = 6;

pub const PQADDRESS_DERIVE_GAS: u64 = 200;

pub const PQVERIFY_OPCODE: u8 = 0xB0;

pub const PQHASH_OPCODE: u8 = 0xB1;

pub const PQADDR_OPCODE: u8 = 0xB2;

/// Gas of a transfer that carries one ML-DSA-65 signature.
pub fn simple_ml_dsa_transfer_gas() -> (gas: u64)
    ensures
        gas == INTRINSIC_GAS_TX + ML_DSA_65_VERIFY_GAS,
{
    INTRINSIC_GAS_TX + ML_DSA_65_VERIFY_GAS
}

/// How many such transfers the block gas limit admits.
pub fn simple_ml_dsa_transfers_by_gas() -> (count: u64)
    ensures
        count as int == BLOCK_GAS_LIMIT as int / (INTRINSIC_GAS_TX + ML_DSA_65_VERIFY_GAS),
{
    BLOCK_GAS_LIMIT / simple_ml_dsa_transfer_gas()
}

/// A block of simple ML-DSA-65 transfers reaches the transaction cap before the gas
/// limit: as many of them as the cap admits fit in the limit, and the limit admits
/// more than the cap.
pub proof fn law_hard_cap_binds(count: nat)
    requires
        count <= MAX_TX_PER_BLOCK,
    ensures
        count * (INTRINSIC_GAS_TX + ML_DSA_65_VERIFY_GAS) < BLOCK_GAS_LIMIT,
        MAX_TX_PER_BLOCK < BLOCK_GAS_LIMIT as int / (INTRINSIC_GAS_TX + ML_DSA_65_VERIFY_GAS),
{
}

} // verus!
