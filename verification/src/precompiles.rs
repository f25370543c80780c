//! The precompile interface, the precompile addresses and the basic precompile set.
use crate::bytes::{
    be_bytes, be_encode, copy_bytes, lemma_be_bytes_injective, lemma_be_bytes_len,
    lemma_pow256_values,
};
use crate::digest::{blake3_digest, blake3_hash, blake3_hash_64, blake3_stream_64};
use crate::gas;
use crate::keyed::MapKey;
use crate::primitives::{account_address, account_message, PQAddress, PqBytes};
use crate::signatures::{
    ml_dsa_65_accepts, ml_dsa_65_verify, slh_dsa_sha2_256f_accepts, slh_dsa_sha2_256f_verify,
    ML_DSA_65_PUBLIC_KEY_BYTES, ML_DSA_65_SIGNATURE_BYTES, SLH_DSA_SHA2_256F_PUBLIC_KEY_BYTES,
    SLH_DSA_SHA2_256F_SIGNATURE_BYTES,
};
use vstd::prelude::*;

verus! {

/// The bytes of the address of the precompile that verifies one ML-DSA-65 signature.
pub const ML_DSA_65_VERIFY: [u8; 32] = [
    0, 0, 0, 0, 0, 0, 0, 0, 0, 0, 0, 0, 0, 0, 0, 0,
    0, 0, 0, 0, 0, 0, 0, 0, 0, 0, 0, 0, 0, 0, 0, 1,
];

/// The bytes of the address of the precompile that verifies one SLH-DSA-SHA2-256f signature.
pub const SLH_DSA_SHA2_256F_VERIFY: [u8; 32] = [
    0, 0, 0, 0, 0, 0, 0, 0, 0, 0, 0, 0, 0, 0, 0, 0,
    0, 0, 0, 0, 0, 0, 0, 0, 0, 0, 0, 0, 0, 0, 0, 2,
];

/// The bytes of the address of the precompile that verifies many ML-DSA-65 signatures.
pub const ML_DSA_65_BATCH_VERIFY: [u8; 32] = [
    0, 0, 0, 0, 0, 0, 0, 0, 0, 0, 0, 0, 0, 0, 0, 0,
    0, 0, 0, 0, 0, 0, 0, 0, 0, 0, 0, 0, 0, 0, 0, 3,
];

/// The bytes of the address of the precompile that computes a 32-byte BLAKE3 digest.
pub const BLAKE3_256: [u8; 32] = [
    0, 0, 0, 0, 0, 0, 0, 0, 0, 0, 0, 0, 0, 0, 0, 0,
    0, 0, 0, 0, 0, 0, 0, 0, 0, 0, 0, 0, 0, 0, 0, 4,
];

/// The bytes of the address of the precompile that computes 64 bytes of BLAKE3 output.
pub const BLAKE3_512: [u8; 32] = [
    0, 0, 0, 0, 0, 0, 0, 0, 0, 0, 0, 0, 0, 0, 0, 0,
    0, 0, 0, 0, 0, 0, 0, 0, 0, 0, 0, 0, 0, 0, 0, 5,
];

/// The bytes of the address of the precompile that derives the address of a public key.
pub const PQADDRESS_DERIVE: [u8; 32] = [
    0, 0, 0, 0, 0, 0, 0, 0, 0, 0, 0, 0, 0, 0, 0, 0,
    0, 0, 0, 0, 0, 0, 0, 0, 0, 0, 0, 0, 0, 0, 0, 6,
];

/// The address of precompile number `n`: the number in the last four bytes, zeros
/// before it.
pub open spec fn precompile_address(n: nat) -> Seq<u8> {
    Seq::new(28, |i: int| 0u8) + be_bytes(n, 4)
}

/// The address of precompile number `n`.
pub fn numbered_precompile(n: u32) -> (address: PQAddress)
    ensures
        address@ == precompile_address(n as nat),
{
    let bytes = be_encode(n as u64, 4);
    proof {
        lemma_be_bytes_len(n as nat, 4);
    }
    let mut out: [u8; 32] = [0u8;32];
    out[28] = bytes[0];
    out[29] = bytes[1];
    out[30] = bytes[2];
    out[31] = bytes[3];
    assert(out@ =~= precompile_address(n as nat));
    PQAddress(out)
}

/// Precompiles with different numbers have different addresses, and all of them lie
/// in the range of addresses whose first 28 bytes are zero.
pub proof fn law_precompile_addresses(a: u32, b: u32)
    ensures
        precompile_address(a as nat).len() == 32,
        precompile_address(a as nat).take(28) == Seq::new(28, |i: int| 0u8),
        precompile_address(a as nat) == precompile_address(b as nat) ==> a == b,
{
    lemma_be_bytes_len(a as nat, 4);
    lemma_be_bytes_len(b as nat, 4);
    assert(precompile_address(a as nat).take(28) =~= Seq::new(28, |i: int| 0u8));
    assert(precompile_address(a as nat).skip(28) =~= be_bytes(a as nat, 4));
    assert(precompile_address(b as nat).skip(28) =~= be_bytes(b as nat, 4));
    lemma_pow256_values();
    if precompile_address(a as nat) == precompile_address(b as nat) {
        lemma_be_bytes_injective(a as nat, b as nat, 4);
    }
}

/// The precompile constants are the addresses numbered one to six.
pub proof fn law_precompile_constants()
    ensures
        ML_DSA_65_VERIFY@ == precompile_address(1),
        SLH_DSA_SHA2_256F_VERIFY@ == precompile_address(2),
        ML_DSA_65_BATCH_VERIFY@ == precompile_address(3),
        BLAKE3_256@ == precompile_address(4),
        BLAKE3_512@ == precompile_address(5),
        PQADDRESS_DERIVE@ == precompile_address(6),
{
    reveal_with_fuel(be_bytes, 5);
    lemma_be_bytes_len(1, 4);
    assert(ML_DSA_65_VERIFY@ =~= precompile_address(1));
    lemma_be_bytes_len(2, 4);
    assert(SLH_DSA_SHA2_256F_VERIFY@ =~= precompile_address(2));
    lemma_be_bytes_len(3, 4);
    assert(ML_DSA_65_BATCH_VERIFY@ =~= precompile_address(3));
    lemma_be_bytes_len(4, 4);
    assert(BLAKE3_256@ =~= precompile_address(4));
    lemma_be_bytes_len(5, 4);
    assert(BLAKE3_512@ =~= precompile_address(5));
    lemma_be_bytes_len(6, 4);
    assert(PQADDRESS_DERIVE@ =~= precompile_address(6));
}

/// What a precompile answers.
#[derive(Clone, Debug, PartialEq, Eq)]
pub struct PrecompileOutput {
    pub gas_used: u64,
    pub output: PqBytes,
}

/// Code that is reached by address and runs outside the interpreter.
pub trait PrecompileSet {
    type Error;

    fn contains(&self, address: PQAddress) -> bool;

    fn execute(&self, address: PQAddress, input: &[u8], gas_limit: u64) -> Result<
        Option<PrecompileOutput>,
        Self::Error,
    >;
}

/// Why a precompile refuses to run.
#[derive(Clone, Copy, Debug, PartialEq, Eq, Structural)]
pub enum PrecompileError {
    /// The gas limit is below the cost.
    OutOfGas,
    /// There is no algorithm byte to derive an address from.
    MissingAlgorithm,
}

impl PrecompileError {
    pub open spec fn spec_message(self) -> Seq<char> {
        match self {
            PrecompileError::OutOfGas => "precompile is out of gas"@,
            PrecompileError::MissingAlgorithm => "algorithm byte is missing"@,
        }
    }

    /// The error in words.
    pub fn to_string(&self) -> (message: String)
        ensures
            message@ == self.spec_message(),
    {
        match self {
            PrecompileError::OutOfGas => "precompile is out of gas".to_owned(),
            PrecompileError::MissingAlgorithm => "algorithm byte is missing".to_owned(),
        }
    }
}

/// The precompiles of the machine.
#[derive(Clone, Copy, Debug, PartialEq, Eq)]
pub struct BasicPqPrecompiles;

/// One of the precompiles of the machine.
#[derive(Clone, Copy, Debug, PartialEq, Eq, Structural)]
pub enum Precompile {
    MlDsa65Verify,
    SlhDsaSha2256fVerify,
    MlDsa65BatchVerify,
    Blake3256,
    Blake3512,
    PqAddressDerive,
}

impl Precompile {
    /// The address of the precompile.
    pub open spec fn spec_address(self) -> Seq<u8> {
        match self {
            Precompile::MlDsa65Verify => ML_DSA_65_VERIFY@,
            Precompile::SlhDsaSha2256fVerify => SLH_DSA_SHA2_256F_VERIFY@,
            Precompile::MlDsa65BatchVerify => ML_DSA_65_BATCH_VERIFY@,
            Precompile::Blake3256 => BLAKE3_256@,
            Precompile::Blake3512 => BLAKE3_512@,
            Precompile::PqAddressDerive => PQADDRESS_DERIVE@,
        }
    }
}

/// The precompile at an address, if there is one.
pub open spec fn precompile_at(address: Seq<u8>) -> Option<Precompile> {
    if address == ML_DSA_65_VERIFY@ {
        Some(Precompile::MlDsa65Verify)
    } else if address == SLH_DSA_SHA2_256F_VERIFY@ {
        Some(Precompile::SlhDsaSha2256fVerify)
    } else if address == ML_DSA_65_BATCH_VERIFY@ {
        Some(Precompile::MlDsa65BatchVerify)
    } else if address == BLAKE3_256@ {
        Some(Precompile::Blake3256)
    } else if address == BLAKE3_512@ {
        Some(Precompile::Blake3512)
    } else if address == PQADDRESS_DERIVE@ {
        Some(Precompile::PqAddressDerive)
    } else {
        None
    }
}

/// At the address of each precompile stands that precompile.
pub proof fn law_precompile_at(precompile: Precompile)
    ensures
        precompile_at(precompile.spec_address()) == Some(precompile),
{
    assert(ML_DSA_65_VERIFY@[31] == 1);
    assert(SLH_DSA_SHA2_256F_VERIFY@[31] == 2);
    assert(ML_DSA_65_BATCH_VERIFY@[31] == 3);
    assert(BLAKE3_256@[31] == 4);
    assert(BLAKE3_512@[31] == 5);
    assert(PQADDRESS_DERIVE@[31] == 6);
}

/// The number of whole or begun 32-byte words of an input.
pub open spec fn word_count(len: nat) -> nat {
    (len + 31) / 32
}

/// Length of one signed message of a batch: key, signature and a 32-byte message.
pub const BATCH_RECORD_BYTES: usize = 5293;

/// What a precompile costs on an input of a given length.
pub open spec fn precompile_gas(precompile: Precompile, len: nat) -> nat {
    match precompile {
        Precompile::MlDsa65Verify => gas::ML_DSA_65_VERIFY_GAS as nat,
        Precompile::SlhDsaSha2256fVerify => gas::SLH_DSA_SHA2_256F_VERIFY_GAS as nat,
        Precompile::MlDsa65BatchVerify => gas::ML_DSA_65_BATCH_VERIFY_GAS_PER_SIG as nat * (len
            / BATCH_RECORD_BYTES as nat),
        Precompile::Blake3256 | Precompile::Blake3512 => gas::BLAKE3_BASE_GAS as nat
            + gas::BLAKE3_WORD_GAS as nat * word_count(len),
        Precompile::PqAddressDerive => gas::PQADDRESS_DERIVE_GAS as nat,
    }
}

/// Whether `input` is an ML-DSA-65 public key, a signature and a message that the key
/// signed.
pub open spec fn ml_dsa_65_input_valid(input: Seq<u8>) -> bool {
    let key = ML_DSA_65_PUBLIC_KEY_BYTES as int;
    let sig = ML_DSA_65_SIGNATURE_BYTES as int;
    input.len() >= key + sig && ml_dsa_65_accepts(
        input.subrange(0, key),
        input.subrange(key, key + sig),
        input.subrange(key + sig, input.len() as int),
    )
}

/// Whether `input` is an SLH-DSA-SHA2-256f public key, a signature and a message that
/// the key signed.
pub open spec fn slh_dsa_sha2_256f_input_valid(input: Seq<u8>) -> bool {
    let key = SLH_DSA_SHA2_256F_PUBLIC_KEY_BYTES as int;
    let sig = SLH_DSA_SHA2_256F_SIGNATURE_BYTES as int;
    input.len() >= key + sig && slh_dsa_sha2_256f_accepts(
        input.subrange(0, key),
        input.subrange(key, key + sig),
        input.subrange(key + sig, input.len() as int),
    )
}

/// The `i`-th signed message of a batch.
pub open spec fn batch_record(input: Seq<u8>, i: int) -> Seq<u8> {
    input.subrange(i * BATCH_RECORD_BYTES, (i + 1) * BATCH_RECORD_BYTES)
}

/// Whether `input` is a batch of at least one signed message, each of them valid.
pub open spec fn batch_input_valid(input: Seq<u8>) -> bool {
    &&& input.len() > 0
    &&& input.len() % (BATCH_RECORD_BYTES as nat) == 0
    &&& forall|i: int|
        0 <= i < input.len() / (BATCH_RECORD_BYTES as nat) ==> ml_dsa_65_input_valid(
            #[trigger] batch_record(input, i),
        )
}

/// One byte: one for yes, zero for no.
pub open spec fn flag(yes: bool) -> Seq<u8> {
    seq![if yes { 1u8 } else { 0u8 }]
}

/// What a precompile answers to an input for which the gas suffices.
pub open spec fn precompile_output(precompile: Precompile, input: Seq<u8>) -> Result<
    Seq<u8>,
    PrecompileError,
> {
    match precompile {
        Precompile::MlDsa65Verify => Ok(flag(ml_dsa_65_input_valid(input))),
        Precompile::SlhDsaSha2256fVerify => Ok(flag(slh_dsa_sha2_256f_input_valid(input))),
        Precompile::MlDsa65BatchVerify => Ok(flag(batch_input_valid(input))),
        Precompile::Blake3256 => Ok(blake3_digest(input)),
        Precompile::Blake3512 => Ok(blake3_stream_64(input)),
        Precompile::PqAddressDerive => if input.len() == 0 {
            Err(PrecompileError::MissingAlgorithm)
        } else {
            Ok(account_address(input[0], input.skip(1)))
        },
    }
}

fn flag_bytes(yes: bool) -> (bytes: Vec<u8>)
    ensures
        bytes@ == flag(yes),
{
    let mut bytes: Vec<u8> = Vec::new();
    bytes.push(if yes { 1u8 } else { 0u8 });
    assert(bytes@ =~= flag(yes));
    bytes
}

/// Whether an input verifies: its key, then its signature, then its message.
fn ml_dsa_65_input_check(input: &[u8]) -> (valid: bool)
    ensures
        valid == ml_dsa_65_input_valid(input@),
{
    let key_len: usize = ML_DSA_65_PUBLIC_KEY_BYTES;
    let sig_len: usize = ML_DSA_65_SIGNATURE_BYTES;
    if input.len() < key_len + sig_len {
        return false;
    }
    let (key, rest) = input.split_at(key_len);
    let (signature, message) = rest.split_at(sig_len);
    assert(signature@ =~= input@.subrange(key_len as int, key_len + sig_len));
    assert(message@ =~= input@.subrange(key_len + sig_len, input@.len() as int));
    ml_dsa_65_verify(key, signature, message)
}

fn slh_dsa_sha2_256f_input_check(input: &[u8]) -> (valid: bool)
    ensures
        valid == slh_dsa_sha2_256f_input_valid(input@),
{
    let key_len: usize = SLH_DSA_SHA2_256F_PUBLIC_KEY_BYTES;
    let sig_len: usize = SLH_DSA_SHA2_256F_SIGNATURE_BYTES;
    if input.len() < key_len + sig_len {
        return false;
    }
    let (key, rest) = input.split_at(key_len);
    let (signature, message) = rest.split_at(sig_len);
    assert(signature@ =~= input@.subrange(key_len as int, key_len + sig_len));
    assert(message@ =~= input@.subrange(key_len + sig_len, input@.len() as int));
    slh_dsa_sha2_256f_verify(key, signature, message)
}

fn batch_input_check(input: &[u8]) -> (valid: bool)
    ensures
        valid == batch_input_valid(input@),
{
    let total: usize = input.len();
    if total == 0 || total % BATCH_RECORD_BYTES != 0 {
        return false;
    }
    let count: usize = total / BATCH_RECORD_BYTES;
    let mut i: usize = 0;
    while i < count
        invariant
            count == input@.len() / (BATCH_RECORD_BYTES as nat),
            total == input@.len(),
            total == count * BATCH_RECORD_BYTES,
            total > 0,
            i <= count,
            forall|j: int| 0 <= j < i ==> ml_dsa_65_input_valid(#[trigger] batch_record(input@, j)),
        decreases count - i,
    {
        let start: usize = i * BATCH_RECORD_BYTES;
        let record = &input[start..start + BATCH_RECORD_BYTES];
        assert(record@ =~= batch_record(input@, i as int));
        if !ml_dsa_65_input_check(record) {
            return false;
        }
        i = i + 1;
    }
    true
}

/// The cost of a precompile, or `None` if it is above every gas limit.
fn gas_cost(precompile: Precompile, len: usize) -> (cost: Option<u64>)
    ensures
        match cost {
            Some(amount) => amount == precompile_gas(precompile, len as nat),
            None => precompile_gas(precompile, len as nat) > u64::MAX,
        },
{
    match precompile {
        Precompile::MlDsa65Verify => Some(gas::ML_DSA_65_VERIFY_GAS),
        Precompile::SlhDsaSha2256fVerify => Some(gas::SLH_DSA_SHA2_256F_VERIFY_GAS),
        Precompile::MlDsa65BatchVerify => gas::ML_DSA_65_BATCH_VERIFY_GAS_PER_SIG.checked_mul(
            (len / BATCH_RECORD_BYTES) as u64,
        ),
        Precompile::Blake3256 | Precompile::Blake3512 => {
            let words: u64 = (len / 32) as u64 + if len % 32 == 0 {
                0u64
            } else {
                1u64
            };
            assert(words == word_count(len as nat));
            Some(gas::BLAKE3_BASE_GAS + gas::BLAKE3_WORD_GAS * words)
        },
        Precompile::PqAddressDerive => Some(gas::PQADDRESS_DERIVE_GAS),
    }
}

/// Runs a precompile on an input for which the gas suffices.
fn run_precompile(precompile: Precompile, input: &[u8]) -> (answer: Result<
    Vec<u8>,
    PrecompileError,
>)
    ensures
        match answer {
            Ok(output) => precompile_output(precompile, input@) == Ok::<Seq<u8>, PrecompileError>(
                output@,
            ),
            Err(error) => precompile_output(precompile, input@) == Err::<Seq<u8>, PrecompileError>(
                error,
            ),
        },
{
    match precompile {
        Precompile::MlDsa65Verify => Ok(flag_bytes(ml_dsa_65_input_check(input))),
        Precompile::SlhDsaSha2256fVerify => Ok(flag_bytes(slh_dsa_sha2_256f_input_check(input))),
        Precompile::MlDsa65BatchVerify => Ok(flag_bytes(batch_input_check(input))),
        Precompile::Blake3256 => Ok(copy_bytes(blake3_hash(input).as_slice())),
        Precompile::Blake3512 => Ok(copy_bytes(blake3_hash_64(input).as_slice())),
        Precompile::PqAddressDerive => {
            if input.len() == 0 {
                return Err(PrecompileError::MissingAlgorithm);
            }
            let (head, public_key) = input.split_at(1);
            assert(public_key@ =~= input@.skip(1));
            Ok(copy_bytes(PQAddress::derive(head[0], public_key).as_bytes().as_slice()))
        },
    }
}

impl BasicPqPrecompiles {
    /// The precompile at an address.
    fn at(address: PQAddress) -> (found: Option<Precompile>)
        ensures
            found == precompile_at(address@),
    {
        if address.same_key(&PQAddress(ML_DSA_65_VERIFY)) {
            Some(Precompile::MlDsa65Verify)
        } else if address.same_key(&PQAddress(SLH_DSA_SHA2_256F_VERIFY)) {
            Some(Precompile::SlhDsaSha2256fVerify)
        } else if address.same_key(&PQAddress(ML_DSA_65_BATCH_VERIFY)) {
            Some(Precompile::MlDsa65BatchVerify)
        } else if address.same_key(&PQAddress(BLAKE3_256)) {
            Some(Precompile::Blake3256)
        } else if address.same_key(&PQAddress(BLAKE3_512)) {
            Some(Precompile::Blake3512)
        } else if address.same_key(&PQAddress(PQADDRESS_DERIVE)) {
            Some(Precompile::PqAddressDerive)
        } else {
            None
        }
    }
}

impl PrecompileSet for BasicPqPrecompiles {
    type Error = PrecompileError;

    fn contains(&self, address: PQAddress) -> (present: bool)
        ensures
            present == (precompile_at(address@) is Some),
    {
        BasicPqPrecompiles::at(address).is_some()
    }

    fn execute(&self, address: PQAddress, input: &[u8], gas_limit: u64) -> (answer: Result<
        Option<PrecompileOutput>,
        PrecompileError,
    >)
        ensures
            match precompile_at(address@) {
                None => answer matches Ok(None),
                Some(precompile) => if precompile_gas(precompile, input@.len()) > gas_limit {
                    answer matches Err(PrecompileError::OutOfGas)
                } else {
                    match precompile_output(precompile, input@) {
                        Ok(output) => answer matches Ok(Some(got)) && got.gas_used
                            == precompile_gas(precompile, input@.len()) && got.output@ == output,
                        Err(error) => answer matches Err(got) && got == error,
                    }
                },
            },
    {
        let precompile = match BasicPqPrecompiles::at(address) {
            Some(precompile) => precompile,
            None => {
                return Ok(None);
            },
        };
        let cost: u64 = match gas_cost(precompile, input.len()) {
            Some(cost) => cost,
            None => {
                return Err(PrecompileError::OutOfGas);
            },
        };
        if cost > gas_limit {
            return Err(PrecompileError::OutOfGas);
        }
        match run_precompile(precompile, input) {
            Ok(output) => Ok(Some(PrecompileOutput { gas_used: cost, output })),
            Err(error) => Err(error),
        }
    }
}

/// Asked for the derivation message of a public key, the address precompile answers
/// the address of its account, and the digest precompile answers the same bytes.
pub proof fn law_derive_precompile(algo_id: u8, public_key: Seq<u8>)
    ensures
        precompile_output(Precompile::PqAddressDerive, account_message(algo_id, public_key)) == Ok::<
            Seq<u8>,
            PrecompileError,
        >(account_address(algo_id, public_key)),
        precompile_output(Precompile::Blake3256, account_message(algo_id, public_key))
            == precompile_output(
            Precompile::PqAddressDerive,
            account_message(algo_id, public_key),
        ),
{
    let input = account_message(algo_id, public_key);
    assert(input[0] == algo_id);
    assert(input.skip(1) =~= public_key);
}

/// The address of a numbered precompile spells the number in its last four bytes, most
/// significant first, and has zeros before them.
pub proof fn law_precompile_address_bytes(n: u32)
    ensures
        ({
            let address = precompile_address(n as nat);
            &&& address.len() == 32
            &&& forall|i: int| 0 <= i < 28 ==> #[trigger] address[i] == 0
            &&& address[28] == n as int / 0x100_0000
            &&& address[29] == n as int / 0x1_0000 % 0x100
            &&& address[30] == n as int / 0x100 % 0x100
            &&& address[31] == n as int % 0x100
        }),
{
    reveal_with_fuel(be_bytes, 5);
    lemma_be_bytes_len(n as nat, 4);
    let low = be_bytes(n as nat, 4);
    assert(low =~= seq![
        (n as nat / 256 / 256 / 256 % 256) as u8,
        (n as nat / 256 / 256 % 256) as u8,
        (n as nat / 256 % 256) as u8,
        (n as nat % 256) as u8,
    ]);
}

/// Which precompile stands at an address: one to six at the addresses that spell these
/// numbers, and none anywhere else.
pub proof fn law_precompile_places(address: Seq<u8>)
    ensures
        precompile_at(address) == Some(Precompile::MlDsa65Verify) <==> address
            == precompile_address(1),
        precompile_at(address) == Some(Precompile::SlhDsaSha2256fVerify) <==> address
            == precompile_address(2),
        precompile_at(address) == Some(Precompile::MlDsa65BatchVerify) <==> address
            == precompile_address(3),
        precompile_at(address) == Some(Precompile::Blake3256) <==> address == precompile_address(
            4,
        ),
        precompile_at(address) == Some(Precompile::Blake3512) <==> address == precompile_address(
            5,
        ),
        precompile_at(address) == Some(Precompile::PqAddressDerive) <==> address
            == precompile_address(6),
{
    law_precompile_constants();
    law_precompile_at(Precompile::MlDsa65Verify);
    law_precompile_at(Precompile::SlhDsaSha2256fVerify);
    law_precompile_at(Precompile::MlDsa65BatchVerify);
    law_precompile_at(Precompile::Blake3256);
    law_precompile_at(Precompile::Blake3512);
    law_precompile_at(Precompile::PqAddressDerive);
}

/// What the precompiles cost on an input of `len` bytes.
pub proof fn law_precompile_costs(len: nat)
    ensures
        precompile_gas(Precompile::MlDsa65Verify, len) == 46_000,
        precompile_gas(Precompile::SlhDsaSha2256fVerify, len) == 2_300_000,
        precompile_gas(Precompile::MlDsa65BatchVerify, len) == 12_000 * (len / 5293),
        precompile_gas(Precompile::Blake3256, len) == 30 + 6 * ((len + 31) / 32),
        precompile_gas(Precompile::Blake3512, len) == 30 + 6 * ((len + 31) / 32),
        precompile_gas(Precompile::PqAddressDerive, len) == 200,
{
}

/// The verifiers answer one byte, one exactly if the scheme accepts the key, the
/// signature and the message that the input holds one after the other; an input too
/// short for a key and a signature is answered zero.
pub proof fn law_verifier_answers(input: Seq<u8>)
    ensures
        ({
            let n = input.len() as int;
            let ml = n >= 5261 && ml_dsa_65_accepts(
                input.subrange(0, 1952),
                input.subrange(1952, 5261),
                input.subrange(5261, n),
            );
            let slh = n >= 49920 && slh_dsa_sha2_256f_accepts(
                input.subrange(0, 64),
                input.subrange(64, 49920),
                input.subrange(49920, n),
            );
            &&& ml ==> precompile_output(Precompile::MlDsa65Verify, input) == Ok::<
                Seq<u8>,
                PrecompileError,
            >(seq![1u8])
            &&& !ml ==> precompile_output(Precompile::MlDsa65Verify, input) == Ok::<
                Seq<u8>,
                PrecompileError,
            >(seq![0u8])
            &&& slh ==> precompile_output(Precompile::SlhDsaSha2256fVerify, input) == Ok::<
                Seq<u8>,
                PrecompileError,
            >(seq![1u8])
            &&& !slh ==> precompile_output(Precompile::SlhDsaSha2256fVerify, input) == Ok::<
                Seq<u8>,
                PrecompileError,
            >(seq![0u8])
        }),
{
}

/// Whether the record that begins at a place of a batch is well signed: 1952 bytes of
/// key, 3309 of signature and 32 of message.
pub open spec fn record_accepted(input: Seq<u8>, start: int) -> bool {
    ml_dsa_65_accepts(
        input.subrange(start, start + 1952),
        input.subrange(start + 1952, start + 5261),
        input.subrange(start + 5261, start + 5293),
    )
}

/// The batch verifier answers one exactly if the input is one or more whole records of
/// 5293 bytes and every one of them is well signed, and zero otherwise.
pub proof fn law_batch_answers(input: Seq<u8>)
    ensures
        ({
            let all = input.len() > 0 && input.len() % 5293 == 0 && forall|i: int|
                0 <= i < input.len() / 5293 ==> #[trigger] record_accepted(input, i * 5293);
            &&& all ==> precompile_output(Precompile::MlDsa65BatchVerify, input) == Ok::<
                Seq<u8>,
                PrecompileError,
            >(seq![1u8])
            &&& !all ==> precompile_output(Precompile::MlDsa65BatchVerify, input) == Ok::<
                Seq<u8>,
                PrecompileError,
            >(seq![0u8])
        }),
{
    if input.len() % 5293 == 0 {
        assert forall|i: int| 0 <= i < input.len() / 5293 implies ml_dsa_65_input_valid(
            #[trigger] batch_record(input, i),
        ) == record_accepted(input, i * 5293) by {
            let record = batch_record(input, i);
            let start = i * 5293;
            assert(0 <= start && start + 5293 <= input.len());
            assert(record.subrange(0, 1952) =~= input.subrange(start, start + 1952));
            assert(record.subrange(1952, 5261) =~= input.subrange(start + 1952, start + 5261));
            assert(record.subrange(5261, 5293) =~= input.subrange(start + 5261, start + 5293));
        }
        if forall|i: int|
            0 <= i < input.len() / 5293 ==> #[trigger] record_accepted(input, i * 5293) {
            assert forall|i: int| 0 <= i < input.len() / 5293 implies ml_dsa_65_input_valid(
                #[trigger] batch_record(input, i),
            ) by {
                assert(record_accepted(input, i * 5293));
            }
        } else {
            let i = choose|i: int|
                0 <= i < input.len() / 5293 && !#[trigger] record_accepted(input, i * 5293);
            assert(!ml_dsa_65_input_valid(batch_record(input, i)));
        }
    }
}

/// The digest precompiles answer the digest, or the first 64 bytes of the output stream,
/// of the whole input; the address precompile answers the digest of an input that has an
/// algorithm byte, and refuses the empty one.
pub proof fn law_digest_answers(input: Seq<u8>)
    ensures
        precompile_output(Precompile::Blake3256, input) == Ok::<Seq<u8>, PrecompileError>(
            blake3_digest(input),
        ),
        precompile_output(Precompile::Blake3512, input) == Ok::<Seq<u8>, PrecompileError>(
            blake3_stream_64(input),
        ),
        input.len() > 0 ==> precompile_output(Precompile::PqAddressDerive, input) == Ok::<
            Seq<u8>,
            PrecompileError,
        >(blake3_digest(input)),
        input.len() == 0 ==> precompile_output(Precompile::PqAddressDerive, input) == Err::<
            Seq<u8>,
            PrecompileError,
        >(PrecompileError::MissingAlgorithm),
{
    if input.len() > 0 {
        assert(seq![input[0]] + input.skip(1) =~= input);
    }
}

/// What the refusals of the precompiles are called.
pub proof fn law_precompile_words()
    ensures
        PrecompileError::OutOfGas.spec_message() == "precompile is out of gas"@,
        PrecompileError::MissingAlgorithm.spec_message() == "algorithm byte is missing"@,
{
}

} // verus!
