use pqcrypto_dilithium::dilithium3;
use pqcrypto_sphincsplus::sphincssha2256fsimple;
use pqcrypto_traits::sign::{DetachedSignature, PublicKey};
use pqvm::precompiles::{
    numbered_precompile, BasicPqPrecompiles, PrecompileError, PrecompileOutput, PrecompileSet,
    BATCH_RECORD_BYTES, BLAKE3_256, BLAKE3_512, ML_DSA_65_BATCH_VERIFY, ML_DSA_65_VERIFY,
    PQADDRESS_DERIVE, SLH_DSA_SHA2_256F_VERIFY,
};
use pqvm::signatures::{
    ML_DSA_65_PUBLIC_KEY_BYTES, ML_DSA_65_SIGNATURE_BYTES, SLH_DSA_SHA2_256F_PUBLIC_KEY_BYTES,
    SLH_DSA_SHA2_256F_SIGNATURE_BYTES,
};
use pqvm::PQAddress;

fn run(at: [u8; 32], input: &[u8], gas: u64) -> Result<Option<PrecompileOutput>, PrecompileError> {
    BasicPqPrecompiles.execute(PQAddress(at), input, gas)
}

fn answer(at: [u8; 32], input: &[u8]) -> PrecompileOutput {
    run(at, input, u64::MAX).unwrap().unwrap()
}

fn ml_dsa_record(message: &[u8]) -> Vec<u8> {
    let (pk, sk) = dilithium3::keypair();
    let mut record = pk.as_bytes().to_vec();
    record.extend_from_slice(dilithium3::detached_sign(message, &sk).as_bytes());
    record.extend_from_slice(message);
    record
}

#[test]
fn scheme_lengths_are_those_of_the_schemes() {
    assert_eq!(ML_DSA_65_PUBLIC_KEY_BYTES, dilithium3::public_key_bytes());
    assert_eq!(ML_DSA_65_SIGNATURE_BYTES, dilithium3::signature_bytes());
    assert_eq!(
        SLH_DSA_SHA2_256F_PUBLIC_KEY_BYTES,
        sphincssha2256fsimple::public_key_bytes()
    );
    assert_eq!(
        SLH_DSA_SHA2_256F_SIGNATURE_BYTES,
        sphincssha2256fsimple::signature_bytes()
    );
    assert_eq!(
        BATCH_RECORD_BYTES,
        ML_DSA_65_PUBLIC_KEY_BYTES + ML_DSA_65_SIGNATURE_BYTES + 32
    );
}

#[test]
fn numbered_addresses_are_big_endian() {
    let mut bytes = [0u8; 32];
    bytes[28] = 1;
    bytes[29] = 2;
    bytes[30] = 3;
    bytes[31] = 4;
    assert_eq!(numbered_precompile(0x01020304), PQAddress(bytes));
    assert_eq!(numbered_precompile(1), PQAddress(ML_DSA_65_VERIFY));
    assert_eq!(numbered_precompile(2), PQAddress(SLH_DSA_SHA2_256F_VERIFY));
    assert_eq!(numbered_precompile(3), PQAddress(ML_DSA_65_BATCH_VERIFY));
    assert_eq!(numbered_precompile(4), PQAddress(BLAKE3_256));
    assert_eq!(numbered_precompile(5), PQAddress(BLAKE3_512));
    assert_eq!(numbered_precompile(6), PQAddress(PQADDRESS_DERIVE));
}

#[test]
fn other_addresses_hold_no_precompile() {
    for address in [
        numbered_precompile(0),
        numbered_precompile(7),
        PQAddress([1; 32]),
    ] {
        assert!(!BasicPqPrecompiles.contains(address));
        assert_eq!(BasicPqPrecompiles.execute(address, &[], u64::MAX), Ok(None));
    }
}

#[test]
fn ml_dsa_verifies_one_signature() {
    let mut record = ml_dsa_record(b"message");
    let output = answer(ML_DSA_65_VERIFY, &record);
    assert_eq!(output.output, vec![1]);
    assert_eq!(output.gas_used, 46_000);
    let last = record.len() - 1;
    record[last] ^= 1;
    assert_eq!(answer(ML_DSA_65_VERIFY, &record).output, vec![0]);
    assert_eq!(answer(ML_DSA_65_VERIFY, b"short").output, vec![0]);
    assert_eq!(
        run(ML_DSA_65_VERIFY, &record, 45_999),
        Err(PrecompileError::OutOfGas)
    );
}

#[test]
fn slh_dsa_verifies_one_signature() {
    let (pk, sk) = sphincssha2256fsimple::keypair();
    let mut record = pk.as_bytes().to_vec();
    record.extend_from_slice(sphincssha2256fsimple::detached_sign(b"message", &sk).as_bytes());
    record.extend_from_slice(b"message");
    let output = answer(SLH_DSA_SHA2_256F_VERIFY, &record);
    assert_eq!(output.output, vec![1]);
    assert_eq!(output.gas_used, 2_300_000);
    record.push(0);
    assert_eq!(answer(SLH_DSA_SHA2_256F_VERIFY, &record).output, vec![0]);
    assert_eq!(answer(SLH_DSA_SHA2_256F_VERIFY, &[]).output, vec![0]);
}

#[test]
fn batches_verify_only_as_a_whole() {
    let mut batch = ml_dsa_record(&[7; 32]);
    batch.extend_from_slice(&ml_dsa_record(&[8; 32]));
    let output = answer(ML_DSA_65_BATCH_VERIFY, &batch);
    assert_eq!(output.output, vec![1]);
    assert_eq!(output.gas_used, 24_000);
    let last = batch.len() - 1;
    batch[last] ^= 1;
    assert_eq!(answer(ML_DSA_65_BATCH_VERIFY, &batch).output, vec![0]);
    batch[last] ^= 1;
    batch.push(0);
    assert_eq!(answer(ML_DSA_65_BATCH_VERIFY, &batch).output, vec![0]);
    let empty = answer(ML_DSA_65_BATCH_VERIFY, &[]);
    assert_eq!((empty.output, empty.gas_used), (vec![0], 0));
}

#[test]
fn digests_have_their_exact_values_and_cost() {
    let empty = answer(BLAKE3_256, &[]);
    assert_eq!(
        hex::encode(&empty.output),
        "af1349b9f5f9a1a6a0404dea36dcc9499bcb25c9adc112b7cc9a93cae41f3262"
    );
    assert_eq!(empty.gas_used, 30);
    let wide = answer(BLAKE3_512, &[]);
    assert_eq!(
        hex::encode(&wide.output),
        "af1349b9f5f9a1a6a0404dea36dcc9499bcb25c9adc112b7cc9a93cae41f3262\
         e00f03e7b69af26b7faaf09fcd333050338ddfe085b8cc869ca98b206c08243a"
    );
    assert_eq!(answer(BLAKE3_256, &[0; 1]).gas_used, 36);
    assert_eq!(answer(BLAKE3_256, &[0; 32]).gas_used, 36);
    assert_eq!(answer(BLAKE3_512, &[0; 33]).gas_used, 42);
    assert_eq!(run(BLAKE3_256, &[0; 33], 41), Err(PrecompileError::OutOfGas));
}

#[test]
fn derive_precompile_agrees_with_derivation() {
    let output = answer(PQADDRESS_DERIVE, b"\x01public-key");
    assert_eq!(
        output.output,
        PQAddress::derive(1, b"public-key").as_bytes().to_vec()
    );
    assert_eq!(output.gas_used, 200);
    assert_eq!(output.output, answer(BLAKE3_256, b"\x01public-key").output);
    assert_eq!(
        run(PQADDRESS_DERIVE, &[], 200),
        Err(PrecompileError::MissingAlgorithm)
    );
    assert_eq!(
        run(PQADDRESS_DERIVE, &[1], 199),
        Err(PrecompileError::OutOfGas)
    );
}

#[test]
fn errors_in_words() {
    assert_eq!(PrecompileError::OutOfGas.to_string(), "precompile is out of gas");
    assert_eq!(
        PrecompileError::MissingAlgorithm.to_string(),
        "algorithm byte is missing"
    );
}
