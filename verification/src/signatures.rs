//! Post-quantum signature schemes.
use pqcrypto_traits::sign::{DetachedSignature, PublicKey};
use vstd::prelude::*;

verus! {

/// Length of an ML-DSA-65 public key.
pub const ML_DSA_65_PUBLIC_KEY_BYTES: usize = 1952;

/// Length of an ML-DSA-65 signature.
pub const ML_DSA_65_SIGNATURE_BYTES: usize = 3309;

/// Length of an SLH-DSA-SHA2-256f public key.
pub const SLH_DSA_SHA2_256F_PUBLIC_KEY_BYTES: usize = 64;

/// Length of an SLH-DSA-SHA2-256f signature.
pub const SLH_DSA_SHA2_256F_SIGNATURE_BYTES: usize = 49856;

/// Whether ML-DSA-65 accepts `signature` as one of `message` under `public_key`.
pub uninterp spec fn ml_dsa_65_accepts(
    public_key: Seq<u8>,
    signature: Seq<u8>,
    message: Seq<u8>,
) -> bool;

/// Whether SLH-DSA-SHA2-256f accepts `signature` as one of `message` under
/// `public_key`.
pub uninterp spec fn slh_dsa_sha2_256f_accepts(
    public_key: Seq<u8>,
    signature: Seq<u8>,
    message: Seq<u8>,
) -> bool;

/// `pqcrypto_dilithium::dilithium3::verify_detached_signature`, on a key and a
/// signature read with `from_bytes`: whether both can be read and the signature is
/// accepted. With the features `avx2` and `neon` of the crate off, as the manifest has
/// them, this is the portable verifier on every machine, and the verdict is a function
/// of the three byte strings alone. (The AVX2 verifier leaves out the check of the
/// response vector against its bound, and accepts signatures that the portable one
/// refuses.)
#[verifier::external_body]
pub(crate) fn ml_dsa_65_verify(public_key: &[u8], signature: &[u8], message: &[u8]) -> (accepted:
    bool)
    ensures
        accepted == ml_dsa_65_accepts(public_key@, signature@, message@),
{
    match (
        pqcrypto_dilithium::dilithium3::PublicKey::from_bytes(public_key),
        pqcrypto_dilithium::dilithium3::DetachedSignature::from_bytes(signature),
    ) {
        (Ok(key), Ok(sig)) => pqcrypto_dilithium::dilithium3::verify_detached_signature(
            &sig,
            message,
            &key,
        ).is_ok(),
        _ => false,
    }
}

/// `pqcrypto_sphincsplus::sphincssha2256fsimple::verify_detached_signature`, on a key
/// and a signature read with `from_bytes`: whether both can be read and the signature
/// is accepted. With the feature `avx2` of the crate off, as the manifest has it, this
/// is the portable verifier on every machine, and the verdict is a function of the three
/// byte strings alone.
#[verifier::external_body]
pub(crate) fn slh_dsa_sha2_256f_verify(
    public_key: &[u8],
    signature: &[u8],
    message: &[u8],
) -> (accepted: bool)
    ensures
        accepted == slh_dsa_sha2_256f_accepts(public_key@, signature@, message@),
{
    match (
        pqcrypto_sphincsplus::sphincssha2256fsimple::PublicKey::from_bytes(public_key),
        pqcrypto_sphincsplus::sphincssha2256fsimple::DetachedSignature::from_bytes(signature),
    ) {
        (Ok(key), Ok(sig)) => pqcrypto_sphincsplus::sphincssha2256fsimple::verify_detached_signature(
            &sig,
            message,
            &key,
        ).is_ok(),
        _ => false,
    }
}

} // verus!
