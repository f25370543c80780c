use pqvm::bytes::be_encode;
use pqvm::gas::{
    simple_ml_dsa_transfer_gas, simple_ml_dsa_transfers_by_gas, MAX_TX_PER_BLOCK,
};
use pqvm::{AlgoId, PQAddress, PQTx, PqHash, PqU256, PrimitiveError};

#[test]
fn hard_cap_binds_for_simple_ml_dsa_transfers() {
    assert_eq!(500 * simple_ml_dsa_transfer_gas(), 33_500_000);
    assert!(simple_ml_dsa_transfers_by_gas() > MAX_TX_PER_BLOCK as u64);
}

#[test]
fn simple_transfer_gas_is_exact() {
    assert_eq!(simple_ml_dsa_transfer_gas(), 67_000);
    assert_eq!(simple_ml_dsa_transfers_by_gas(), 746);
}

#[test]
fn pq_address_roundtrip_0x64() {
    let addr = PQAddress::derive(AlgoId::MlDsa65.id(), b"public-key");
    let rendered = addr.to_string();
    assert!(rendered.starts_with("0x"));
    assert_eq!(rendered.len(), 66);
    assert_eq!(rendered.parse::<PQAddress>().unwrap(), addr);
}

#[test]
fn address_text_is_lowercase_and_reads_either_case() {
    let mut bytes = [0u8; 32];
    bytes[0] = 0xab;
    bytes[31] = 0x0f;
    let address = PQAddress(bytes);
    let text = "0xab0000000000000000000000000000000000000000000000000000000000000f";
    assert_eq!(address.to_string(), text);
    assert_eq!(PQAddress::from_str(text), Ok(address));
    assert_eq!(
        PQAddress::from_str("0xAB0000000000000000000000000000000000000000000000000000000000000F"),
        Ok(address)
    );
}

#[test]
fn malformed_address_texts_are_refused() {
    let digits = "11".repeat(32);
    assert_eq!(
        digits.parse::<PQAddress>(),
        Err(PrimitiveError::AddressMissingHexPrefix)
    );
    assert_eq!(
        format!("0X{}", digits).parse::<PQAddress>(),
        Err(PrimitiveError::AddressMissingHexPrefix)
    );
    assert_eq!("".parse::<PQAddress>(), Err(PrimitiveError::AddressMissingHexPrefix));
    assert_eq!("0x".parse::<PQAddress>(), Err(PrimitiveError::AddressLength { got: 0 }));
    assert_eq!(
        format!("0x{}0", digits).parse::<PQAddress>(),
        Err(PrimitiveError::AddressLength { got: 65 })
    );
    assert_eq!(
        format!("0x{}", "é".repeat(31)).parse::<PQAddress>(),
        Err(PrimitiveError::AddressLength { got: 62 })
    );
    assert_eq!(
        format!("0x{}", "é".repeat(32)).parse::<PQAddress>(),
        Err(PrimitiveError::InvalidHex)
    );
    assert_eq!(
        format!("0x{}g", &digits[..63]).parse::<PQAddress>(),
        Err(PrimitiveError::InvalidHex)
    );
}

#[test]
fn zero_address_and_hash_are_zero() {
    assert_eq!(PQAddress::zero().as_bytes(), &[0u8; 32]);
    assert_eq!(PQAddress::default(), PQAddress::zero());
    assert_eq!(PqHash::default(), PqHash([0u8; 32]));
}

#[test]
fn algorithm_bytes() {
    assert_eq!(AlgoId::MlDsa65.id(), 0x01);
    assert_eq!(AlgoId::SlhDsaSha2256f.id(), 0x02);
    assert_eq!(AlgoId::try_from(0x01), Ok(AlgoId::MlDsa65));
    assert_eq!(AlgoId::try_from(0x02), Ok(AlgoId::SlhDsaSha2256f));
    assert_eq!(AlgoId::try_from(0x00), Err(PrimitiveError::UnknownAlgoId(0)));
    assert_eq!(AlgoId::try_from(0x03), Err(PrimitiveError::UnknownAlgoId(3)));
}

#[test]
fn address_is_the_digest_of_algorithm_and_key() {
    let address = PQAddress::derive(2, b"key");
    assert_eq!(
        address.to_string(),
        "0x02b19f05c56111bb6518eb51f1bc0f03339f42e72ac8bbf8124c925d6a45470a"
    );
    assert_eq!(PQAddress::derivation_message(2, b"key"), b"\x02key".to_vec());
    assert_ne!(PQAddress::derive(1, b"key"), address);
}

fn tx() -> PQTx {
    PQTx {
        chain_id: 0x0102030405060708,
        nonce: 9,
        max_fee: PqU256 { limbs: [1, 2, 3, 4] },
        gas_limit: 10,
        to: None,
        value: PqU256::from_u64(11),
        data: vec![0xaa, 0xbb],
        sig_type: 2,
        public_key: None,
        signature: vec![1],
    }
}

#[test]
fn signing_message_layout() {
    let message = tx().signing_message();
    assert_eq!(message.len(), 123);
    assert_eq!(&message[0..8], &[1, 2, 3, 4, 5, 6, 7, 8]);
    assert_eq!(message[15], 9);
    assert_eq!((message[23], message[31], message[39], message[47]), (4, 3, 2, 1));
    assert_eq!(message[55], 10);
    assert_eq!(&message[56..88], &[0u8; 32]);
    assert_eq!(message[119], 11);
    assert_eq!(&message[120..], &[0xaa, 0xbb, 2]);
    assert_eq!(
        hex::encode(tx().signing_payload().0),
        "ade9568a70dcbb7ac82594b4bcc865378060dfb5ec0fd22875c14cd88352e7ae"
    );
}

#[test]
fn signing_message_binds_chain_and_algorithm_only_to_signed_fields() {
    let base = tx().signing_payload();
    let mut other = tx();
    other.chain_id = 1;
    assert_ne!(other.signing_payload(), base);
    other = tx();
    other.sig_type = 1;
    assert_ne!(other.signing_payload(), base);
    other = tx();
    other.public_key = Some(vec![5]);
    other.signature = vec![6, 7];
    assert_eq!(other.signing_payload(), base);
    other = tx();
    other.to = Some(PQAddress::zero());
    assert_eq!(other.signing_payload(), base);
    other.to = Some(PQAddress([1; 32]));
    assert_ne!(other.signing_payload(), base);
}

#[test]
fn big_endian_bytes() {
    assert_eq!(be_encode(0x0102, 4), vec![0, 0, 1, 2]);
    assert_eq!(be_encode(0x010203, 2), vec![2, 3]);
    assert_eq!(be_encode(7, 0), Vec::<u8>::new());
    assert_eq!(be_encode(u64::MAX, 8), vec![0xff; 8]);
}

#[test]
fn words_compare_and_compute_as_numbers() {
    let one = PqU256::from_u64(1);
    let high = PqU256 { limbs: [0, 0, 0, 1] };
    let max = PqU256 { limbs: [u64::MAX; 4] };
    assert!(one.less_than(&high));
    assert!(!high.less_than(&one));
    assert!(!one.less_than(&one));
    assert!(one.same(&PqU256 { limbs: [1, 0, 0, 0] }));
    assert!(!one.same(&high));
    assert_eq!(
        PqU256::from_u64(u64::MAX).checked_add(&one),
        Some(PqU256 { limbs: [0, 1, 0, 0] })
    );
    assert_eq!(max.checked_add(&one), None);
    assert_eq!(max.checked_add(&PqU256::zero()), Some(max));
    assert_eq!(
        high.checked_sub(&one),
        Some(PqU256 { limbs: [u64::MAX, u64::MAX, u64::MAX, 0] })
    );
    assert_eq!(one.checked_sub(&high), None);
    assert_eq!(one.checked_sub(&one), Some(PqU256::default()));
    let bytes = PqU256 { limbs: [0x0102, 0, 0, 0xff00000000000000] }.to_be_bytes();
    assert_eq!(bytes[0], 0xff);
    assert_eq!(&bytes[28..], &[0, 0, 1, 2]);
}
