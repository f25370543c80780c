use pqvm::gas;
use pqvm::precompiles::{
    BasicPqPrecompiles, PrecompileSet, BLAKE3_256, BLAKE3_512,
    ML_DSA_65_BATCH_VERIFY, ML_DSA_65_VERIFY, PQADDRESS_DERIVE, SLH_DSA_SHA2_256F_VERIFY,
};
use pqvm::{
    AccountInfo, AlgoId, Env, Interpreter, InterpreterError, PQAddress, PQTx, PqHash, PqU256,
    PqvmDatabase,
};

#[test]
fn pqaddress_derivation_matches_golden_vectors() {
    let ml_dsa_key = b"pqvm-ml-dsa-65-public-key";
    let ml_dsa_address = PQAddress::derive(AlgoId::MlDsa65.id(), ml_dsa_key);
    assert_eq!(
        ml_dsa_address.to_string(),
        "0xdc06c3748b6f84af41dbbba7114b69483ceb4279cb071af238fd468731d5c39d"
    );

    let slh_key = b"pqvm-slh-dsa-sha2-256f-public-key";
    let slh_address = PQAddress::derive(AlgoId::SlhDsaSha2256f.id(), slh_key);
    assert_eq!(
        slh_address.to_string(),
        "0xff6d0b0a52ea1fe88ccac54f24d2d64d5492eff57d10a90763b01f69c501ea43"
    );
}

#[test]
fn precompile_addresses_match_golden_vectors() {
    assert_eq!(
        PQAddress(ML_DSA_65_VERIFY).to_string(),
        "0x0000000000000000000000000000000000000000000000000000000000000001"
    );
    assert_eq!(
        PQAddress(SLH_DSA_SHA2_256F_VERIFY).to_string(),
        "0x0000000000000000000000000000000000000000000000000000000000000002"
    );
    assert_eq!(
        PQAddress(ML_DSA_65_BATCH_VERIFY).to_string(),
        "0x0000000000000000000000000000000000000000000000000000000000000003"
    );
    assert_eq!(
        PQAddress(BLAKE3_256).to_string(),
        "0x0000000000000000000000000000000000000000000000000000000000000004"
    );
    assert_eq!(
        PQAddress(BLAKE3_512).to_string(),
        "0x0000000000000000000000000000000000000000000000000000000000000005"
    );
    assert_eq!(
        PQAddress(PQADDRESS_DERIVE).to_string(),
        "0x0000000000000000000000000000000000000000000000000000000000000006"
    );
}

#[test]
fn pqtx_signing_payload_matches_golden_vector() {
    let tx = PQTx {
        chain_id: 7,
        nonce: 42,
        max_fee: PqU256::from_u64(1_000_000),
        gas_limit: 50_000_000,
        to: Some(PQAddress([0x11; 32])),
        value: PqU256::from_u64(12_345),
        data: b"hello pqvm".to_vec(),
        sig_type: 1,
        public_key: Some(b"public-key".to_vec()),
        signature: b"signature".to_vec(),
    };

    assert_eq!(
        format!("0x{}", hex::encode(tx.signing_payload().0)),
        "0xd401ccdbf88cd20d229f521c1613f976ecc7bbc7b24ee08d2ec57ca09fd113d4"
    );
}

#[test]
fn gas_constants_match_pqvm_1() {
    assert_eq!(gas::BLOCK_GAS_LIMIT, 50_000_000);
    assert_eq!(gas::MAX_TX_PER_BLOCK, 500);
    assert_eq!(gas::INTRINSIC_GAS_TX, 21_000);
    assert_eq!(gas::ML_DSA_65_VERIFY_GAS, 46_000);
    assert_eq!(gas::SLH_DSA_SHA2_256F_VERIFY_GAS, 2_300_000);
    assert_eq!(gas::ML_DSA_65_BATCH_VERIFY_GAS_PER_SIG, 12_000);
    assert_eq!(gas::BLAKE3_BASE_GAS, 30);
    assert_eq!(gas::BLAKE3_WORD_GAS, 6);
    assert_eq!(gas::PQADDRESS_DERIVE_GAS, 200);
}

#[test]
fn precompile_set_exposes_pqvm_1_precompiles() {
    let precompiles = BasicPqPrecompiles;

    assert!(precompiles.contains(PQAddress(ML_DSA_65_VERIFY)));
    assert!(precompiles.contains(PQAddress(SLH_DSA_SHA2_256F_VERIFY)));
    assert!(precompiles.contains(PQAddress(ML_DSA_65_BATCH_VERIFY)));
    assert!(precompiles.contains(PQAddress(BLAKE3_256)));
    assert!(precompiles.contains(PQAddress(BLAKE3_512)));
    assert!(precompiles.contains(PQAddress(PQADDRESS_DERIVE)));
}

#[test]
fn removed_callcode_is_rejected_by_conformance_fixture() {
    let mut db = EmptyDb;
    let mut interpreter = Interpreter::default();
    let err = interpreter
        .execute(&mut db, &env(), &tx(&[0xf2]))
        .unwrap_err();

    assert!(matches!(err, InterpreterError::RemovedOpcode("CALLCODE")));
}

#[test]
fn other_opcodes_are_unsupported_and_no_code_succeeds() {
    let mut db = EmptyDb;
    let mut interpreter = Interpreter::default();
    for opcode in [0x00u8, 0x01, 0xb0, 0xf1, 0xf3, 0xff] {
        let err = interpreter
            .execute(&mut db, &env(), &tx(&[opcode, 0xf2]))
            .unwrap_err();
        assert_eq!(err, InterpreterError::UnsupportedOpcode(opcode));
    }
    let result = interpreter.execute(&mut db, &env(), &tx(&[])).unwrap();
    assert_eq!(result.status, pqvm::ExecutionStatus::Success);
    assert_eq!(result.gas_used, 0);
    assert!(result.output.is_empty());
    assert!(result.logs.is_empty());
}

fn env() -> Env {
    Env {
        chain_id: 1,
        block_number: 0,
        coinbase: PQAddress::zero(),
        gas_limit: gas::BLOCK_GAS_LIMIT,
        timestamp: 0,
    }
}

fn tx(data: &[u8]) -> PQTx {
    PQTx {
        chain_id: 1,
        nonce: 0,
        max_fee: PqU256::zero(),
        gas_limit: gas::BLOCK_GAS_LIMIT,
        to: None,
        value: PqU256::zero(),
        data: data.to_vec(),
        sig_type: AlgoId::MlDsa65.id(),
        public_key: None,
        signature: Vec::new(),
    }
}

#[derive(Debug, Default)]
struct EmptyDb;

impl PqvmDatabase for EmptyDb {
    type Error = std::convert::Infallible;

    fn account(&mut self, _address: PQAddress) -> Result<Option<AccountInfo>, Self::Error> {
        Ok(None)
    }

    fn storage(&mut self, _address: PQAddress, _index: PqU256) -> Result<PqU256, Self::Error> {
        Ok(PqU256::zero())
    }

    fn block_hash(&mut self, _number: u64) -> Result<PqHash, Self::Error> {
        Ok(PqHash::zero())
    }

    fn write_account(&mut self, _: PQAddress, _: AccountInfo) -> Result<(), Self::Error> {
        Ok(())
    }
    fn write_storage(&mut self, _: PQAddress, _: PqU256, _: PqU256) -> Result<(), Self::Error> {
        Ok(())
    }
    fn erase_account(&mut self, _: PQAddress) -> Result<(), Self::Error> {
        Ok(())
    }
    fn move_value(&mut self, _: PQAddress, _: PQAddress, _: PqU256) -> Result<(), Self::Error> {
        Ok(())
    }
    fn state_checkpoint(&mut self) -> usize {
        0
    }
    fn state_revert(&mut self, _: usize) -> Result<(), Self::Error> {
        Ok(())
    }
    fn state_commit(&mut self, _: usize) -> Result<(), Self::Error> {
        Ok(())
    }
}
