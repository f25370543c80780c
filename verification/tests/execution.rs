use pqcrypto_dilithium::dilithium3;
use pqcrypto_sphincsplus::sphincssha2256fsimple;
use pqcrypto_traits::sign::{DetachedSignature, PublicKey};
use pqvm::block::charge_block_gas;
use pqvm::gas;
use pqvm::precompiles::{PrecompileError, PrecompileOutput};
use pqvm::transaction::{
    build_frame, create_address_from_nonce, create_address_message, derive_sender,
    ensure_sender_account, execute_admitted, judge_signature_answer, reference_pqaccount_code_hash,
    reference_pqaccount_message, settle_frame, validate_sender_account,
    verify_transaction_signature,
};
use pqvm::{
    execute_block, execute_transaction, AccountInfo, AlgoId, BlockExecutionError, Env,
    ExecutionResult, ExecutionStatus, InterpreterError, PQAddress, PQTx, PqHash, PqU256, PqvmState,
    StateError, TxExecutionError,
};

fn env() -> Env {
    Env {
        chain_id: 1,
        block_number: 0,
        coinbase: PQAddress::zero(),
        gas_limit: gas::BLOCK_GAS_LIMIT,
        timestamp: 0,
    }
}

fn unsigned_tx(value: u64, data: &[u8], to: Option<PQAddress>, public_key: &[u8]) -> PQTx {
    PQTx {
        chain_id: 1,
        nonce: 0,
        max_fee: PqU256::zero(),
        gas_limit: gas::BLOCK_GAS_LIMIT,
        to,
        value: PqU256::from_u64(value),
        data: data.to_vec(),
        sig_type: AlgoId::MlDsa65.id(),
        public_key: Some(public_key.to_vec()),
        signature: Vec::new(),
    }
}

fn sign(tx: &mut PQTx, sk: &dilithium3::SecretKey) {
    let signature = dilithium3::detached_sign(&tx.signing_payload().0, sk);
    tx.signature = signature.as_bytes().to_vec();
}

fn make_tx(value: u64, data: &[u8], to: Option<PQAddress>) -> PQTx {
    let (pk, sk) = dilithium3::keypair();
    let mut tx = unsigned_tx(value, data, to, pk.as_bytes());
    sign(&mut tx, &sk);
    tx
}

fn tx_with_keypair(value: u64, data: &[u8]) -> PQTx {
    make_tx(value, data, Some(PQAddress([0x22; 32])))
}

fn sender_of(tx: &PQTx) -> PQAddress {
    PQAddress::derive(tx.sig_type, tx.public_key.as_ref().unwrap())
}

fn funded(balance: u64) -> AccountInfo {
    AccountInfo {
        balance: PqU256::from_u64(balance),
        ..Default::default()
    }
}

#[test]
fn execute_transaction_transfers_value_and_returns_receipt() {
    let mut state = PqvmState::default();
    let tx = tx_with_keypair(40, &[0x00]);
    let sender = PQAddress::derive(tx.sig_type, tx.public_key.as_ref().unwrap());
    state.insert_account(
        sender,
        AccountInfo {
            balance: PqU256::from_u64(100),
            ..Default::default()
        },
    );

    let receipt = execute_transaction(&mut state, &env(), &tx).unwrap();

    assert_eq!(receipt.sender, sender);
    assert_eq!(receipt.status, ExecutionStatus::Success);
    assert_eq!(state.account_ref(sender).unwrap().nonce, 1);
    assert_eq!(
        state.account_ref(sender).unwrap().balance,
        PqU256::from_u64(60)
    );
    assert_eq!(
        state.account_ref(PQAddress([0x22; 32])).unwrap().balance,
        PqU256::from_u64(40)
    );
    assert!(receipt.state_diff.accounts.contains_key(&sender));
}

#[test]
fn execute_transaction_initializes_first_use_account() {
    let mut state = PqvmState::default();
    let tx = tx_with_keypair(0, &[0x00]);
    let sender = PQAddress::derive(tx.sig_type, tx.public_key.as_ref().unwrap());

    execute_transaction(&mut state, &env(), &tx).unwrap();

    let account = state.account_ref(sender).unwrap();
    assert_eq!(account.nonce, 1);
    assert_ne!(account.code_hash, PqHash::zero());
}

#[test]
fn execute_transaction_reverts_state_on_interpreter_error() {
    let mut state = PqvmState::default();
    // Put CALLCODE (removed opcode) as the code of the target account.
    let target = PQAddress([0x22; 32]);
    state.insert_account(
        target,
        AccountInfo {
            code: vec![0xf2],
            ..Default::default()
        },
    );
    // tx sends empty calldata to the target (which has bad code).
    let tx = tx_with_keypair(0, &[]);
    let sender = PQAddress::derive(tx.sig_type, tx.public_key.as_ref().unwrap());
    state.insert_account(
        sender,
        AccountInfo {
            balance: PqU256::from_u64(100),
            ..Default::default()
        },
    );

    let err = execute_transaction(&mut state, &env(), &tx).unwrap_err();

    assert!(matches!(
        err,
        TxExecutionError::Interpreter(InterpreterError::RemovedOpcode("CALLCODE"))
    ));
    assert_eq!(state.account_ref(sender).unwrap().nonce, 0);
}

#[test]
fn execute_transaction_rejects_invalid_signature() {
    let mut state = PqvmState::default();
    let mut tx = tx_with_keypair(0, &[0x00]);
    tx.signature = b"invalid".to_vec();

    let err = execute_transaction(&mut state, &env(), &tx).unwrap_err();

    assert!(matches!(err, TxExecutionError::InvalidSignature));
}

#[test]
fn execute_block_returns_receipts_and_cumulative_gas() {
    let mut state = PqvmState::default();
    let tx = tx_with_keypair(0, &[0x00]);

    let result = execute_block(&mut state, &env(), &[tx]).unwrap();

    assert_eq!(result.receipts.len(), 1);
    assert_eq!(result.gas_used, result.receipts[0].gas_used);
}

#[test]
fn execute_block_enforces_transaction_hard_cap() {
    let mut state = PqvmState::default();
    let txs = vec![tx_with_keypair(0, &[0x00]); gas::MAX_TX_PER_BLOCK + 1];

    let err = execute_block(&mut state, &env(), &txs).unwrap_err();

    assert!(matches!(
        err,
        BlockExecutionError::TooManyTransactions { count, max }
            if count == gas::MAX_TX_PER_BLOCK + 1 && max == gas::MAX_TX_PER_BLOCK
    ));
}

#[test]
fn execute_block_reverts_all_transactions_on_failure() {
    let mut state = PqvmState::default();
    let bad_target = PQAddress([0x44; 32]);
    state.insert_account(
        bad_target,
        AccountInfo {
            code: vec![0xf2],
            ..Default::default()
        },
    );

    let good = make_tx(0, &[], Some(PQAddress([0x22; 32])));
    let bad = make_tx(0, &[], Some(bad_target));
    let good_sender = PQAddress::derive(good.sig_type, good.public_key.as_ref().unwrap());

    let err = execute_block(&mut state, &env(), &[good, bad]).unwrap_err();

    assert!(matches!(
        err,
        BlockExecutionError::Transaction {
            index: 1,
            source: TxExecutionError::Interpreter(InterpreterError::RemovedOpcode("CALLCODE"))
        }
    ));
    assert!(state.account_ref(good_sender).is_none());
}

#[test]
fn refusals_before_the_state_is_touched() {
    let mut state = PqvmState::default();
    let good = tx_with_keypair(0, &[]);

    let mut tx = good.clone();
    tx.chain_id = 2;
    assert_eq!(
        execute_transaction(&mut state, &env(), &tx).unwrap_err(),
        TxExecutionError::ChainIdMismatch { tx_chain_id: 2, env_chain_id: 1 }
    );
    tx = good.clone();
    tx.gas_limit = gas::BLOCK_GAS_LIMIT + 1;
    assert_eq!(
        execute_transaction(&mut state, &env(), &tx).unwrap_err(),
        TxExecutionError::GasLimitTooHigh {
            tx_gas_limit: gas::BLOCK_GAS_LIMIT + 1,
            env_gas_limit: gas::BLOCK_GAS_LIMIT
        }
    );
    tx = good.clone();
    tx.sig_type = 3;
    tx.public_key = None;
    assert_eq!(
        execute_transaction(&mut state, &env(), &tx).unwrap_err(),
        TxExecutionError::UnknownSignatureAlgorithm(3)
    );
    assert_eq!(
        verify_transaction_signature(&tx),
        Err(TxExecutionError::MissingPublicKey)
    );
    tx = good.clone();
    tx.public_key = None;
    assert_eq!(
        execute_transaction(&mut state, &env(), &tx).unwrap_err(),
        TxExecutionError::MissingPublicKey
    );
    tx = good.clone();
    tx.nonce = 1;
    assert_eq!(
        execute_transaction(&mut state, &env(), &tx).unwrap_err(),
        TxExecutionError::InvalidSignature
    );
    assert!(state.account_ref(sender_of(&good)).is_none());
    assert_eq!(state.checkpoint(), 0);
}

#[test]
fn a_signature_of_one_algorithm_is_none_of_the_other() {
    let mut tx = tx_with_keypair(0, &[]);
    assert_eq!(verify_transaction_signature(&tx), Ok(()));
    tx.sig_type = AlgoId::SlhDsaSha2256f.id();
    assert_eq!(
        verify_transaction_signature(&tx),
        Err(TxExecutionError::InvalidSignature)
    );
}

#[test]
fn slh_dsa_transactions_execute() {
    let (pk, sk) = sphincssha2256fsimple::keypair();
    let mut tx = unsigned_tx(0, &[], Some(PQAddress([0x22; 32])), pk.as_bytes());
    tx.sig_type = AlgoId::SlhDsaSha2256f.id();
    let signature = sphincssha2256fsimple::detached_sign(&tx.signing_payload().0, &sk);
    tx.signature = signature.as_bytes().to_vec();
    let mut state = PqvmState::default();
    let receipt = execute_transaction(&mut state, &env(), &tx).unwrap();
    assert_eq!(receipt.sender, sender_of(&tx));
}

#[test]
fn executed_transactions_cannot_be_replayed() {
    let mut state = PqvmState::default();
    let tx = tx_with_keypair(0, &[]);
    execute_transaction(&mut state, &env(), &tx).unwrap();
    assert_eq!(
        execute_transaction(&mut state, &env(), &tx).unwrap_err(),
        TxExecutionError::NonceMismatch { expected: 1, got: 0 }
    );
    assert_eq!(state.account_ref(sender_of(&tx)).unwrap().nonce, 1);
}

#[test]
fn balance_must_cover_the_value() {
    let mut state = PqvmState::default();
    let tx = tx_with_keypair(5, &[]);
    state.insert_account(sender_of(&tx), funded(4));
    assert_eq!(
        execute_transaction(&mut state, &env(), &tx).unwrap_err(),
        TxExecutionError::InsufficientBalance {
            balance: PqU256::from_u64(4),
            value: PqU256::from_u64(5)
        }
    );
}

#[test]
fn a_refused_first_use_leaves_account_and_checkpoint() {
    let mut state = PqvmState::default();
    let tx = tx_with_keypair(5, &[]);
    assert!(execute_transaction(&mut state, &env(), &tx).is_err());
    assert_eq!(state.account_ref(sender_of(&tx)).unwrap().nonce, 0);
    state.revert_to_checkpoint(0).unwrap();
    assert!(state.account_ref(sender_of(&tx)).is_none());
}

#[test]
fn state_errors_come_through() {
    let mut state = PqvmState::default();
    let tx = tx_with_keypair(1, &[]);
    let to = PQAddress([0x22; 32]);
    state.insert_account(sender_of(&tx), funded(1));
    state.insert_account(
        to,
        AccountInfo { balance: PqU256 { limbs: [u64::MAX; 4] }, ..Default::default() },
    );
    assert_eq!(
        execute_transaction(&mut state, &env(), &tx).unwrap_err(),
        TxExecutionError::State(StateError::BalanceOverflow(to))
    );

    let (pk, sk) = dilithium3::keypair();
    let mut last = unsigned_tx(0, &[], None, pk.as_bytes());
    last.nonce = u64::MAX;
    sign(&mut last, &sk);
    let sender = sender_of(&last);
    state.insert_account(sender, AccountInfo { nonce: u64::MAX, ..Default::default() });
    assert_eq!(
        execute_transaction(&mut state, &env(), &last).unwrap_err(),
        TxExecutionError::State(StateError::NonceOverflow(sender))
    );
    assert_eq!(
        TxExecutionError::from(StateError::NonceOverflow(sender)),
        TxExecutionError::State(StateError::NonceOverflow(sender))
    );
    assert_eq!(
        TxExecutionError::from(InterpreterError::StackOverflow),
        TxExecutionError::Interpreter(InterpreterError::StackOverflow)
    );
}

#[test]
fn creations_run_their_data_and_pay_nothing() {
    let mut state = PqvmState::default();
    let tx = make_tx(7, &[], None);
    state.insert_account(sender_of(&tx), funded(7));
    execute_transaction(&mut state, &env(), &tx).unwrap();
    assert_eq!(
        state.account_ref(sender_of(&tx)).unwrap().balance,
        PqU256::from_u64(7)
    );
    let bad = make_tx(0, &[0x60], None);
    assert_eq!(
        execute_transaction(&mut state, &env(), &bad).unwrap_err(),
        TxExecutionError::Interpreter(InterpreterError::UnsupportedOpcode(0x60))
    );
    assert!(state.account_ref(sender_of(&bad)).is_none());
}

#[test]
fn admitted_transactions_execute_for_their_sender() {
    let mut state = PqvmState::default();
    let sender = PQAddress([0x33; 32]);
    let mut tx = unsigned_tx(4, &[], Some(sender), b"key");
    state.insert_account(sender, funded(4));
    let receipt = execute_admitted(&mut state, &env(), sender, &tx).unwrap();
    assert_eq!(receipt.sender, sender);
    assert_eq!(receipt.gas_used, 0);
    assert_eq!(receipt.state_diff.accounts.len(), 1);
    assert_eq!(receipt.clone(), receipt);
    let account = state.account_ref(sender).unwrap();
    assert_eq!((account.nonce, account.balance), (1, PqU256::from_u64(4)));
    tx.public_key = None;
    assert_eq!(
        execute_admitted(&mut state, &env(), PQAddress([0x34; 32]), &tx),
        Err(TxExecutionError::MissingPublicKey)
    );
}

#[test]
fn frames_of_calls_and_creations() {
    let mut state = PqvmState::default();
    let to = PQAddress([0x22; 32]);
    state.insert_account(to, AccountInfo { code: vec![1, 2], ..Default::default() });
    let mut tx = unsigned_tx(3, &[9], Some(to), b"key");
    tx.gas_limit = 10;
    let sender = sender_of(&tx);
    state.insert_account(sender, AccountInfo { nonce: 5, ..Default::default() });
    let call = build_frame(&state, &env(), sender, &tx);
    assert_eq!(call.code, vec![1, 2]);
    assert_eq!(call.calldata, vec![9]);
    assert_eq!((call.caller, call.origin, call.address), (sender, sender, to));
    assert_eq!(call.value, PqU256::from_u64(3));
    assert_eq!((call.is_static, call.depth, call.gas_limit), (false, 0, 10));
    tx.to = Some(PQAddress([0x99; 32]));
    assert!(build_frame(&state, &env(), sender, &tx).code.is_empty());
    tx.to = None;
    tx.gas_limit = u64::MAX;
    let create = build_frame(&state, &env(), sender, &tx);
    assert_eq!(create.code, vec![9]);
    assert!(create.calldata.is_empty());
    assert_eq!(create.address, create_address_from_nonce(sender, 4));
    assert_eq!(create.gas_limit, gas::BLOCK_GAS_LIMIT);
}

#[test]
fn derived_addresses_and_hashes() {
    let sender = PQAddress([3; 32]);
    let mut message = vec![0u8];
    message.extend_from_slice(&[3; 32]);
    message.extend_from_slice(&258u64.to_be_bytes());
    assert_eq!(create_address_message(sender, 258), message);
    assert_eq!(
        create_address_from_nonce(sender, 258).to_string(),
        "0x62c5f200871cb524769e34fe45674a21212f13fca937287fc14ba098891a065d"
    );
    assert_ne!(
        create_address_from_nonce(sender, 258),
        create_address_from_nonce(sender, 259)
    );
    let message = b"PQVM-1:ReferencePQAccount\x01key".to_vec();
    assert_eq!(reference_pqaccount_message(1, b"key"), message);
    assert_ne!(message, PQAddress::derivation_message(1, b"key"));
    assert_ne!(create_address_message(sender, 0), PQAddress::derivation_message(1, &[3; 40]));
    assert_eq!(
        hex::encode(reference_pqaccount_code_hash(1, b"key").0),
        "fb344b8ee23c0e65d54fd7033247cd835f122ca4ac5935e8053c0f20fb97adf4"
    );
}

#[test]
fn senders_and_their_accounts() {
    let mut state = PqvmState::default();
    let mut tx = unsigned_tx(0, &[], None, b"key");
    let sender = derive_sender(&tx).unwrap();
    assert_eq!(sender, PQAddress::derive(1, b"key"));
    assert_eq!(
        validate_sender_account(&state, sender, &tx),
        Err(TxExecutionError::State(StateError::MissingAccount(sender)))
    );
    ensure_sender_account(&mut state, sender, &tx).unwrap();
    let account = state.account_ref(sender).unwrap();
    assert_eq!(account.code_hash, reference_pqaccount_code_hash(1, b"key"));
    assert_eq!(validate_sender_account(&state, sender, &tx), Ok(()));
    state.insert_account(sender, funded(3));
    ensure_sender_account(&mut state, sender, &tx).unwrap();
    assert_eq!(state.account_ref(sender), Some(&funded(3)));
    tx.public_key = None;
    assert_eq!(derive_sender(&tx), Err(TxExecutionError::MissingPublicKey));
    assert_eq!(
        ensure_sender_account(&mut state, PQAddress([8; 32]), &tx),
        Err(TxExecutionError::MissingPublicKey)
    );
}

#[test]
fn answers_of_the_signature_precompile() {
    let output = |bytes: &[u8]| PrecompileOutput { gas_used: 1, output: bytes.to_vec() };
    assert_eq!(judge_signature_answer(Ok(Some(output(&[1])))), Ok(()));
    assert_eq!(judge_signature_answer(Ok(Some(output(&[1, 0])))), Ok(()));
    for bytes in [vec![], vec![0], vec![2], vec![0, 1]] {
        assert_eq!(
            judge_signature_answer(Ok(Some(output(&bytes)))),
            Err(TxExecutionError::InvalidSignature)
        );
    }
    assert_eq!(
        judge_signature_answer(Ok(None)),
        Err(TxExecutionError::SignaturePrecompile("missing verifier".to_string()))
    );
    assert_eq!(
        judge_signature_answer(Err(PrecompileError::OutOfGas)),
        Err(TxExecutionError::SignaturePrecompile("precompile is out of gas".to_string()))
    );
}

#[test]
fn frames_are_settled_whatever_they_came_to() {
    let sender = PQAddress([5; 32]);
    let mut state = PqvmState::default();
    let checkpoint = state.checkpoint();
    state.insert_account(sender, funded(2));
    let receipt = settle_frame(
        &mut state,
        checkpoint,
        sender,
        Ok(ExecutionResult {
            status: ExecutionStatus::Halt,
            gas_used: 77,
            output: vec![4],
            logs: Vec::new(),
        }),
    )
    .unwrap();
    assert_eq!(receipt.status, ExecutionStatus::Halt);
    assert_eq!(receipt.gas_used, 77);
    assert_eq!(receipt.output, vec![4]);
    assert!(receipt.state_diff.accounts.contains_key(&sender));
    let error = settle_frame(
        &mut state,
        checkpoint,
        sender,
        Err(InterpreterError::StackUnderflow),
    )
    .unwrap_err();
    assert_eq!(error, TxExecutionError::State(StateError::UnknownCheckpoint(0)));
    let checkpoint = state.checkpoint();
    state.insert_account(sender, funded(3));
    let error = settle_frame(
        &mut state,
        checkpoint,
        sender,
        Err(InterpreterError::StackUnderflow),
    )
    .unwrap_err();
    assert_eq!(error, TxExecutionError::Interpreter(InterpreterError::StackUnderflow));
    assert_eq!(state.account_ref(sender), Some(&funded(2)));
}

#[test]
fn block_gas_is_charged_up_to_the_limit() {
    assert_eq!(charge_block_gas(3, 4, 7), Ok(7));
    assert_eq!(
        charge_block_gas(3, 5, 7),
        Err(BlockExecutionError::BlockGasLimitExceeded { used: 3, next: 5, limit: 7 })
    );
    assert_eq!(
        charge_block_gas(u64::MAX, 1, u64::MAX),
        Err(BlockExecutionError::BlockGasLimitExceeded {
            used: u64::MAX,
            next: 1,
            limit: u64::MAX
        })
    );
}

#[test]
fn blocks_chain_their_transactions() {
    let mut state = PqvmState::default();
    let (pk, sk) = dilithium3::keypair();
    let to = PQAddress([0x22; 32]);
    let mut txs = Vec::new();
    for nonce in 0..3u64 {
        let mut tx = unsigned_tx(10, &[], Some(to), pk.as_bytes());
        tx.nonce = nonce;
        sign(&mut tx, &sk);
        txs.push(tx);
    }
    let sender = sender_of(&txs[0]);
    state.insert_account(sender, funded(30));
    let result = execute_block(&mut state, &env(), &txs).unwrap();
    assert_eq!(result.receipts.len(), 3);
    assert_eq!(state.account_ref(sender).unwrap().nonce, 3);
    assert_eq!(state.account_ref(to).unwrap().balance, PqU256::from_u64(30));
    assert_eq!(state.checkpoint(), 0);
    let err = execute_block(&mut state, &env(), &[txs[0].clone()]).unwrap_err();
    assert_eq!(
        err,
        BlockExecutionError::Transaction {
            index: 0,
            source: TxExecutionError::NonceMismatch { expected: 3, got: 0 }
        }
    );
    assert_eq!(state.checkpoint(), 1);
    assert!(execute_block(&mut state, &env(), &[]).unwrap().receipts.is_empty());
}

#[test]
fn two_blocks_are_their_joined_block() {
    let first = vec![make_tx(0, &[], None), make_tx(0, &[], Some(PQAddress([0x22; 32])))];
    let second = vec![make_tx(0, &[], Some(PQAddress([0x33; 32])))];
    let mut apart = PqvmState::default();
    let mut receipts = execute_block(&mut apart, &env(), &first).unwrap().receipts;
    receipts.extend(execute_block(&mut apart, &env(), &second).unwrap().receipts);
    let mut joined = PqvmState::default();
    let txs = [first, second].concat();
    let result = execute_block(&mut joined, &env(), &txs).unwrap();
    assert_eq!(result.receipts, receipts);
    for (tx, receipt) in txs.iter().zip(&result.receipts) {
        assert_eq!(receipt.sender, sender_of(tx));
        assert_eq!(joined.account_ref(receipt.sender), apart.account_ref(receipt.sender));
    }
}

#[test]
fn a_block_is_given_up_at_its_first_failure() {
    let mut state = PqvmState::default();
    let good = make_tx(0, &[], None);
    let mut refused = make_tx(0, &[], None);
    refused.signature.clear();
    let mut later = make_tx(0, &[], None);
    later.chain_id = 2;
    let err = execute_block(&mut state, &env(), &[good, refused, later]).unwrap_err();
    assert_eq!(
        err,
        BlockExecutionError::Transaction { index: 1, source: TxExecutionError::InvalidSignature }
    );
}

#[test]
fn open_checkpoints_do_not_matter() {
    let tx = make_tx(7, &[], Some(PQAddress([0x22; 32])));
    let sender = sender_of(&tx);
    let mut plain = PqvmState::default();
    plain.insert_account(sender, funded(10));
    let mut nested = PqvmState::default();
    nested.checkpoint();
    nested.insert_account(sender, funded(10));
    nested.checkpoint();
    assert_eq!(
        execute_transaction(&mut nested, &env(), &tx).unwrap(),
        execute_transaction(&mut plain, &env(), &tx).unwrap()
    );
    assert_eq!(nested.account_ref(sender), plain.account_ref(sender));
    assert_eq!((plain.checkpoint(), nested.checkpoint()), (0, 2));
}
