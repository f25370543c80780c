//! Execution of one transaction.
use crate::bytes::{
    append_bytes, be_bytes, be_encode, copy_bytes, lemma_be_bytes_injective, lemma_be_bytes_len,
    lemma_pow256_values,
};
use crate::digest::{blake3_digest, blake3_hash};
use crate::interpreter::{
    code_outcome, Env, ExecutionResult, ExecutionStatus, ExecutionView, FrameContext, FrameView,
    Interpreter, InterpreterError, InterpreterErrorView, LogEntry,
};
use crate::precompiles::{
    law_precompile_at, ml_dsa_65_input_valid, slh_dsa_sha2_256f_input_valid, BasicPqPrecompiles,
    Precompile, PrecompileError, PrecompileOutput, PrecompileSet, ML_DSA_65_VERIFY,
    SLH_DSA_SHA2_256F_VERIFY,
};
use crate::primitives::{
    account_address, account_message, algo_of, AlgoId, PQAddress, PQTx, PqBytes, PqHash,
    PrimitiveError, TxView,
};
use crate::signatures::{
    ml_dsa_65_accepts, slh_dsa_sha2_256f_accepts, ML_DSA_65_PUBLIC_KEY_BYTES,
    ML_DSA_65_SIGNATURE_BYTES, SLH_DSA_SHA2_256F_PUBLIC_KEY_BYTES,
    SLH_DSA_SHA2_256F_SIGNATURE_BYTES,
};
use crate::state::{
    AccountInfo, AccountView, DiffView, PqvmState, StateDiff, StateError, StateErrorView, StateView,
    WorldView,
};
use crate::word::PqU256;
use vstd::prelude::*;

verus! {

/// The record of an executed transaction.
#[derive(Clone, Debug, PartialEq, Eq)]
pub struct TxReceipt {
    pub sender: PQAddress,
    pub status: ExecutionStatus,
    pub gas_used: u64,
    pub output: PqBytes,
    pub logs: Vec<LogEntry>,
    pub state_diff: StateDiff,
}

/// The record of an executed transaction, by its byte strings and its changes.
#[verifier::ext_equal]
pub struct ReceiptView {
    pub sender: Seq<u8>,
    pub status: ExecutionStatus,
    pub gas_used: u64,
    pub output: Seq<u8>,
    pub logs: Seq<LogEntry>,
    pub state_diff: DiffView,
}

impl View for TxReceipt {
    type V = ReceiptView;

    open spec fn view(&self) -> ReceiptView {
        ReceiptView {
            sender: self.sender@,
            status: self.status,
            gas_used: self.gas_used,
            output: self.output@,
            logs: self.logs@,
            state_diff: self.state_diff@,
        }
    }
}

/// Why a transaction was not executed.
#[derive(Clone, Debug, PartialEq, Eq)]
pub enum TxExecutionError {
    ChainIdMismatch { tx_chain_id: u64, env_chain_id: u64 },
    GasLimitTooHigh { tx_gas_limit: u64, env_gas_limit: u64 },
    MissingPublicKey,
    UnknownSignatureAlgorithm(u8),
    NonceMismatch { expected: u64, got: u64 },
    InsufficientBalance { balance: PqU256, value: PqU256 },
    InvalidSignature,
    SignaturePrecompile(String),
    State(StateError),
    Interpreter(InterpreterError),
}

/// Why a transaction was not executed, by numbers and characters.
pub enum TxErrorView {
    ChainIdMismatch { tx_chain_id: u64, env_chain_id: u64 },
    GasLimitTooHigh { tx_gas_limit: u64, env_gas_limit: u64 },
    MissingPublicKey,
    UnknownSignatureAlgorithm(u8),
    NonceMismatch { expected: u64, got: u64 },
    InsufficientBalance { balance: nat, value: nat },
    InvalidSignature,
    SignaturePrecompile(Seq<char>),
    State(StateErrorView),
    Interpreter(InterpreterErrorView),
}

impl View for TxExecutionError {
    type V = TxErrorView;

    open spec fn view(&self) -> TxErrorView {
        match *self {
            TxExecutionError::ChainIdMismatch { tx_chain_id, env_chain_id } => {
                TxErrorView::ChainIdMismatch { tx_chain_id, env_chain_id }
            },
            TxExecutionError::GasLimitTooHigh { tx_gas_limit, env_gas_limit } => {
                TxErrorView::GasLimitTooHigh { tx_gas_limit, env_gas_limit }
            },
            TxExecutionError::MissingPublicKey => TxErrorView::MissingPublicKey,
            TxExecutionError::UnknownSignatureAlgorithm(byte) => {
                TxErrorView::UnknownSignatureAlgorithm(byte)
            },
            TxExecutionError::NonceMismatch { expected, got } => TxErrorView::NonceMismatch {
                expected,
                got,
            },
            TxExecutionError::InsufficientBalance { balance, value } => {
                TxErrorView::InsufficientBalance { balance: balance@, value: value@ }
            },
            TxExecutionError::InvalidSignature => TxErrorView::InvalidSignature,
            TxExecutionError::SignaturePrecompile(message) => TxErrorView::SignaturePrecompile(
                message@,
            ),
            TxExecutionError::State(error) => TxErrorView::State(error@),
            TxExecutionError::Interpreter(error) => TxErrorView::Interpreter(error@),
        }
    }
}

impl vstd::std_specs::convert::FromSpecImpl<StateError> for TxExecutionError {
    open spec fn obeys_from_spec() -> bool {
        true
    }

    open spec fn from_spec(error: StateError) -> TxExecutionError {
        TxExecutionError::State(error)
    }
}

impl From<StateError> for TxExecutionError {
    fn from(error: StateError) -> (wrapped: Self) {
        TxExecutionError::State(error)
    }
}

impl vstd::std_specs::convert::FromSpecImpl<InterpreterError> for TxExecutionError {
    open spec fn obeys_from_spec() -> bool {
        true
    }

    open spec fn from_spec(error: InterpreterError) -> TxExecutionError {
        TxExecutionError::Interpreter(error)
    }
}

impl From<InterpreterError> for TxExecutionError {
    fn from(error: InterpreterError) -> (wrapped: Self) {
        TxExecutionError::Interpreter(error)
    }
}

/// Why no sender can be told from a transaction, if none can.
pub open spec fn sender_unknown(tx: TxView) -> Option<TxErrorView> {
    if algo_of(tx.sig_type) is Err {
        Some(TxErrorView::UnknownSignatureAlgorithm(tx.sig_type))
    } else if tx.public_key is None {
        Some(TxErrorView::MissingPublicKey)
    } else {
        None
    }
}

/// The address that a transaction comes from.
pub open spec fn sender_of(tx: TxView) -> Seq<u8> {
    account_address(tx.sig_type, tx.public_key->0)
}

/// The address that a transaction comes from.
pub fn derive_sender(tx: &PQTx) -> (sender: Result<PQAddress, TxExecutionError>)
    ensures
        match sender {
            Ok(address) => sender_unknown(tx@) is None && address@ == sender_of(tx@),
            Err(error) => sender_unknown(tx@) == Some(error@),
        },
{
    if AlgoId::try_from(tx.sig_type).is_err() {
        return Err(TxExecutionError::UnknownSignatureAlgorithm(tx.sig_type));
    }
    match &tx.public_key {
        Some(public_key) => Ok(PQAddress::derive(tx.sig_type, public_key.as_slice())),
        None => Err(TxExecutionError::MissingPublicKey),
    }
}

/// What the signature precompile is asked: the public key, the signature and the
/// digest that is signed.
pub open spec fn signature_input(tx: TxView) -> Seq<u8> {
    tx.public_key->0 + tx.signature + tx.signing_payload()
}

/// Whether the precompile of the transaction's algorithm accepts what it is asked. The
/// precompile is given one byte string, and takes the key and the signature from it by
/// the lengths of the scheme. Where the fields have those lengths, it reads the fields
/// themselves; where they do not, its cuts fall elsewhere than between the fields.
pub open spec fn signature_valid(tx: TxView) -> bool {
    match algo_of(tx.sig_type) {
        Ok(AlgoId::MlDsa65) => ml_dsa_65_input_valid(signature_input(tx)),
        Ok(AlgoId::SlhDsaSha2256f) => slh_dsa_sha2_256f_input_valid(signature_input(tx)),
        Err(_) => false,
    }
}

/// With a key and a signature of the lengths of ML-DSA-65, a transaction of that
/// algorithm is accepted exactly if its key signed its signing payload with its
/// signature.
pub proof fn law_ml_dsa_65_signature(tx: TxView)
    requires
        algo_of(tx.sig_type) == Ok::<AlgoId, PrimitiveError>(AlgoId::MlDsa65),
        tx.public_key matches Some(key) && key.len() == ML_DSA_65_PUBLIC_KEY_BYTES,
        tx.signature.len() == ML_DSA_65_SIGNATURE_BYTES,
    ensures
        signature_valid(tx) <==> ml_dsa_65_accepts(
            tx.public_key->0,
            tx.signature,
            tx.signing_payload(),
        ),
{
    let key = ML_DSA_65_PUBLIC_KEY_BYTES as int;
    let sig = ML_DSA_65_SIGNATURE_BYTES as int;
    let input = signature_input(tx);
    assert(input.subrange(0, key) =~= tx.public_key->0);
    assert(input.subrange(key, key + sig) =~= tx.signature);
    assert(input.subrange(key + sig, input.len() as int) =~= tx.signing_payload());
}

/// With a key and a signature of the lengths of SLH-DSA-SHA2-256f, a transaction of
/// that algorithm is accepted exactly if its key signed its signing payload with its
/// signature.
pub proof fn law_slh_dsa_sha2_256f_signature(tx: TxView)
    requires
        algo_of(tx.sig_type) == Ok::<AlgoId, PrimitiveError>(AlgoId::SlhDsaSha2256f),
        tx.public_key matches Some(key) && key.len() == SLH_DSA_SHA2_256F_PUBLIC_KEY_BYTES,
        tx.signature.len() == SLH_DSA_SHA2_256F_SIGNATURE_BYTES,
    ensures
        signature_valid(tx) <==> slh_dsa_sha2_256f_accepts(
            tx.public_key->0,
            tx.signature,
            tx.signing_payload(),
        ),
{
    let key = SLH_DSA_SHA2_256F_PUBLIC_KEY_BYTES as int;
    let sig = SLH_DSA_SHA2_256F_SIGNATURE_BYTES as int;
    let input = signature_input(tx);
    assert(input.subrange(0, key) =~= tx.public_key->0);
    assert(input.subrange(key, key + sig) =~= tx.signature);
    assert(input.subrange(key + sig, input.len() as int) =~= tx.signing_payload());
}

/// Why the signature of a transaction is refused, if it is.
pub open spec fn signature_error(tx: TxView) -> Option<TxErrorView> {
    if tx.public_key is None {
        Some(TxErrorView::MissingPublicKey)
    } else if algo_of(tx.sig_type) is Err {
        Some(TxErrorView::UnknownSignatureAlgorithm(tx.sig_type))
    } else if !signature_valid(tx) {
        Some(TxErrorView::InvalidSignature)
    } else {
        None
    }
}

/// What a precompile's answer says of a signature: accepted exactly if the answer
/// begins with a one.
pub fn judge_signature_answer(answer: Result<Option<PrecompileOutput>, PrecompileError>) -> (verdict:
    Result<(), TxExecutionError>)
    ensures
        match answer {
            Err(error) => verdict matches Err(got) && got@ == TxErrorView::SignaturePrecompile(
                error.spec_message(),
            ),
            Ok(None) => verdict matches Err(got) && got@ == TxErrorView::SignaturePrecompile(
                "missing verifier"@,
            ),
            Ok(Some(output)) => if output.output@.len() > 0 && output.output@[0] == 1 {
                verdict is Ok
            } else {
                verdict matches Err(got) && got@ == TxErrorView::InvalidSignature
            },
        },
{
    match answer {
        Err(error) => Err(TxExecutionError::SignaturePrecompile(error.to_string())),
        Ok(None) => Err(TxExecutionError::SignaturePrecompile("missing verifier".to_owned())),
        Ok(Some(output)) => {
            if output.output.len() > 0 && output.output[0] == 1 {
                Ok(())
            } else {
                Err(TxExecutionError::InvalidSignature)
            }
        },
    }
}

/// Checks the signature of a transaction.
pub fn verify_transaction_signature(tx: &PQTx) -> (verdict: Result<(), TxExecutionError>)
    ensures
        match verdict {
            Ok(_) => signature_error(tx@) is None,
            Err(error) => signature_error(tx@) == Some(error@),
        },
{
    let public_key = match &tx.public_key {
        Some(public_key) => public_key,
        None => {
            return Err(TxExecutionError::MissingPublicKey);
        },
    };
    let precompile: PQAddress = match AlgoId::try_from(tx.sig_type) {
        Ok(AlgoId::MlDsa65) => PQAddress(ML_DSA_65_VERIFY),
        Ok(AlgoId::SlhDsaSha2256f) => PQAddress(SLH_DSA_SHA2_256F_VERIFY),
        Err(_) => {
            return Err(TxExecutionError::UnknownSignatureAlgorithm(tx.sig_type));
        },
    };
    let mut input: Vec<u8> = copy_bytes(public_key.as_slice());
    append_bytes(&mut input, tx.signature.as_slice());
    append_bytes(&mut input, tx.signing_payload().0.as_slice());
    proof {
        assert(input@ =~= signature_input(tx@));
        law_precompile_at(Precompile::MlDsa65Verify);
        law_precompile_at(Precompile::SlhDsaSha2256fVerify);
    }
    judge_signature_answer(BasicPqPrecompiles.execute(precompile, input.as_slice(), u64::MAX))
}

/// What the code hash of a first-use account is the digest of.
pub open spec fn reference_code_message(sig_type: u8, public_key: Seq<u8>) -> Seq<u8> {
    vstd::utf8::encode_utf8("PQVM-1:ReferencePQAccount"@) + seq![sig_type] + public_key
}

/// The code hash of a first-use account.
pub open spec fn reference_code_hash(sig_type: u8, public_key: Seq<u8>) -> Seq<u8> {
    blake3_digest(reference_code_message(sig_type, public_key))
}

/// The byte string whose digest is the code hash of a first-use account.
pub fn reference_pqaccount_message(sig_type: u8, public_key: &[u8]) -> (message: Vec<u8>)
    ensures
        message@ == reference_code_message(sig_type, public_key@),
{
    let mut message: Vec<u8> = copy_bytes("PQVM-1:ReferencePQAccount".as_bytes());
    message.push(sig_type);
    append_bytes(&mut message, public_key);
    assert(message@ =~= reference_code_message(sig_type, public_key@));
    message
}

/// The code hash of a first-use account.
pub fn reference_pqaccount_code_hash(sig_type: u8, public_key: &[u8]) -> (hash: PqHash)
    ensures
        hash@ == reference_code_hash(sig_type, public_key@),
{
    PqHash(blake3_hash(reference_pqaccount_message(sig_type, public_key).as_slice()))
}

/// What the address of a created contract is the digest of.
pub open spec fn create_message(sender: Seq<u8>, nonce: u64) -> Seq<u8> {
    seq![0u8] + sender + be_bytes(nonce as nat, 8)
}

/// The address of the contract that `sender` creates with its transaction `nonce`.
pub open spec fn create_address(sender: Seq<u8>, nonce: u64) -> Seq<u8> {
    blake3_digest(create_message(sender, nonce))
}

/// The byte string whose digest is the address of a created contract.
pub fn create_address_message(sender: PQAddress, nonce: u64) -> (message: Vec<u8>)
    ensures
        message@ == create_message(sender@, nonce),
{
    let mut message: Vec<u8> = Vec::new();
    message.push(0x00);
    append_bytes(&mut message, sender.as_bytes().as_slice());
    append_bytes(&mut message, be_encode(nonce, 8).as_slice());
    assert(message@ =~= create_message(sender@, nonce));
    message
}

/// The address of the contract that `sender` creates with its transaction `nonce`.
pub fn create_address_from_nonce(sender: PQAddress, nonce: u64) -> (address: PQAddress)
    ensures
        address@ == create_address(sender@, nonce),
{
    PQAddress(blake3_hash(create_address_message(sender, nonce).as_slice()))
}

/// The world in which the sender of a transaction has an account: the one it had, or
/// a first-use account with nothing in it but the reference code hash.
pub open spec fn with_sender(world: WorldView, sender: Seq<u8>, tx: TxView) -> WorldView {
    if world.accounts.contains_key(sender) {
        world
    } else {
        world.with_account(
            sender,
            AccountView {
                nonce: 0,
                balance: 0,
                code_hash: reference_code_hash(tx.sig_type, tx.public_key->0),
                code: Seq::empty(),
            },
        )
    }
}

/// Gives the sender of a transaction an account if it has none.
pub fn ensure_sender_account(state: &mut PqvmState, sender: PQAddress, tx: &PQTx) -> (done: Result<
    (),
    TxExecutionError,
>)
    ensures
        match done {
            Ok(_) => (old(state)@.world.accounts.contains_key(sender@) || tx@.public_key is Some)
                && final(state)@ == old(state)@.with_world(
                with_sender(old(state)@.world, sender@, tx@),
            ),
            Err(error) => !old(state)@.world.accounts.contains_key(sender@)
                && tx@.public_key is None && error@ == TxErrorView::MissingPublicKey
                && final(state)@ == old(state)@,
        },
{
    if state.account_ref(sender).is_some() {
        assert(state@ =~= old(state)@.with_world(old(state)@.world));
        return Ok(());
    }
    let public_key = match &tx.public_key {
        Some(public_key) => public_key,
        None => {
            return Err(TxExecutionError::MissingPublicKey);
        },
    };
    let code_hash = reference_pqaccount_code_hash(tx.sig_type, public_key.as_slice());
    let account = AccountInfo { nonce: 0, balance: PqU256::zero(), code_hash, code: Vec::new() };
    assert(account@.code =~= Seq::<u8>::empty());
    state.insert_account(sender, account);
    Ok(())
}

/// Why the sender's account does not admit a transaction, if it does not.
pub open spec fn account_error(world: WorldView, sender: Seq<u8>, tx: TxView) -> Option<
    TxErrorView,
> {
    if !world.accounts.contains_key(sender) {
        Some(TxErrorView::State(StateErrorView::MissingAccount(sender)))
    } else if world.accounts[sender].nonce != tx.nonce {
        Some(TxErrorView::NonceMismatch { expected: world.accounts[sender].nonce, got: tx.nonce })
    } else if world.accounts[sender].balance < tx.value {
        Some(
            TxErrorView::InsufficientBalance {
                balance: world.accounts[sender].balance,
                value: tx.value,
            },
        )
    } else {
        None
    }
}

/// Checks a transaction against the nonce and the balance of its sender.
pub fn validate_sender_account(state: &PqvmState, sender: PQAddress, tx: &PQTx) -> (verdict: Result<
    (),
    TxExecutionError,
>)
    ensures
        match verdict {
            Ok(_) => account_error(state@.world, sender@, tx@) is None,
            Err(error) => account_error(state@.world, sender@, tx@) == Some(error@),
        },
{
    let account = match state.account_ref(sender) {
        Some(account) => account,
        None => {
            return Err(TxExecutionError::State(StateError::MissingAccount(sender)));
        },
    };
    if account.nonce != tx.nonce {
        return Err(
            TxExecutionError::NonceMismatch { expected: account.nonce, got: tx.nonce },
        );
    }
    if account.balance.less_than(&tx.value) {
        return Err(
            TxExecutionError::InsufficientBalance { balance: account.balance, value: tx.value },
        );
    }
    Ok(())
}

/// The frame that a transaction runs, in the world in which its nonce is already
/// used up. A call runs the code of the recipient on the data; a creation runs the
/// data as code, at the address derived from the sender and the used nonce.
pub open spec fn frame_of(world: WorldView, env: Env, sender: Seq<u8>, tx: TxView) -> FrameView {
    FrameView {
        code: match tx.to {
            Some(to) => world.account_or_empty(to).code,
            None => tx.data,
        },
        calldata: if tx.to is Some {
            tx.data
        } else {
            Seq::empty()
        },
        caller: sender,
        address: match tx.to {
            Some(to) => to,
            None => create_address(sender, used_nonce(world, sender)),
        },
        value: tx.value,
        origin: sender,
        is_static: false,
        depth: 0,
        gas_limit: if tx.gas_limit <= env.gas_limit {
            tx.gas_limit
        } else {
            env.gas_limit
        },
    }
}

/// The last nonce that an account used up, zero if it used none.
pub open spec fn used_nonce(world: WorldView, sender: Seq<u8>) -> u64 {
    if world.accounts.contains_key(sender) && world.accounts[sender].nonce > 0 {
        (world.accounts[sender].nonce - 1) as u64
    } else {
        0
    }
}

/// The frame that a transaction runs, once its nonce is used up.
pub fn build_frame(state: &PqvmState, env: &Env, sender: PQAddress, tx: &PQTx) -> (frame:
    FrameContext)
    ensures
        frame@ == frame_of(state@.world, *env, sender@, tx@),
{
    let gas_limit: u64 = if tx.gas_limit <= env.gas_limit {
        tx.gas_limit
    } else {
        env.gas_limit
    };
    match tx.to {
        Some(to) => {
            let code = match state.account_ref(to) {
                Some(account) => copy_bytes(account.code.as_slice()),
                None => Vec::new(),
            };
            assert(code@ =~= state@.world.account_or_empty(to@).code);
            FrameContext {
                code,
                calldata: copy_bytes(tx.data.as_slice()),
                caller: sender,
                address: to,
                value: tx.value,
                origin: sender,
                is_static: false,
                depth: 0,
                gas_limit,
            }
        },
        None => {
            let nonce: u64 = match state.account_ref(sender) {
                Some(account) => account.nonce,
                None => 1,
            };
            let used: u64 = if nonce > 0 {
                nonce - 1
            } else {
                0
            };
            let calldata: Vec<u8> = Vec::new();
            assert(calldata@ =~= Seq::<u8>::empty());
            FrameContext {
                code: copy_bytes(tx.data.as_slice()),
                calldata,
                caller: sender,
                address: create_address_from_nonce(sender, used),
                value: tx.value,
                origin: sender,
                is_static: false,
                depth: 0,
                gas_limit,
            }
        },
    }
}

/// The state that a transaction leaves and what it answers.
#[verifier::ext_equal]
pub struct TxOutcome {
    pub state: StateView,
    pub result: Result<ReceiptView, TxErrorView>,
}

/// What becomes of a transaction whose frame has run: on an error of the interpreter
/// the state goes back to the checkpoint; otherwise the checkpoint is closed, and the
/// receipt tells what changed since.
pub open spec fn settled(
    state: StateView,
    checkpoint: nat,
    sender: Seq<u8>,
    frame: Result<ExecutionView, InterpreterErrorView>,
) -> TxOutcome {
    if checkpoint >= state.checkpoints.len() {
        TxOutcome {
            state,
            result: Err(TxErrorView::State(StateErrorView::UnknownCheckpoint(checkpoint))),
        }
    } else {
        match frame {
            Err(error) => TxOutcome {
                state: state.reverted(checkpoint as int),
                result: Err(TxErrorView::Interpreter(error)),
            },
            Ok(run) => TxOutcome {
                state: state.discarded(checkpoint as int),
                result: Ok(
                    ReceiptView {
                        sender,
                        status: run.status,
                        gas_used: run.gas_used,
                        output: run.output,
                        logs: run.logs,
                        state_diff: state.checkpoints[checkpoint as int].diff_to(state.world),
                    },
                ),
            },
        }
    }
}

/// The view of what a frame came to.
pub open spec fn frame_view(frame: Result<ExecutionResult, InterpreterError>) -> Result<
    ExecutionView,
    InterpreterErrorView,
> {
    match frame {
        Ok(run) => Ok(run@),
        Err(error) => Err(error@),
    }
}

/// The view of what a transaction answers.
pub open spec fn tx_view(answer: Result<TxReceipt, TxExecutionError>) -> Result<
    ReceiptView,
    TxErrorView,
> {
    match answer {
        Ok(receipt) => Ok(receipt@),
        Err(error) => Err(error@),
    }
}

/// Finishes a transaction whose frame has run, whatever the frame came to.
pub fn settle_frame(
    state: &mut PqvmState,
    checkpoint: usize,
    sender: PQAddress,
    frame: Result<ExecutionResult, InterpreterError>,
) -> (answer: Result<TxReceipt, TxExecutionError>)
    ensures
        final(state)@ == settled(old(state)@, checkpoint as nat, sender@, frame_view(frame)).state,
        tx_view(answer) == settled(old(state)@, checkpoint as nat, sender@, frame_view(frame)).result,
{
    match frame {
        Err(error) => match state.revert_to_checkpoint(checkpoint) {
            Ok(_) => Err(TxExecutionError::Interpreter(error)),
            Err(unknown) => Err(TxExecutionError::State(unknown)),
        },
        Ok(run) => {
            let state_diff = match state.diff_from_checkpoint(checkpoint) {
                Ok(state_diff) => state_diff,
                Err(unknown) => {
                    return Err(TxExecutionError::State(unknown));
                },
            };
            match state.discard_checkpoint(checkpoint) {
                Ok(_) => Ok(
                    TxReceipt {
                        sender,
                        status: run.status,
                        gas_used: run.gas_used,
                        output: run.output,
                        logs: run.logs,
                        state_diff,
                    },
                ),
                Err(unknown) => Err(TxExecutionError::State(unknown)),
            }
        },
    }
}

/// Why a transaction is refused before the state is touched, if it is.
pub open spec fn admission_error(env: Env, tx: TxView) -> Option<TxErrorView> {
    if tx.chain_id != env.chain_id {
        Some(
            TxErrorView::ChainIdMismatch { tx_chain_id: tx.chain_id, env_chain_id: env.chain_id },
        )
    } else if tx.gas_limit > env.gas_limit {
        Some(
            TxErrorView::GasLimitTooHigh {
                tx_gas_limit: tx.gas_limit,
                env_gas_limit: env.gas_limit,
            },
        )
    } else if sender_unknown(tx) is Some {
        sender_unknown(tx)
    } else {
        signature_error(tx)
    }
}

/// Why the value of a transaction cannot be paid, if it cannot. A creation pays none.
pub open spec fn payment_error(world: WorldView, sender: Seq<u8>, tx: TxView) -> Option<
    StateErrorView,
> {
    match tx.to {
        Some(to) => world.transfer_error(sender, to, tx.value),
        None => None,
    }
}

/// The world after the value of a transaction was paid.
pub open spec fn paid(world: WorldView, sender: Seq<u8>, tx: TxView) -> WorldView {
    match tx.to {
        Some(to) => world.transferred(sender, to, tx.value),
        None => world,
    }
}

/// What an admitted transaction of `sender` does, and what it answers. The state gets a
/// checkpoint; the sender gets an account if it has none; the account is checked; the
/// value is paid; the nonce goes up; the frame runs; and the outcome is settled. A step
/// between the checkpoint and the frame that fails leaves the state as the steps before
/// it made it, the checkpoint still open.
pub open spec fn admitted_outcome(
    state: StateView,
    env: Env,
    sender: Seq<u8>,
    tx: TxView,
) -> TxOutcome {
    let opened = state.checkpointed();
    let present = with_sender(state.world, sender, tx);
    let after_payment = paid(present, sender, tx);
    let ready = after_payment.nonce_incremented(sender);
    if !state.world.accounts.contains_key(sender) && tx.public_key is None {
        TxOutcome { state: opened, result: Err(TxErrorView::MissingPublicKey) }
    } else if let Some(error) = account_error(present, sender, tx) {
        TxOutcome { state: opened.with_world(present), result: Err(error) }
    } else if let Some(error) = payment_error(present, sender, tx) {
        TxOutcome { state: opened.with_world(present), result: Err(TxErrorView::State(error)) }
    } else if let Some(error) = after_payment.nonce_error(sender) {
        TxOutcome { state: opened.with_world(after_payment), result: Err(TxErrorView::State(error)) }
    } else {
        settled(
            opened.with_world(ready),
            state.checkpoints.len(),
            sender,
            code_outcome(frame_of(ready, env, sender, tx).code),
        )
    }
}

/// What a transaction does, and what it answers: it is refused and changes nothing, or
/// it is admitted.
pub open spec fn tx_outcome(state: StateView, env: Env, tx: TxView) -> TxOutcome {
    match admission_error(env, tx) {
        Some(error) => TxOutcome { state, result: Err(error) },
        None => admitted_outcome(state, env, sender_of(tx), tx),
    }
}

/// A transaction never closes a checkpoint that was open before it. One that is
/// executed, that is refused outright or whose frame fails leaves none behind; any
/// other leaves its own open, and going back to it gives the state before.
pub proof fn law_checkpoints_kept(state: StateView, env: Env, tx: TxView)
    ensures
        ({
            let outcome = tx_outcome(state, env, tx);
            &&& outcome.state.checkpoints == state.checkpoints || outcome.state.checkpoints
                == state.checkpoints.push(state.world)
            &&& outcome.state.checkpoints != state.checkpoints ==> outcome.state.reverted(
                state.checkpoints.len() as int,
            ) == state
            &&& outcome.result is Ok ==> outcome.state.checkpoints == state.checkpoints
            &&& admission_error(env, tx) is Some ==> outcome.state == state
            &&& outcome.result matches Err(TxErrorView::Interpreter(_)) ==> outcome.state == state
        }),
{
    let opened = state.checkpointed();
    assert(opened.checkpoints.take(state.checkpoints.len() as int) =~= state.checkpoints);
}

/// Executes a transaction.
pub fn execute_transaction(state: &mut PqvmState, env: &Env, tx: &PQTx) -> (answer: Result<
    TxReceipt,
    TxExecutionError,
>)
    ensures
        final(state)@ == tx_outcome(old(state)@, *env, tx@).state,
        tx_view(answer) == tx_outcome(old(state)@, *env, tx@).result,
{
    if tx.chain_id != env.chain_id {
        return Err(
            TxExecutionError::ChainIdMismatch {
                tx_chain_id: tx.chain_id,
                env_chain_id: env.chain_id,
            },
        );
    }
    if tx.gas_limit > env.gas_limit {
        return Err(
            TxExecutionError::GasLimitTooHigh {
                tx_gas_limit: tx.gas_limit,
                env_gas_limit: env.gas_limit,
            },
        );
    }
    let sender = match derive_sender(tx) {
        Ok(sender) => sender,
        Err(error) => {
            return Err(error);
        },
    };
    if let Err(error) = verify_transaction_signature(tx) {
        return Err(error);
    }
    execute_admitted(state, env, sender, tx)
}

/// Executes a transaction of `sender` whose signature was accepted.
pub fn execute_admitted(
    state: &mut PqvmState,
    env: &Env,
    sender: PQAddress,
    tx: &PQTx,
) -> (answer: Result<TxReceipt, TxExecutionError>)
    ensures
        final(state)@ == admitted_outcome(old(state)@, *env, sender@, tx@).state,
        tx_view(answer) == admitted_outcome(old(state)@, *env, sender@, tx@).result,
{
    let checkpoint: usize = state.checkpoint();
    if let Err(error) = ensure_sender_account(state, sender, tx) {
        return Err(error);
    }
    if let Err(error) = validate_sender_account(state, sender, tx) {
        return Err(error);
    }
    if let Some(to) = tx.to {
        if let Err(error) = state.transfer(sender, to, tx.value) {
            return Err(TxExecutionError::State(error));
        }
    }
    if let Err(error) = state.increment_nonce(sender) {
        return Err(TxExecutionError::State(error));
    }
    let frame = build_frame(state, env, sender, tx);
    let mut interpreter = Interpreter::default();
    let run = interpreter.execute_frame(state, env, &frame);
    settle_frame(state, checkpoint, sender, run)
}

/// The address of a created contract is derived from one pair of sender and nonce: no
/// two pairs have the same message.
pub proof fn law_create_message_injective(
    sender_a: Seq<u8>,
    nonce_a: u64,
    sender_b: Seq<u8>,
    nonce_b: u64,
)
    requires
        sender_a.len() == 32,
        sender_b.len() == 32,
        create_message(sender_a, nonce_a) == create_message(sender_b, nonce_b),
    ensures
        sender_a == sender_b,
        nonce_a == nonce_b,
{
    let a = create_message(sender_a, nonce_a);
    let b = create_message(sender_b, nonce_b);
    lemma_be_bytes_len(nonce_a as nat, 8);
    lemma_be_bytes_len(nonce_b as nat, 8);
    assert(a.subrange(1, 33) =~= sender_a);
    assert(b.subrange(1, 33) =~= sender_b);
    assert(a.subrange(33, 41) =~= be_bytes(nonce_a as nat, 8));
    assert(b.subrange(33, 41) =~= be_bytes(nonce_b as nat, 8));
    lemma_pow256_values();
    lemma_be_bytes_injective(nonce_a as nat, nonce_b as nat, 8);
}

/// Account addresses, contract addresses and first-use code hashes are digests of
/// messages of three kinds that never coincide.
pub proof fn law_derivations_separate(
    algo: AlgoId,
    account_key: Seq<u8>,
    creator: Seq<u8>,
    nonce: u64,
    sig_type: u8,
    code_key: Seq<u8>,
)
    ensures
        account_message(algo.spec_id(), account_key) != create_message(creator, nonce),
        account_message(algo.spec_id(), account_key) != reference_code_message(sig_type, code_key),
        create_message(creator, nonce) != reference_code_message(sig_type, code_key),
{
    let prefix = "PQVM-1:ReferencePQAccount"@;
    reveal_strlit("PQVM-1:ReferencePQAccount");
    vstd::utf8::is_ascii_chars_encode_utf8(prefix);
    assert(vstd::utf8::encode_utf8(prefix)[0] == 80);
    assert(reference_code_message(sig_type, code_key)[0] == 80);
    assert(create_message(creator, nonce)[0] == 0);
    assert(account_message(algo.spec_id(), account_key)[0] == algo.spec_id());
}

} // verus!
