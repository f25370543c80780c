//! What transactions and blocks do, said from the fields of their inputs and results.
use crate::block::{block_progress, receipt_views, tx_views, BlockProgress};
use crate::bytes::{be_bytes, lemma_pow256_values};
use crate::digest::blake3_digest;
use crate::interpreter::{
    Env, ExecutionResult, ExecutionStatus, ExecutionView, FrameContext, InterpreterError,
    InterpreterErrorView,
};
use crate::laws::receipts_gas;
use crate::primitives::{account_message, PQTx, TxView};
use crate::signatures::{ml_dsa_65_accepts, slh_dsa_sha2_256f_accepts};
use crate::state::{AccountView, StateError, StateErrorView, StateView, WorldView};
use crate::transaction::{
    account_error, admitted_outcome, create_address, create_message, frame_of, frame_view,
    reference_code_hash, reference_code_message, sender_of, sender_unknown, settled,
    signature_error, tx_outcome, tx_view, with_sender, ReceiptView, TxErrorView, TxExecutionError,
    TxReceipt,
};
use crate::word::PqU256;
use vstd::prelude::*;

verus! {

/// The account that stands at an address.
pub open spec fn found(world: WorldView, a: Seq<u8>) -> Option<AccountView> {
    if world.accounts.contains_key(a) {
        Some(world.accounts[a])
    } else {
        None
    }
}

/// The balance at an address, zero where there is no account.
pub open spec fn balance_of(world: WorldView, a: Seq<u8>) -> nat {
    if world.accounts.contains_key(a) {
        world.accounts[a].balance
    } else {
        0
    }
}

/// The nonce at an address, zero where there is no account.
pub open spec fn nonce_of(world: WorldView, a: Seq<u8>) -> u64 {
    if world.accounts.contains_key(a) {
        world.accounts[a].nonce
    } else {
        0
    }
}

/// The code at an address, none where there is no account.
pub open spec fn code_of(world: WorldView, a: Seq<u8>) -> Seq<u8> {
    if world.accounts.contains_key(a) {
        world.accounts[a].code
    } else {
        Seq::empty()
    }
}

/// The code that a transaction runs: that of its recipient, or its own data.
pub open spec fn code_run(world: WorldView, tx: TxView) -> Seq<u8> {
    match tx.to {
        Some(to) => code_of(world, to),
        None => tx.data,
    }
}

/// Whether the value of a transaction would take its recipient to 2^256 or above.
pub open spec fn recipient_overflows(world: WorldView, sender: Seq<u8>, tx: TxView) -> bool {
    match tx.to {
        Some(to) => to != sender && balance_of(world, to) + tx.value
            >= 0x1_0000_0000_0000_0000_0000_0000_0000_0000_0000_0000_0000_0000_0000_0000_0000_0000nat,
        None => false,
    }
}

/// The digest of all signed fields in their order.
pub open spec fn digest_to_sign(tx: TxView) -> Seq<u8> {
    blake3_digest(
        be_bytes(tx.chain_id as nat, 8)
            + be_bytes(tx.nonce as nat, 8)
            + be_bytes(tx.max_fee, 32)
            + be_bytes(tx.gas_limit as nat, 8)
            + (match tx.to {
                Some(to) => to,
                None => Seq::new(32, |i: int| 0u8),
            })
            + be_bytes(tx.value, 32)
            + tx.data
            + seq![tx.sig_type],
    )
}

/// Whether the scheme that the algorithm byte names accepts the key, the signature and
/// the digest, which it reads from one byte string by its own lengths.
pub open spec fn scheme_accepts(tx: TxView) -> bool {
    let all = tx.public_key->0 + tx.signature + digest_to_sign(tx);
    if tx.sig_type == 1 {
        all.len() >= 5261 && ml_dsa_65_accepts(
            all.subrange(0, 1952),
            all.subrange(1952, 5261),
            all.subrange(5261, all.len() as int),
        )
    } else {
        tx.sig_type == 2 && all.len() >= 49920 && slh_dsa_sha2_256f_accepts(
            all.subrange(0, 64),
            all.subrange(64, 49920),
            all.subrange(49920, all.len() as int),
        )
    }
}

/// Whether a transaction may touch the state: it is for this chain and within its gas
/// limit, and the key that it shows signed it.
pub open spec fn passes(env: Env, tx: TxView) -> bool {
    &&& tx.chain_id == env.chain_id
    &&& tx.gas_limit <= env.gas_limit
    &&& tx.sig_type == 1 || tx.sig_type == 2
    &&& tx.public_key is Some
    &&& scheme_accepts(tx)
}

/// The address of the key that a transaction shows.
pub open spec fn key_address(tx: TxView) -> Seq<u8> {
    blake3_digest(seq![tx.sig_type] + tx.public_key->0)
}

/// The account that an address without one gets with its first transaction.
pub open spec fn first_account(tx: TxView) -> AccountView {
    AccountView {
        nonce: 0,
        balance: 0,
        code_hash: blake3_digest(
            vstd::utf8::encode_utf8("PQVM-1:ReferencePQAccount"@) + seq![tx.sig_type]
                + tx.public_key->0,
        ),
        code: Seq::empty(),
    }
}

/// The account at an address, or the one that holds nothing.
pub open spec fn found_or_blank(world: WorldView, a: Seq<u8>) -> AccountView {
    match found(world, a) {
        Some(account) => account,
        None => AccountView {
            nonce: 0,
            balance: 0,
            code_hash: Seq::new(32, |i: int| 0u8),
            code: Seq::empty(),
        },
    }
}

/// The account of a sender, or the one that its transaction gives it.
pub open spec fn sender_account(world: WorldView, sender: Seq<u8>, tx: TxView) -> AccountView {
    match found(world, sender) {
        Some(account) => account,
        None => first_account(tx),
    }
}

/// What a transaction takes from the balance of its sender: its value, if it goes to
/// another account.
pub open spec fn taken(sender: Seq<u8>, tx: TxView) -> nat {
    if tx.to is Some && tx.to != Some(sender) {
        tx.value
    } else {
        0
    }
}

/// A transaction of a known algorithm and key is found well signed exactly if the
/// scheme accepts it; one without a key, or of another algorithm, is told so.
pub proof fn law_signature_verdict(tx: TxView)
    ensures
        signature_error(tx) is None <==> {
            &&& tx.public_key is Some
            &&& tx.sig_type == 1 || tx.sig_type == 2
            &&& scheme_accepts(tx)
        },
        signature_error(tx) == Some(TxErrorView::MissingPublicKey) <==> tx.public_key is None,
        signature_error(tx) == Some(TxErrorView::UnknownSignatureAlgorithm(tx.sig_type)) <==> {
            &&& tx.public_key is Some
            &&& tx.sig_type != 1
            &&& tx.sig_type != 2
        },
        signature_error(tx) == Some(TxErrorView::InvalidSignature) <==> {
            &&& tx.public_key is Some
            &&& tx.sig_type == 1 || tx.sig_type == 2
            &&& !scheme_accepts(tx)
        },
{
    assert(tx.signing_payload() == digest_to_sign(tx));
}

/// With a key and a signature of the lengths of ML-DSA-65, a transaction of that
/// algorithm passes the signature check exactly if the scheme accepts its signature of
/// the digest of its fields under its key; otherwise the signature is invalid.
pub proof fn law_ml_dsa_65_verdict(tx: TxView)
    requires
        tx.sig_type == 1,
        tx.public_key matches Some(key) && key.len() == 1952,
        tx.signature.len() == 3309,
    ensures
        ml_dsa_65_accepts(tx.public_key->0, tx.signature, digest_to_sign(tx))
            <==> signature_error(tx) is None,
        !ml_dsa_65_accepts(tx.public_key->0, tx.signature, digest_to_sign(tx))
            <==> signature_error(tx) == Some(TxErrorView::InvalidSignature),
{
    law_signature_verdict(tx);
    let all = tx.public_key->0 + tx.signature + digest_to_sign(tx);
    assert(all.subrange(0, 1952) =~= tx.public_key->0);
    assert(all.subrange(1952, 5261) =~= tx.signature);
    assert(all.subrange(5261, all.len() as int) =~= digest_to_sign(tx));
}

/// The same for SLH-DSA-SHA2-256f.
pub proof fn law_slh_dsa_sha2_256f_verdict(tx: TxView)
    requires
        tx.sig_type == 2,
        tx.public_key matches Some(key) && key.len() == 64,
        tx.signature.len() == 49856,
    ensures
        slh_dsa_sha2_256f_accepts(tx.public_key->0, tx.signature, digest_to_sign(tx))
            <==> signature_error(tx) is None,
        !slh_dsa_sha2_256f_accepts(tx.public_key->0, tx.signature, digest_to_sign(tx))
            <==> signature_error(tx) == Some(TxErrorView::InvalidSignature),
{
    law_signature_verdict(tx);
    let all = tx.public_key->0 + tx.signature + digest_to_sign(tx);
    assert(all.subrange(0, 64) =~= tx.public_key->0);
    assert(all.subrange(64, 49920) =~= tx.signature);
    assert(all.subrange(49920, all.len() as int) =~= digest_to_sign(tx));
}

/// A transaction is refused before the state is touched exactly for the first of these
/// that holds: another chain, more gas than the limit, an unknown algorithm, no public
/// key, a signature that the scheme does not accept. The state is then as it was.
pub proof fn law_refusals(state: StateView, env: Env, tx: TxView)
    ensures
        ({
            let answer = tx_outcome(state, env, tx).result;
            let here = tx.chain_id == env.chain_id;
            let fits = here && tx.gas_limit <= env.gas_limit;
            let known = fits && (tx.sig_type == 1 || tx.sig_type == 2);
            let shown = known && tx.public_key is Some;
            &&& answer == Err::<ReceiptView, TxErrorView>(
                TxErrorView::ChainIdMismatch {
                    tx_chain_id: tx.chain_id,
                    env_chain_id: env.chain_id,
                },
            ) <==> !here
            &&& answer == Err::<ReceiptView, TxErrorView>(
                TxErrorView::GasLimitTooHigh {
                    tx_gas_limit: tx.gas_limit,
                    env_gas_limit: env.gas_limit,
                },
            ) <==> here && !fits
            &&& answer == Err::<ReceiptView, TxErrorView>(
                TxErrorView::UnknownSignatureAlgorithm(tx.sig_type),
            ) <==> fits && !known
            &&& answer == Err::<ReceiptView, TxErrorView>(TxErrorView::MissingPublicKey)
                <==> known && !shown
            &&& answer == Err::<ReceiptView, TxErrorView>(TxErrorView::InvalidSignature)
                <==> shown && !scheme_accepts(tx)
            &&& !passes(env, tx) ==> tx_outcome(state, env, tx).state == state
        }),
{
    law_signature_verdict(tx);
}

/// An admitted transaction is answered by the first of these that holds: a first use
/// without a key; another nonce than that of the sender; a value above its balance, and
/// nothing but the value; a recipient whose balance would overflow; a nonce that cannot
/// go up; code, of which the first byte alone decides; and success, which is owed
/// wherever none of these holds.
pub proof fn law_admitted_answer(state: StateView, env: Env, sender: Seq<u8>, tx: TxView)
    ensures
        ({
            let world = state.world;
            let answer = admitted_outcome(state, env, sender, tx).result;
            let code = code_run(world, tx);
            let known = found(world, sender) is Some || tx.public_key is Some;
            let in_turn = known && tx.nonce == nonce_of(world, sender);
            let covered = in_turn && tx.value <= balance_of(world, sender);
            let payable = covered && !recipient_overflows(world, sender, tx);
            let ready = payable && tx.nonce < u64::MAX;
            &&& answer == Err::<ReceiptView, TxErrorView>(TxErrorView::MissingPublicKey)
                <==> !known
            &&& answer == Err::<ReceiptView, TxErrorView>(
                TxErrorView::NonceMismatch { expected: nonce_of(world, sender), got: tx.nonce },
            ) <==> known && !in_turn
            &&& answer == Err::<ReceiptView, TxErrorView>(
                TxErrorView::InsufficientBalance {
                    balance: balance_of(world, sender),
                    value: tx.value,
                },
            ) <==> in_turn && !covered
            &&& answer == Err::<ReceiptView, TxErrorView>(
                TxErrorView::State(StateErrorView::BalanceOverflow(tx.to->0)),
            ) <==> covered && !payable
            &&& answer == Err::<ReceiptView, TxErrorView>(
                TxErrorView::State(StateErrorView::NonceOverflow(sender)),
            ) <==> payable && !ready
            &&& answer == Err::<ReceiptView, TxErrorView>(
                TxErrorView::Interpreter(InterpreterErrorView::RemovedOpcode("CALLCODE"@)),
            ) <==> ready && code.len() > 0 && code[0] == 0xf2
            &&& answer == Err::<ReceiptView, TxErrorView>(
                TxErrorView::Interpreter(InterpreterErrorView::UnsupportedOpcode(code[0])),
            ) <==> ready && code.len() > 0 && code[0] != 0xf2
            &&& answer is Ok <==> ready && code.len() == 0
        }),
{
    lemma_pow256_values();
}

/// What the steps of an admitted transaction do to the world. One that is executed
/// takes the value, and nothing more, from the sender, gives it to the recipient and
/// uses up the nonce; no other account and no storage word changes. One that is not
/// executed leaves its checkpoint and no more than the account of a first use; one that
/// fails in its frame leaves nothing.
pub proof fn law_admitted_effects(state: StateView, env: Env, sender: Seq<u8>, tx: TxView)
    ensures
        ({
            let before = state.world;
            let outcome = admitted_outcome(state, env, sender, tx);
            let after = outcome.state.world;
            let own = sender_account(before, sender, tx);
            &&& outcome.result is Ok ==> {
                &&& found(after, sender) == Some(
                    AccountView {
                        nonce: (tx.nonce + 1) as u64,
                        balance: (own.balance - taken(sender, tx)) as nat,
                        ..own
                    },
                )
                &&& tx.to matches Some(to) ==> to != sender ==> found(after, to) == Some(
                    AccountView {
                        balance: balance_of(before, to) + tx.value,
                        ..found_or_blank(before, to)
                    },
                )
                &&& forall|a: Seq<u8>|
                    a != sender && tx.to != Some(a) ==> #[trigger] found(after, a) == found(
                        before,
                        a,
                    )
                &&& after.storage == before.storage
                &&& outcome.state.checkpoints == state.checkpoints
            }
            &&& outcome.result matches Err(TxErrorView::Interpreter(_)) ==> outcome.state == state
            &&& outcome.result == Err::<ReceiptView, TxErrorView>(TxErrorView::MissingPublicKey)
                ==> after == before
            &&& (outcome.result matches Err(TxErrorView::NonceMismatch { .. })
                || outcome.result matches Err(TxErrorView::InsufficientBalance { .. })
                || outcome.result matches Err(TxErrorView::State(
                StateErrorView::BalanceOverflow(_),
            ))) ==> {
                &&& found(after, sender) == Some(own)
                &&& forall|a: Seq<u8>|
                    a != sender ==> #[trigger] found(after, a) == found(before, a)
                &&& after.storage == before.storage
            }
            &&& outcome.result matches Err(TxErrorView::State(StateErrorView::NonceOverflow(_)))
                ==> {
                &&& found(after, sender) == Some(
                    AccountView { balance: (own.balance - taken(sender, tx)) as nat, ..own },
                )
                &&& tx.to matches Some(to) ==> to != sender ==> found(after, to) == Some(
                    AccountView {
                        balance: balance_of(before, to) + tx.value,
                        ..found_or_blank(before, to)
                    },
                )
                &&& forall|a: Seq<u8>|
                    a != sender && tx.to != Some(a) ==> #[trigger] found(after, a) == found(
                        before,
                        a,
                    )
                &&& after.storage == before.storage
            }
            &&& outcome.result is Err && !(outcome.result matches Err(
                TxErrorView::Interpreter(_),
            )) ==> outcome.state.checkpoints == state.checkpoints.push(before)
        }),
{
    lemma_pow256_values();
    let opened = state.checkpointed();
    assert(opened.checkpoints.take(state.checkpoints.len() as int) =~= state.checkpoints);
}

/// A transaction that may touch the state is one of the address of its key, and does
/// what an admitted transaction of that address does.
pub proof fn law_sender_is_the_key(state: StateView, env: Env, tx: TxView)
    requires
        passes(env, tx),
    ensures
        tx_outcome(state, env, tx) == admitted_outcome(state, env, key_address(tx), tx),
{
    law_signature_verdict(tx);
}

/// When execution is owed: exactly if the transaction passes, has the nonce of its
/// sender, its value is covered and can be received, its nonce can go up, and there is
/// no code to run. In particular the fee plays no part, and no executed transaction had
/// code.
pub proof fn law_execution_owed(state: StateView, env: Env, tx: TxView)
    ensures
        ({
            let world = state.world;
            let sender = key_address(tx);
            tx_outcome(state, env, tx).result is Ok <==> {
                &&& passes(env, tx)
                &&& tx.nonce == nonce_of(world, sender)
                &&& tx.nonce < u64::MAX
                &&& tx.value <= balance_of(world, sender)
                &&& !recipient_overflows(world, sender, tx)
                &&& code_run(world, tx).len() == 0
            }
        }),
{
    law_refusals(state, env, tx);
    if passes(env, tx) {
        law_sender_is_the_key(state, env, tx);
        law_admitted_answer(state, env, key_address(tx), tx);
    } else {
        law_signature_verdict(tx);
    }
}

/// Why a transaction that passes is not executed, each reason exactly where it holds:
/// the nonce is not the sender's; the balance is below the value; the recipient cannot
/// receive it; the nonce cannot go up; there is code.
pub proof fn law_failures(state: StateView, env: Env, tx: TxView)
    ensures
        ({
            let world = state.world;
            let sender = key_address(tx);
            let code = code_run(world, tx);
            let answer = tx_outcome(state, env, tx).result;
            let in_turn = passes(env, tx) && tx.nonce == nonce_of(world, sender);
            let covered = in_turn && tx.value <= balance_of(world, sender);
            let payable = covered && !recipient_overflows(world, sender, tx);
            let ready = payable && tx.nonce < u64::MAX;
            &&& answer == Err::<ReceiptView, TxErrorView>(
                TxErrorView::NonceMismatch { expected: nonce_of(world, sender), got: tx.nonce },
            ) <==> passes(env, tx) && !in_turn
            &&& answer == Err::<ReceiptView, TxErrorView>(
                TxErrorView::InsufficientBalance {
                    balance: balance_of(world, sender),
                    value: tx.value,
                },
            ) <==> in_turn && !covered
            &&& answer == Err::<ReceiptView, TxErrorView>(
                TxErrorView::State(StateErrorView::BalanceOverflow(tx.to->0)),
            ) <==> covered && !payable
            &&& answer == Err::<ReceiptView, TxErrorView>(
                TxErrorView::State(StateErrorView::NonceOverflow(sender)),
            ) <==> payable && !ready
            &&& answer == Err::<ReceiptView, TxErrorView>(
                TxErrorView::Interpreter(InterpreterErrorView::RemovedOpcode("CALLCODE"@)),
            ) <==> ready && code.len() > 0 && code[0] == 0xf2
            &&& answer == Err::<ReceiptView, TxErrorView>(
                TxErrorView::Interpreter(InterpreterErrorView::UnsupportedOpcode(code[0])),
            ) <==> ready && code.len() > 0 && code[0] != 0xf2
            &&& answer matches Err(TxErrorView::InsufficientBalance { balance, value })
                ==> balance < value
        }),
{
    law_refusals(state, env, tx);
    if passes(env, tx) {
        law_sender_is_the_key(state, env, tx);
        law_admitted_answer(state, env, key_address(tx), tx);
    } else {
        law_signature_verdict(tx);
    }
}

/// What an executed transaction leaves: the sender has used up its nonce and is poorer
/// by the value, and by nothing else; the recipient is richer by it; code and code hash
/// of both are as they were, or those of a new account; nothing else is touched.
pub proof fn law_execution_effects(state: StateView, env: Env, tx: TxView)
    requires
        tx_outcome(state, env, tx).result is Ok,
    ensures
        ({
            let before = state.world;
            let after = tx_outcome(state, env, tx).state.world;
            let sender = key_address(tx);
            let own = sender_account(before, sender, tx);
            &&& found(after, sender) == Some(
                AccountView {
                    nonce: (tx.nonce + 1) as u64,
                    balance: (own.balance - taken(sender, tx)) as nat,
                    code_hash: own.code_hash,
                    code: own.code,
                },
            )
            &&& own.balance == balance_of(before, sender)
            &&& taken(sender, tx) <= own.balance
            &&& tx.to matches Some(to) ==> to != sender ==> found(after, to) == Some(
                AccountView {
                    nonce: nonce_of(before, to),
                    balance: balance_of(before, to) + tx.value,
                    code_hash: found_or_blank(before, to).code_hash,
                    code: code_of(before, to),
                },
            )
            &&& forall|a: Seq<u8>|
                a != sender && tx.to != Some(a) ==> #[trigger] found(after, a) == found(before, a)
            &&& after.storage == before.storage
            &&& tx_outcome(state, env, tx).state.checkpoints == state.checkpoints
        }),
{
    law_execution_owed(state, env, tx);
    law_sender_is_the_key(state, env, tx);
    law_admitted_effects(state, env, key_address(tx), tx);
}

/// What a transaction that passes and is not executed leaves: after a failure in the
/// frame, nothing; after any other, its checkpoint and the account of a first use, and
/// with a nonce that cannot go up also the payment.
pub proof fn law_failure_effects(state: StateView, env: Env, tx: TxView)
    requires
        passes(env, tx),
        tx_outcome(state, env, tx).result is Err,
    ensures
        ({
            let before = state.world;
            let outcome = tx_outcome(state, env, tx);
            let after = outcome.state.world;
            let sender = key_address(tx);
            let own = sender_account(before, sender, tx);
            if outcome.result matches Err(TxErrorView::Interpreter(_)) {
                outcome.state == state
            } else {
                &&& outcome.state.checkpoints == state.checkpoints.push(before)
                &&& after.storage == before.storage
                &&& forall|a: Seq<u8>|
                    a != sender && tx.to != Some(a) ==> #[trigger] found(after, a) == found(
                        before,
                        a,
                    )
                &&& !(outcome.result matches Err(
                    TxErrorView::State(StateErrorView::NonceOverflow(_)),
                )) ==> {
                    &&& found(after, sender) == Some(own)
                    &&& forall|a: Seq<u8>|
                        a != sender ==> #[trigger] found(after, a) == found(before, a)
                }
            }
        }),
{
    law_sender_is_the_key(state, env, tx);
    law_admitted_answer(state, env, key_address(tx), tx);
    law_admitted_effects(state, env, key_address(tx), tx);
}

/// The receipt of an executed transaction names the address of its key, reports success
/// without gas, output or logs, and lists exactly the accounts that differ, as they are
/// afterwards, and no storage word.
pub proof fn law_receipt(state: StateView, env: Env, tx: TxView)
    requires
        tx_outcome(state, env, tx).result is Ok,
    ensures
        ({
            let before = state.world;
            let after = tx_outcome(state, env, tx).state.world;
            let receipt = tx_outcome(state, env, tx).result->Ok_0;
            &&& receipt.sender == key_address(tx)
            &&& receipt.status == ExecutionStatus::Success
            &&& receipt.gas_used == 0
            &&& receipt.output.len() == 0
            &&& receipt.logs.len() == 0
            &&& forall|a: Seq<u8>| #[trigger]
                receipt.state_diff.accounts.contains_key(a) <==> found(before, a) != found(after, a)
            &&& forall|a: Seq<u8>| #[trigger]
                receipt.state_diff.accounts.contains_key(a)
                    ==> receipt.state_diff.accounts[a] == found(after, a)
            &&& forall|s: (Seq<u8>, nat)| !#[trigger] receipt.state_diff.storage.contains_key(s)
        }),
{
    law_execution_effects(state, env, tx);
    law_execution_owed(state, env, tx);
    let before = state.world;
    let after = tx_outcome(state, env, tx).state.world;
    let receipt = tx_outcome(state, env, tx).result->Ok_0;
    assert forall|a: Seq<u8>| #[trigger]
        receipt.state_diff.accounts.contains_key(a) <==> found(before, a) != found(after, a) by {
        assert(before.account(a) == found(before, a));
        assert(after.account(a) == found(after, a));
    }
    assert forall|a: Seq<u8>| #[trigger]
        receipt.state_diff.accounts.contains_key(a) implies receipt.state_diff.accounts[a] == found(
        after,
        a,
    ) by {
        assert(after.account(a) == found(after, a));
    }
}

/// One more transaction takes a block that went through so far to exactly the state that
/// the transaction alone leaves there, adds its receipt and its gas, and nothing else.
pub proof fn law_block_step(state: StateView, env: Env, txs: Seq<TxView>, n: nat)
    requires
        n < txs.len(),
    ensures
        block_progress(state, env, txs, n + 1) is Running ==> {
            let so_far = block_progress(state, env, txs, n);
            let now = block_progress(state, env, txs, n + 1);
            let alone = tx_outcome(so_far->state, env, txs[n as int]);
            &&& so_far is Running
            &&& alone.result is Ok
            &&& now->state == alone.state
            &&& now->receipts == so_far->receipts.push(alone.result->Ok_0)
            &&& now->gas_used == so_far->gas_used + alone.result->Ok_0.gas_used
        },
        block_progress(state, env, txs, 0) == (BlockProgress::Running {
            state,
            gas_used: 0,
            receipts: Seq::empty(),
        }),
{
}

/// Transactions each of which, executed where the one before left off, goes through,
/// with the gas of all within the limit, go through as a block: to the last of those
/// states, with those receipts and the sum of their gas.
pub proof fn law_block_runs(
    states: Seq<StateView>,
    receipts: Seq<ReceiptView>,
    env: Env,
    txs: Seq<TxView>,
    n: nat,
)
    requires
        n <= txs.len(),
        states.len() == n + 1,
        receipts.len() == n,
        forall|i: int|
            0 <= i < n ==> (#[trigger] tx_outcome(states[i], env, txs[i])).result == Ok::<
                ReceiptView,
                TxErrorView,
            >(receipts[i]),
        forall|i: int|
            0 <= i < n ==> (#[trigger] tx_outcome(states[i], env, txs[i])).state == states[i + 1],
        receipts_gas(receipts) <= env.gas_limit,
    ensures
        block_progress(states[0], env, txs, n) == (BlockProgress::Running {
            state: states[n as int],
            gas_used: receipts_gas(receipts),
            receipts,
        }),
    decreases n,
{
    if n == 0 {
        assert(receipts =~= Seq::<ReceiptView>::empty());
    } else {
        let m = (n - 1) as nat;
        let outcome = tx_outcome(states[m as int], env, txs[m as int]);
        assert(outcome.result == Ok::<ReceiptView, TxErrorView>(receipts[m as int]));
        assert(outcome.state == states[n as int]);
        law_block_runs(states.drop_last(), receipts.drop_last(), env, txs, m);
        assert(receipts.drop_last().push(receipts.last()) =~= receipts);
    }
}

/// Where the first transactions go through and the next one is not executed there, the
/// block is given up at it with its error, whatever follows.
pub proof fn law_block_refused(
    states: Seq<StateView>,
    receipts: Seq<ReceiptView>,
    env: Env,
    txs: Seq<TxView>,
    at: nat,
    n: nat,
)
    requires
        at < n <= txs.len(),
        states.len() == at + 1,
        receipts.len() == at,
        forall|i: int|
            0 <= i < at ==> (#[trigger] tx_outcome(states[i], env, txs[i])).result == Ok::<
                ReceiptView,
                TxErrorView,
            >(receipts[i]),
        forall|i: int|
            0 <= i < at ==> (#[trigger] tx_outcome(states[i], env, txs[i])).state == states[i + 1],
        receipts_gas(receipts) <= env.gas_limit,
        tx_outcome(states[at as int], env, txs[at as int]).result is Err,
    ensures
        block_progress(states[0], env, txs, n) == (BlockProgress::Refused {
            index: at,
            error: tx_outcome(states[at as int], env, txs[at as int]).result->Err_0,
        }),
    decreases n,
{
    if n == at + 1 {
        law_block_runs(states, receipts, env, txs, at);
    } else {
        law_block_refused(states, receipts, env, txs, at, (n - 1) as nat);
    }
}

/// As long as no opcode is implemented, no transaction uses gas, so that no block is
/// given up for gas: it goes through or stops at a transaction that is not executed.
pub proof fn law_block_within_gas(state: StateView, env: Env, txs: Seq<TxView>, n: nat)
    requires
        n <= txs.len(),
    ensures
        !(block_progress(state, env, txs, n) is OutOfGas),
        block_progress(state, env, txs, n) matches BlockProgress::Running { gas_used, .. }
            ==> gas_used == 0,
    decreases n,
{
    if n > 0 {
        let m = (n - 1) as nat;
        law_block_within_gas(state, env, txs, m);
        let so_far = block_progress(state, env, txs, m);
        if so_far is Running && tx_outcome(so_far->state, env, txs[m as int]).result is Ok {
            law_receipt(so_far->state, env, txs[m as int]);
        }
    }
}

/// A block that goes through touches no account but those of its senders and
/// recipients.
pub proof fn law_block_untouched(
    state: StateView,
    env: Env,
    txs: Seq<TxView>,
    n: nat,
    a: Seq<u8>,
)
    requires
        n <= txs.len(),
        block_progress(state, env, txs, n) is Running,
        forall|i: int|
            0 <= i < n ==> key_address(#[trigger] txs[i]) != a && txs[i].to != Some(a),
    ensures
        found(block_progress(state, env, txs, n)->state.world, a) == found(state.world, a),
    decreases n,
{
    if n > 0 {
        let m = (n - 1) as nat;
        law_block_step(state, env, txs, m);
        law_block_untouched(state, env, txs, m, a);
        assert(key_address(txs[m as int]) != a);
        law_execution_effects(block_progress(state, env, txs, m)->state, env, txs[m as int]);
    }
}

/// A block that goes through touches no storage word.
pub proof fn law_block_storage(state: StateView, env: Env, txs: Seq<TxView>, n: nat)
    requires
        n <= txs.len(),
        block_progress(state, env, txs, n) is Running,
    ensures
        block_progress(state, env, txs, n)->state.world.storage == state.world.storage,
    decreases n,
{
    if n > 0 {
        let m = (n - 1) as nat;
        law_block_step(state, env, txs, m);
        law_block_storage(state, env, txs, m);
        law_execution_effects(block_progress(state, env, txs, m)->state, env, txs[m as int]);
    }
}

/// The sum of the values that the first `n` transactions send from an address.
pub open spec fn sent(txs: Seq<TxView>, n: nat, a: Seq<u8>) -> nat
    decreases n,
{
    if n == 0 {
        0
    } else {
        sent(txs, (n - 1) as nat, a) + if txs[n - 1].to is Some && key_address(txs[n - 1]) == a {
            txs[n - 1].value
        } else {
            0
        }
    }
}

/// The sum of the values that the first `n` transactions send to an address.
pub open spec fn received(txs: Seq<TxView>, n: nat, a: Seq<u8>) -> nat
    decreases n,
{
    if n == 0 {
        0
    } else {
        received(txs, (n - 1) as nat, a) + if txs[n - 1].to == Some(a) {
            txs[n - 1].value
        } else {
            0
        }
    }
}

/// How many of the first `n` transactions an address sent.
pub open spec fn sent_count(txs: Seq<TxView>, n: nat, a: Seq<u8>) -> nat
    decreases n,
{
    if n == 0 {
        0
    } else {
        sent_count(txs, (n - 1) as nat, a) + if key_address(txs[n - 1]) == a {
            1nat
        } else {
            0nat
        }
    }
}

/// The books of a block that goes through: at every address, the balance is what it was,
/// more by the values sent to it and less by the values sent from it; and the nonce is
/// higher by the number of its transactions.
pub proof fn law_block_books(state: StateView, env: Env, txs: Seq<TxView>, n: nat, a: Seq<u8>)
    requires
        n <= txs.len(),
        block_progress(state, env, txs, n) is Running,
    ensures
        ({
            let after = block_progress(state, env, txs, n)->state.world;
            &&& balance_of(after, a) + sent(txs, n, a) == balance_of(state.world, a) + received(
                txs,
                n,
                a,
            )
            &&& nonce_of(after, a) == nonce_of(state.world, a) + sent_count(txs, n, a)
        }),
    decreases n,
{
    if n > 0 {
        let m = (n - 1) as nat;
        let tx = txs[m as int];
        let reached = block_progress(state, env, txs, m)->state;
        law_block_step(state, env, txs, m);
        law_block_books(state, env, txs, m, a);
        law_execution_effects(reached, env, tx);
        law_execution_owed(reached, env, tx);
        let after = tx_outcome(reached, env, tx).state.world;
        if a != key_address(tx) && tx.to != Some(a) {
            assert(found(after, a) == found(reached.world, a));
        } else if a != key_address(tx) {
            assert(found(after, a) is Some);
        } else {
            assert(found(after, key_address(tx)) is Some);
        }
    }
}

/// Who sends a transaction: an unknown algorithm is told first, then a missing key, and
/// otherwise it is the address of the key.
pub proof fn law_sender(tx: TxView)
    ensures
        sender_unknown(tx) == Some(TxErrorView::UnknownSignatureAlgorithm(tx.sig_type)) <==> {
            &&& tx.sig_type != 1
            &&& tx.sig_type != 2
        },
        sender_unknown(tx) == Some(TxErrorView::MissingPublicKey) <==> {
            &&& tx.sig_type == 1 || tx.sig_type == 2
            &&& tx.public_key is None
        },
        sender_unknown(tx) is None <==> {
            &&& tx.sig_type == 1 || tx.sig_type == 2
            &&& tx.public_key is Some
        },
        sender_of(tx) == key_address(tx),
{
}

/// A sender with an account keeps it; one without gets an account with the reference
/// code hash and nothing else in it. No other account and no storage word changes.
pub proof fn law_first_use(world: WorldView, sender: Seq<u8>, tx: TxView)
    ensures
        ({
            let after = with_sender(world, sender, tx);
            &&& found(world, sender) is Some ==> after == world
            &&& found(world, sender) is None ==> found(after, sender) == Some(first_account(tx))
            &&& forall|a: Seq<u8>|
                a != sender ==> #[trigger] found(after, a) == found(world, a)
            &&& after.storage == world.storage
        }),
{
}

/// An account admits a transaction exactly if it is there, has its nonce, and holds at
/// least its value; and the first of these that fails is told.
pub proof fn law_account_check(world: WorldView, sender: Seq<u8>, tx: TxView)
    ensures
        ({
            let answer = account_error(world, sender, tx);
            let there = found(world, sender) is Some;
            let in_turn = there && nonce_of(world, sender) == tx.nonce;
            let covered = in_turn && tx.value <= balance_of(world, sender);
            &&& answer == Some(TxErrorView::State(StateErrorView::MissingAccount(sender)))
                <==> !there
            &&& answer == Some(
                TxErrorView::NonceMismatch { expected: nonce_of(world, sender), got: tx.nonce },
            ) <==> there && !in_turn
            &&& answer == Some(
                TxErrorView::InsufficientBalance {
                    balance: balance_of(world, sender),
                    value: tx.value,
                },
            ) <==> in_turn && !covered
            &&& answer is None <==> covered
        }),
{
}

/// The frame of a call runs the code of the recipient there on all of the data; that of
/// a creation runs all of the data without input, at the digest of a zero byte, the
/// sender and the nonce before the present one. Both are called by the sender, carry the
/// value, may change the state, and have the smaller of the two gas limits.
pub proof fn law_frame(world: WorldView, env: Env, sender: Seq<u8>, tx: TxView)
    ensures
        ({
            let frame = frame_of(world, env, sender, tx);
            let nonce = nonce_of(world, sender);
            let used: nat = if nonce > 0 {
                (nonce - 1) as nat
            } else {
                0
            };
            &&& frame.code == code_run(world, tx)
            &&& frame.caller == sender
            &&& frame.origin == sender
            &&& frame.value == tx.value
            &&& !frame.is_static
            &&& frame.depth == 0
            &&& frame.gas_limit <= tx.gas_limit && frame.gas_limit <= env.gas_limit
            &&& frame.gas_limit == tx.gas_limit || frame.gas_limit == env.gas_limit
            &&& tx.to matches Some(to) ==> frame.calldata == tx.data && frame.address == to
            &&& tx.to is None ==> frame.calldata.len() == 0 && frame.address == blake3_digest(
                seq![0u8] + sender + be_bytes(used, 8),
            )
        }),
{
}

/// Contract addresses and first-use code hashes are digests of all that they are derived
/// from.
pub proof fn law_derived_digests(sender: Seq<u8>, nonce: u64, sig_type: u8, key: Seq<u8>)
    ensures
        create_address(sender, nonce) == blake3_digest(
            seq![0u8] + sender + be_bytes(nonce as nat, 8),
        ),
        create_message(sender, nonce) == seq![0u8] + sender + be_bytes(nonce as nat, 8),
        reference_code_hash(sig_type, key) == blake3_digest(
            vstd::utf8::encode_utf8("PQVM-1:ReferencePQAccount"@) + seq![sig_type] + key,
        ),
        reference_code_message(sig_type, key) == vstd::utf8::encode_utf8(
            "PQVM-1:ReferencePQAccount"@,
        ) + seq![sig_type] + key,
        account_message(sig_type, key) == seq![sig_type] + key,
{
}

/// What becomes of a frame, whatever it came to. Without the checkpoint, nothing happens
/// and the checkpoint is named. A frame that failed takes the world back to what the
/// checkpoint kept, and its error is handed on. Any other keeps the world, and its
/// receipt hands on sender, status, gas, output and logs, with what changed since.
pub proof fn law_settling(
    state: StateView,
    id: nat,
    sender: Seq<u8>,
    frame: Result<ExecutionView, InterpreterErrorView>,
)
    ensures
        ({
            let outcome = settled(state, id, sender, frame);
            &&& id >= state.checkpoints.len() ==> outcome.state == state && outcome.result == Err::<
                ReceiptView,
                TxErrorView,
            >(TxErrorView::State(StateErrorView::UnknownCheckpoint(id)))
            &&& id < state.checkpoints.len() ==> outcome.state.checkpoints
                == state.checkpoints.subrange(0, id as int)
            &&& id < state.checkpoints.len() ==> match frame {
                Err(error) => {
                    &&& outcome.state.world == state.checkpoints[id as int]
                    &&& outcome.result == Err::<ReceiptView, TxErrorView>(
                        TxErrorView::Interpreter(error),
                    )
                },
                Ok(run) => {
                    &&& outcome.state.world == state.world
                    &&& outcome.result matches Ok(receipt)
                    &&& receipt.sender == sender
                    &&& receipt.status == run.status
                    &&& receipt.gas_used == run.gas_used
                    &&& receipt.output == run.output
                    &&& receipt.logs == run.logs
                    &&& forall|a: Seq<u8>| #[trigger]
                        receipt.state_diff.accounts.contains_key(a) <==> found(
                            state.checkpoints[id as int],
                            a,
                        ) != found(state.world, a)
                    &&& forall|a: Seq<u8>| #[trigger]
                        receipt.state_diff.accounts.contains_key(a)
                            ==> receipt.state_diff.accounts[a] == found(state.world, a)
                    &&& forall|s: (Seq<u8>, nat)| #[trigger]
                        receipt.state_diff.storage.contains_key(s) <==> word_of(
                            state.checkpoints[id as int],
                            s,
                        ) != word_of(state.world, s)
                    &&& forall|s: (Seq<u8>, nat)| #[trigger]
                        receipt.state_diff.storage.contains_key(s)
                            ==> receipt.state_diff.storage[s] == word_of(state.world, s)
                },
            }
        }),
{
    if id < state.checkpoints.len() && frame is Ok {
        let kept = state.checkpoints[id as int];
        let diff = kept.diff_to(state.world);
        assert forall|a: Seq<u8>| #[trigger]
            diff.accounts.contains_key(a) <==> found(kept, a) != found(state.world, a) by {
            assert(kept.account(a) == found(kept, a));
            assert(state.world.account(a) == found(state.world, a));
        }
        assert forall|s: (Seq<u8>, nat)| #[trigger]
            diff.storage.contains_key(s) <==> word_of(kept, s) != word_of(state.world, s) by {
            assert(kept.word(s) == word_of(kept, s));
            assert(state.world.word(s) == word_of(state.world, s));
        }
    }
}

/// A storage word, zero where it was never written.
pub open spec fn word_of(world: WorldView, s: (Seq<u8>, nat)) -> nat {
    if world.storage.contains_key(s) {
        world.storage[s]
    } else {
        0
    }
}

/// Results, frames and receipts are seen by their own fields.
pub proof fn law_result_fields(run: ExecutionResult, frame: FrameContext, receipt: TxReceipt)
    ensures
        run@.status == run.status,
        run@.gas_used == run.gas_used,
        run@.output == run.output@,
        run@.logs == run.logs@,
        frame@.code == frame.code@,
        frame@.calldata == frame.calldata@,
        frame@.caller == frame.caller.0@,
        frame@.address == frame.address.0@,
        frame@.value == frame.value@,
        frame@.origin == frame.origin.0@,
        frame@.is_static == frame.is_static,
        frame@.depth == frame.depth,
        frame@.gas_limit == frame.gas_limit,
        receipt@.sender == receipt.sender.0@,
        receipt@.status == receipt.status,
        receipt@.gas_used == receipt.gas_used,
        receipt@.output == receipt.output@,
        receipt@.logs == receipt.logs@,
        receipt@.state_diff.accounts == receipt.state_diff.accounts@,
        receipt@.state_diff.storage == receipt.state_diff.storage@,
{
}

/// Errors are seen by their own fields.
pub proof fn law_error_fields(
    a: u64,
    b: u64,
    byte: u8,
    x: PqU256,
    y: PqU256,
    words: String,
    inner: StateError,
    stop: InterpreterError,
    name: &'static str,
)
    ensures
        (TxExecutionError::ChainIdMismatch { tx_chain_id: a, env_chain_id: b })@ == (
        TxErrorView::ChainIdMismatch { tx_chain_id: a, env_chain_id: b }),
        (TxExecutionError::GasLimitTooHigh { tx_gas_limit: a, env_gas_limit: b })@ == (
        TxErrorView::GasLimitTooHigh { tx_gas_limit: a, env_gas_limit: b }),
        TxExecutionError::MissingPublicKey@ == TxErrorView::MissingPublicKey,
        TxExecutionError::UnknownSignatureAlgorithm(byte)@
            == TxErrorView::UnknownSignatureAlgorithm(byte),
        (TxExecutionError::NonceMismatch { expected: a, got: b })@ == (TxErrorView::NonceMismatch {
            expected: a,
            got: b,
        }),
        (TxExecutionError::InsufficientBalance { balance: x, value: y })@ == (
        TxErrorView::InsufficientBalance { balance: x@, value: y@ }),
        TxExecutionError::InvalidSignature@ == TxErrorView::InvalidSignature,
        TxExecutionError::SignaturePrecompile(words)@ == TxErrorView::SignaturePrecompile(words@),
        TxExecutionError::State(inner)@ == TxErrorView::State(inner@),
        TxExecutionError::Interpreter(stop)@ == TxErrorView::Interpreter(stop@),
        InterpreterError::UnsupportedOpcode(byte)@ == InterpreterErrorView::UnsupportedOpcode(byte),
        InterpreterError::RemovedOpcode(name)@ == InterpreterErrorView::RemovedOpcode(name@),
        InterpreterError::StackUnderflow@ == InterpreterErrorView::StackUnderflow,
        InterpreterError::StackOverflow@ == InterpreterErrorView::StackOverflow,
{
}

/// The transactions and receipts of a block, and the answers of a transaction and of a
/// frame, are seen one for one, in their order.
pub proof fn law_block_views(
    txs: Seq<PQTx>,
    receipts: Seq<TxReceipt>,
    answer: Result<TxReceipt, TxExecutionError>,
    frame: Result<ExecutionResult, InterpreterError>,
)
    ensures
        tx_views(txs).len() == txs.len(),
        forall|i: int| 0 <= i < txs.len() ==> #[trigger] tx_views(txs)[i] == txs[i]@,
        receipt_views(receipts).len() == receipts.len(),
        forall|i: int|
            0 <= i < receipts.len() ==> #[trigger] receipt_views(receipts)[i] == receipts[i]@,
        answer matches Ok(receipt) ==> tx_view(answer) == Ok::<ReceiptView, TxErrorView>(receipt@),
        answer matches Err(error) ==> tx_view(answer) == Err::<ReceiptView, TxErrorView>(error@),
        frame matches Ok(run) ==> frame_view(frame) == Ok::<ExecutionView, InterpreterErrorView>(
            run@,
        ),
        frame matches Err(stop) ==> frame_view(frame) == Err::<ExecutionView, InterpreterErrorView>(
            stop@,
        ),
{
}

} // verus!
