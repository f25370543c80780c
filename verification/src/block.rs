//! Execution of a block.
use crate::gas;
use crate::interpreter::Env;
use crate::laws::{law_block_gas, receipts_gas};
use crate::primitives::{PQTx, TxView};
use crate::rules::{
    balance_of, found, key_address, law_block_books, law_block_storage, law_block_untouched, nonce_of,
    received, sent, sent_count,
};
use crate::state::{PqvmState, StateView};
use crate::transaction::{
    execute_transaction, law_checkpoints_kept, tx_outcome, ReceiptView, TxErrorView,
    TxExecutionError, TxReceipt,
};
use vstd::prelude::*;

verus! {

/// The record of an executed block.
#[derive(Clone, Debug, PartialEq, Eq)]
pub struct BlockExecutionResult {
    pub gas_used: u64,
    pub receipts: Vec<TxReceipt>,
}

/// Why a block was not executed.
#[derive(Clone, Debug, PartialEq, Eq)]
pub enum BlockExecutionError {
    TooManyTransactions { count: usize, max: usize },
    BlockGasLimitExceeded { used: u64, next: u64, limit: u64 },
    Transaction { index: usize, source: TxExecutionError },
}

/// How far the transactions of a block got.
pub enum BlockProgress {
    /// All went through so far.
    Running { state: StateView, gas_used: nat, receipts: Seq<ReceiptView> },
    /// A transaction was not executed.
    Refused { index: nat, error: TxErrorView },
    /// The gas of a transaction went over the limit of the block.
    OutOfGas { used: nat, next: u64 },
}

/// The progress of a block after one more transaction.
pub open spec fn block_step(progress: BlockProgress, index: nat, env: Env, tx: TxView) -> BlockProgress {
    match progress {
        BlockProgress::Running { state, gas_used, receipts } => {
            let outcome = tx_outcome(state, env, tx);
            match outcome.result {
                Err(error) => BlockProgress::Refused { index, error },
                Ok(receipt) => if gas_used + receipt.gas_used > env.gas_limit {
                    BlockProgress::OutOfGas { used: gas_used, next: receipt.gas_used }
                } else {
                    BlockProgress::Running {
                        state: outcome.state,
                        gas_used: gas_used + receipt.gas_used as nat,
                        receipts: receipts.push(receipt),
                    }
                },
            }
        },
        _ => progress,
    }
}

/// The progress of a block after its first `n` transactions.
pub open spec fn block_progress(state: StateView, env: Env, txs: Seq<TxView>, n: nat) -> BlockProgress
    decreases n,
{
    if n == 0 {
        BlockProgress::Running { state, gas_used: 0, receipts: Seq::empty() }
    } else {
        block_step(
            block_progress(state, env, txs, (n - 1) as nat),
            (n - 1) as nat,
            env,
            txs[n - 1],
        )
    }
}

/// The envelopes of a block.
pub open spec fn tx_views(txs: Seq<PQTx>) -> Seq<TxView> {
    txs.map_values(|tx: PQTx| tx@)
}

/// The receipts of a block.
pub open spec fn receipt_views(receipts: Seq<TxReceipt>) -> Seq<ReceiptView> {
    receipts.map_values(|receipt: TxReceipt| receipt@)
}

/// A block that came to a halt stays there.
proof fn lemma_halted(state: StateView, env: Env, txs: Seq<TxView>, n: nat, m: nat)
    requires
        n <= m,
        !(block_progress(state, env, txs, n) is Running),
    ensures
        block_progress(state, env, txs, m) == block_progress(state, env, txs, n),
    decreases m - n,
{
    if n < m {
        lemma_halted(state, env, txs, n, (m - 1) as nat);
    }
}

/// The gas of a block after one more transaction, or the error if that is over the
/// limit.
pub fn charge_block_gas(used: u64, next: u64, limit: u64) -> (total: Result<u64, BlockExecutionError>)
    ensures
        match total {
            Ok(sum) => used + next <= limit && sum == used + next,
            Err(error) => used + next > limit && error == (
            BlockExecutionError::BlockGasLimitExceeded { used, next, limit }),
        },
{
    match used.checked_add(next) {
        Some(sum) => {
            if sum > limit {
                Err(BlockExecutionError::BlockGasLimitExceeded { used, next, limit })
            } else {
                Ok(sum)
            }
        },
        None => Err(BlockExecutionError::BlockGasLimitExceeded { used, next, limit }),
    }
}

/// Executes the transactions of a block one after the other. A block that is not
/// executed in full leaves the state as it was.
pub fn execute_block(state: &mut PqvmState, env: &Env, txs: &[PQTx]) -> (answer: Result<
    BlockExecutionResult,
    BlockExecutionError,
>)
    ensures
        ({
            let before = old(state)@;
            let after = final(state)@;
            if txs@.len() > gas::MAX_TX_PER_BLOCK {
                &&& answer matches Err(BlockExecutionError::TooManyTransactions { count, max })
                &&& count == txs@.len() && max == gas::MAX_TX_PER_BLOCK
                &&& after == before
            } else {
                match block_progress(before.checkpointed(), *env, tx_views(txs@), txs@.len()) {
                    BlockProgress::Running { state: reached, gas_used, receipts } => {
                        &&& answer matches Ok(result)
                        &&& result.gas_used == gas_used
                        &&& receipt_views(result.receipts@) == receipts
                        &&& after == reached.discarded(before.checkpoints.len() as int)
                    },
                    BlockProgress::Refused { index: at, error } => {
                        &&& answer matches Err(BlockExecutionError::Transaction { index, source })
                        &&& index == at && source@ == error
                        &&& after == before
                    },
                    BlockProgress::OutOfGas { used: spent, next: more } => {
                        &&& answer matches Err(
                            BlockExecutionError::BlockGasLimitExceeded { used, next, limit },
                        )
                        &&& used == spent && next == more && limit == env.gas_limit
                        &&& after == before
                    },
                }
            }
        }),
        final(state)@.checkpoints == old(state)@.checkpoints,
        answer is Err ==> final(state)@ == old(state)@,
        answer matches Err(BlockExecutionError::TooManyTransactions { .. }) <==> txs@.len() > 500,
        answer matches Ok(result) ==> {
            &&& result.receipts@.len() == txs@.len()
            &&& result.gas_used == receipts_gas(receipt_views(result.receipts@))
            &&& result.gas_used <= env.gas_limit
        },
        answer is Ok ==> forall|a: Seq<u8>| #[trigger]
            balance_of(final(state)@.world, a) + sent(tx_views(txs@), txs@.len(), a) == balance_of(
                old(state)@.world,
                a,
            ) + received(tx_views(txs@), txs@.len(), a),
        answer is Ok ==> forall|a: Seq<u8>| #[trigger]
            nonce_of(final(state)@.world, a) == nonce_of(old(state)@.world, a) + sent_count(
                tx_views(txs@),
                txs@.len(),
                a,
            ),
        answer is Ok ==> forall|a: Seq<u8>|
            (forall|i: int|
                0 <= i < txs@.len() ==> key_address(#[trigger] txs@[i]@) != a && txs@[i]@.to
                    != Some(a)) ==> #[trigger] found(final(state)@.world, a) == found(
                old(state)@.world,
                a,
            ),
        answer is Ok ==> final(state)@.world.storage == old(state)@.world.storage,
{
    if txs.len() > gas::MAX_TX_PER_BLOCK {
        return Err(
            BlockExecutionError::TooManyTransactions {
                count: txs.len(),
                max: gas::MAX_TX_PER_BLOCK,
            },
        );
    }
    let ghost before = state@;
    let ghost views = tx_views(txs@);
    let checkpoint: usize = state.checkpoint();
    let mut receipts: Vec<TxReceipt> = Vec::with_capacity(txs.len());
    let mut gas_used: u64 = 0;
    let mut index: usize = 0;
    assert(receipt_views(receipts@) =~= Seq::<ReceiptView>::empty());
    while index < txs.len()
        invariant
            before == old(state)@,
            views == tx_views(txs@),
            txs@.len() <= gas::MAX_TX_PER_BLOCK,
            index <= txs@.len(),
            checkpoint == before.checkpoints.len(),
            state@.checkpoints == before.checkpointed().checkpoints,
            block_progress(before.checkpointed(), *env, views, index as nat)
                == (BlockProgress::Running {
                state: state@,
                gas_used: gas_used as nat,
                receipts: receipt_views(receipts@),
            }),
        decreases txs@.len() - index,
    {
        let ghost reached = state@;
        let ghost ghost_receipts = receipt_views(receipts@);
        proof {
            assert(views[index as int] == txs@[index as int]@);
            law_checkpoints_kept(reached, *env, views[index as int]);
            if !(block_progress(before.checkpointed(), *env, views, (index + 1) as nat) is Running) {
                lemma_halted(
                    before.checkpointed(),
                    *env,
                    views,
                    (index + 1) as nat,
                    txs@.len() as nat,
                );
            }
        }
        match execute_transaction(state, env, &txs[index]) {
            Ok(receipt) => {
                match charge_block_gas(gas_used, receipt.gas_used, env.gas_limit) {
                    Ok(total) => {
                        gas_used = total;
                        receipts.push(receipt);
                        assert(receipt_views(receipts@) =~= ghost_receipts.push(receipt@));
                    },
                    Err(error) => {
                        let _ = state.revert_to_checkpoint(checkpoint);
                        assert(state@ =~= before);
                        return Err(error);
                    },
                }
            },
            Err(source) => {
                let _ = state.revert_to_checkpoint(checkpoint);
                assert(state@ =~= before);
                return Err(BlockExecutionError::Transaction { index, source });
            },
        }
        index = index + 1;
    }
    assert(state@.checkpoints.take(checkpoint as int) =~= before.checkpoints);
    proof {
        let n = txs@.len();
        let opened = before.checkpointed();
        law_block_gas(opened, *env, views, n);
        law_block_storage(opened, *env, views, n);
        assert forall|a: Seq<u8>| #[trigger]
            balance_of(state@.world, a) + sent(views, n, a) == balance_of(before.world, a)
                + received(views, n, a) by {
            law_block_books(opened, *env, views, n, a);
        }
        assert forall|a: Seq<u8>| #[trigger]
            nonce_of(state@.world, a) == nonce_of(before.world, a) + sent_count(views, n, a) by {
            law_block_books(opened, *env, views, n, a);
        }
        assert forall|a: Seq<u8>|
            (forall|i: int|
                0 <= i < n ==> key_address(#[trigger] txs@[i]@) != a && txs@[i]@.to != Some(
                    a,
                )) implies #[trigger] found(state@.world, a) == found(before.world, a) by {
            assert forall|i: int| 0 <= i < n implies key_address(#[trigger] views[i]) != a
                && views[i].to != Some(a) by {
                assert(views[i] == txs@[i]@);
            }
            law_block_untouched(opened, *env, views, n, a);
        }
    }
    match state.discard_checkpoint(checkpoint) {
        Ok(_) => Ok(BlockExecutionResult { gas_used, receipts }),
        Err(source) => Err(
            BlockExecutionError::Transaction {
                index: txs.len(),
                source: TxExecutionError::State(source),
            },
        ),
    }
}

} // verus!
