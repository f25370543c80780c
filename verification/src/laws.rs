//! What holds of transactions, blocks and states as a whole.
use crate::block::{block_progress, BlockProgress};
use crate::interpreter::Env;
use crate::primitives::TxView;
use crate::state::{AccountView, DiffView, StateView, WorldView};
use crate::transaction::{
    admission_error, law_checkpoints_kept, paid, payment_error, sender_of, tx_outcome, with_sender,
    ReceiptView, TxErrorView,
};
use vstd::prelude::*;

verus! {

/// The sum of the balances at some addresses.
pub open spec fn balances(accounts: Map<Seq<u8>, AccountView>, at: Set<Seq<u8>>) -> nat
    decreases at.len(),
    when at.finite()
{
    if at.len() == 0 {
        0
    } else {
        let a = at.choose();
        accounts[a].balance + balances(accounts, at.remove(a))
    }
}

/// The sum of all balances of a world.
pub open spec fn supply(world: WorldView) -> nat {
    balances(world.accounts, world.accounts.dom())
}

/// Any address can be taken out of the sum first.
proof fn lemma_balances_split(
    accounts: Map<Seq<u8>, AccountView>,
    at: Set<Seq<u8>>,
    a: Seq<u8>,
)
    requires
        at.finite(),
        at.contains(a),
    ensures
        balances(accounts, at) == accounts[a].balance + balances(accounts, at.remove(a)),
    decreases at.len(),
{
    let c = at.choose();
    if c != a {
        lemma_balances_split(accounts, at.remove(c), a);
        lemma_balances_split(accounts, at.remove(a), c);
        assert(at.remove(c).remove(a) =~= at.remove(a).remove(c));
    }
}

/// The sum depends on the balances at the addresses alone.
proof fn lemma_balances_agree(
    x: Map<Seq<u8>, AccountView>,
    y: Map<Seq<u8>, AccountView>,
    at: Set<Seq<u8>>,
)
    requires
        at.finite(),
        forall|a: Seq<u8>| at.contains(a) ==> x[a].balance == y[a].balance,
    ensures
        balances(x, at) == balances(y, at),
    decreases at.len(),
{
    if at.len() > 0 {
        let c = at.choose();
        assert(at.contains(c));
        lemma_balances_agree(x, y, at.remove(c));
    }
}

/// Putting an account in place adds its balance and takes that of the one before it.
proof fn lemma_supply_with_account(world: WorldView, a: Seq<u8>, account: AccountView)
    requires
        world.accounts.dom().finite(),
    ensures
        supply(world.with_account(a, account)) + world.account_or_empty(a).balance == supply(world)
            + account.balance,
        world.with_account(a, account).accounts.dom().finite(),
{
    let after = world.with_account(a, account);
    let rest = world.accounts.dom().remove(a);
    assert(after.accounts.dom() =~= world.accounts.dom().insert(a));
    assert(after.accounts.dom().remove(a) =~= rest);
    lemma_balances_split(after.accounts, after.accounts.dom(), a);
    lemma_balances_agree(after.accounts, world.accounts, rest);
    if world.accounts.contains_key(a) {
        lemma_balances_split(world.accounts, world.accounts.dom(), a);
    } else {
        assert(rest =~= world.accounts.dom());
    }
}

/// A transfer that goes through keeps the sum of all balances.
pub proof fn law_transfer_keeps_supply(world: WorldView, from: Seq<u8>, to: Seq<u8>, value: nat)
    requires
        world.accounts.dom().finite(),
        world.transfer_error(from, to, value) is None,
    ensures
        supply(world.transferred(from, to, value)) == supply(world),
        world.transferred(from, to, value).accounts.dom().finite(),
{
    if from != to {
        let left = (world.account_or_empty(from).balance - value) as nat;
        let debited = world.with_balance(from, left);
        lemma_supply_with_account(
            world,
            from,
            AccountView { balance: left, ..world.account_or_empty(from) },
        );
        assert(debited.account_or_empty(to) == world.account_or_empty(to));
        lemma_supply_with_account(
            debited,
            to,
            AccountView {
                balance: world.account_or_empty(to).balance + value,
                ..debited.account_or_empty(to)
            },
        );
    }
}

/// A transaction, executed or not, keeps the sum of all balances.
pub proof fn law_transaction_keeps_supply(state: StateView, env: Env, tx: TxView)
    requires
        state.world.accounts.dom().finite(),
    ensures
        supply(tx_outcome(state, env, tx).state.world) == supply(state.world),
        tx_outcome(state, env, tx).state.world.accounts.dom().finite(),
{
    let sender = sender_of(tx);
    let present = with_sender(state.world, sender, tx);
    if !state.world.accounts.contains_key(sender) {
        lemma_supply_with_account(state.world, sender, present.accounts[sender]);
    }
    let after_payment = paid(present, sender, tx);
    if payment_error(present, sender, tx) is None {
        if let Some(to) = tx.to {
            law_transfer_keeps_supply(present, sender, to, tx.value);
        }
        let raised = after_payment.nonce_incremented(sender);
        if after_payment.accounts.contains_key(sender) {
            lemma_supply_with_account(after_payment, sender, raised.accounts[sender]);
        }
    }
}

/// Executing a block keeps the sum of all balances.
pub proof fn law_block_keeps_supply(state: StateView, env: Env, txs: Seq<TxView>, n: nat)
    requires
        state.world.accounts.dom().finite(),
        n <= txs.len(),
    ensures
        block_progress(state, env, txs, n) matches BlockProgress::Running { state: reached, .. }
            ==> supply(reached.world) == supply(state.world)
            && reached.world.accounts.dom().finite(),
    decreases n,
{
    if n > 0 {
        law_block_keeps_supply(state, env, txs, (n - 1) as nat);
        if let BlockProgress::Running { state: reached, .. } = block_progress(
            state,
            env,
            txs,
            (n - 1) as nat,
        ) {
            law_transaction_keeps_supply(reached, env, txs[n - 1]);
        }
    }
}

/// What an executed transaction does to the world: the sender has used up exactly the
/// nonce of the transaction, no account but the sender's and the recipient's is
/// touched, storage is as it was, and the receipt names the sender and lists its
/// account as changed.
pub proof fn law_executed_effects(state: StateView, env: Env, tx: TxView)
    requires
        tx_outcome(state, env, tx).result is Ok,
    ensures
        ({
            let sender = sender_of(tx);
            let after = tx_outcome(state, env, tx).state.world;
            let receipt = tx_outcome(state, env, tx).result->Ok_0;
            &&& admission_error(env, tx) is None
            &&& tx.nonce < u64::MAX
            &&& with_sender(state.world, sender, tx).accounts[sender].nonce == tx.nonce
            &&& after.accounts.contains_key(sender)
            &&& after.accounts[sender].nonce == tx.nonce + 1
            &&& forall|a: Seq<u8>|
                a != sender && Some(a) != tx.to ==> #[trigger] after.account(a)
                    == state.world.account(a)
            &&& after.storage == state.world.storage
            &&& receipt.sender == sender
            &&& receipt.state_diff == state.world.diff_to(after)
            &&& receipt.state_diff.accounts.contains_key(sender)
        }),
{
    let sender = sender_of(tx);
    let after = tx_outcome(state, env, tx).state.world;
    assert(state.world.account(sender) != after.account(sender));
}

/// What an executed call pays: the value leaves the balance of the sender and arrives
/// at the recipient; one that goes to its own sender, and a creation, move nothing.
pub proof fn law_executed_payment(state: StateView, env: Env, tx: TxView)
    requires
        tx_outcome(state, env, tx).result is Ok,
    ensures
        ({
            let sender = sender_of(tx);
            let before = state.world;
            let after = tx_outcome(state, env, tx).state.world;
            &&& before.account_or_empty(sender).balance >= tx.value
            &&& match tx.to {
                Some(to) => if to == sender {
                    after.account_or_empty(sender).balance == before.account_or_empty(sender).balance
                } else {
                    &&& after.account_or_empty(sender).balance == before.account_or_empty(
                        sender,
                    ).balance - tx.value
                    &&& after.account_or_empty(to).balance == before.account_or_empty(to).balance
                        + tx.value
                },
                None => after.account_or_empty(sender).balance == before.account_or_empty(
                    sender,
                ).balance,
            }
        }),
{
}

/// A transaction is admitted on one chain only.
pub proof fn law_one_chain(a: Env, b: Env, tx: TxView)
    requires
        admission_error(a, tx) is None,
        admission_error(b, tx) is None,
    ensures
        a.chain_id == b.chain_id,
{
}

/// An executed transaction cannot be executed again: in the state that it leaves, it
/// is refused for its nonce.
pub proof fn law_no_replay(state: StateView, env: Env, again: Env, tx: TxView)
    requires
        tx_outcome(state, env, tx).result is Ok,
        admission_error(again, tx) is None,
    ensures
        tx_outcome(tx_outcome(state, env, tx).state, again, tx).result == Err::<
            ReceiptView,
            TxErrorView,
        >(TxErrorView::NonceMismatch { expected: (tx.nonce + 1) as u64, got: tx.nonce }),
{
    law_executed_effects(state, env, tx);
}

/// No nonce goes down in an executed transaction.
pub proof fn law_nonces_never_fall(state: StateView, env: Env, tx: TxView, a: Seq<u8>)
    requires
        tx_outcome(state, env, tx).result is Ok,
    ensures
        state.world.account_or_empty(a).nonce <= tx_outcome(
            state,
            env,
            tx,
        ).state.world.account_or_empty(a).nonce,
{
}

/// In a block that goes through, every transaction is admitted, and the transactions
/// of one sender have rising nonces, so that none occurs twice.
pub proof fn law_block_transactions(state: StateView, env: Env, txs: Seq<TxView>, n: nat)
    requires
        n <= txs.len(),
        block_progress(state, env, txs, n) is Running,
    ensures
        forall|i: int| 0 <= i < n ==> admission_error(env, #[trigger] txs[i]) is None,
        forall|i: int, j: int|
            0 <= i < j < n && sender_of(#[trigger] txs[i]) == sender_of(#[trigger] txs[j])
                ==> txs[i].nonce < txs[j].nonce,
        forall|i: int|
            0 <= i < n ==> (#[trigger] txs[i]).nonce < block_progress(
                state,
                env,
                txs,
                n,
            )->state.world.account_or_empty(sender_of(txs[i])).nonce,
    decreases n,
{
    if n > 0 {
        let reached = block_progress(state, env, txs, (n - 1) as nat)->state;
        let tx = txs[n - 1];
        law_block_transactions(state, env, txs, (n - 1) as nat);
        law_executed_effects(reached, env, tx);
        assert forall|i: int| 0 <= i < n implies (#[trigger] txs[i]).nonce < block_progress(
            state,
            env,
            txs,
            n,
        )->state.world.account_or_empty(sender_of(txs[i])).nonce by {
            law_nonces_never_fall(reached, env, tx, sender_of(txs[i]));
        }
    }
}

/// In a block that goes through, the receipt at each place is what the transaction at
/// that place answers in the state that those before it left.
pub proof fn law_block_receipts(state: StateView, env: Env, txs: Seq<TxView>, n: nat, i: nat)
    requires
        i < n <= txs.len(),
        block_progress(state, env, txs, n) is Running,
    ensures
        block_progress(state, env, txs, i) is Running,
        tx_outcome(block_progress(state, env, txs, i)->state, env, txs[i as int]).result == Ok::<
            ReceiptView,
            TxErrorView,
        >(block_progress(state, env, txs, n)->receipts[i as int]),
    decreases n,
{
    law_block_gas(state, env, txs, (n - 1) as nat);
    if i < n - 1 {
        law_block_receipts(state, env, txs, (n - 1) as nat, i);
    }
}

/// A block is given up at the first transaction that is not executed or whose gas goes
/// over the limit: all those before it went through.
pub proof fn law_block_first_failure(state: StateView, env: Env, txs: Seq<TxView>, n: nat)
    requires
        n <= txs.len(),
    ensures
        match block_progress(state, env, txs, n) {
            BlockProgress::Running { .. } => true,
            BlockProgress::Refused { index, error } => {
                let reached = block_progress(state, env, txs, index);
                &&& index < n
                &&& reached is Running
                &&& tx_outcome(reached->state, env, txs[index as int]).result == Err::<
                    ReceiptView,
                    TxErrorView,
                >(error)
            },
            BlockProgress::OutOfGas { used, next } => exists|index: nat| #[trigger]
                runs_out_at(state, env, txs, index, used, next) && index < n,
        },
    decreases n,
{
    if n > 0 {
        let m = (n - 1) as nat;
        law_block_first_failure(state, env, txs, m);
        if block_progress(state, env, txs, m) is Running {
            if let BlockProgress::OutOfGas { used, next } = block_progress(state, env, txs, n) {
                assert(runs_out_at(state, env, txs, m, used, next));
            }
        } else if let BlockProgress::OutOfGas { used, next } = block_progress(state, env, txs, m) {
            let index = choose|index: nat| #[trigger]
                runs_out_at(state, env, txs, index, used, next) && index < m;
            assert(runs_out_at(state, env, txs, index, used, next) && index < n);
        }
    }
}

/// Whether the transactions before `index` went through with `used` gas, and the one
/// there is executed with `next` gas, too much for the limit.
pub open spec fn runs_out_at(
    state: StateView,
    env: Env,
    txs: Seq<TxView>,
    index: nat,
    used: nat,
    next: u64,
) -> bool {
    let reached = block_progress(state, env, txs, index);
    &&& reached is Running
    &&& reached->gas_used == used
    &&& tx_outcome(reached->state, env, txs[index as int]).result matches Ok(receipt)
    &&& receipt.gas_used == next
    &&& used + next > env.gas_limit
}

/// Transactions that go through, followed by others that go through from the state that
/// they reached, go through as one list, if the gas of all is within the limit.
pub proof fn law_blocks_join(
    state: StateView,
    env: Env,
    first: Seq<TxView>,
    second: Seq<TxView>,
    n: nat,
)
    requires
        n <= second.len(),
        block_progress(state, env, first, first.len()) is Running,
        ({
            let reached = block_progress(state, env, first, first.len());
            let then = block_progress(reached->state, env, second, n);
            then is Running && reached->gas_used + then->gas_used <= env.gas_limit
        }),
    ensures
        ({
            let reached = block_progress(state, env, first, first.len());
            let then = block_progress(reached->state, env, second, n);
            block_progress(state, env, first + second, first.len() + n) == (BlockProgress::Running {
                state: then->state,
                gas_used: reached->gas_used + then->gas_used,
                receipts: reached->receipts + then->receipts,
            })
        }),
    decreases n,
{
    let reached = block_progress(state, env, first, first.len());
    if n == 0 {
        lemma_same_prefix(state, env, first, first + second, first.len());
        assert(reached->receipts + Seq::<ReceiptView>::empty() =~= reached->receipts);
    } else {
        let m = (n - 1) as nat;
        law_blocks_join(state, env, first, second, m);
        assert((first + second)[(first.len() + m) as int] == second[m as int]);
        let before = block_progress(reached->state, env, second, m);
        let outcome = tx_outcome(before->state, env, second[m as int]);
        if let Ok(receipt) = outcome.result {
            assert(reached->receipts + before->receipts.push(receipt) =~= (reached->receipts
                + before->receipts).push(receipt));
        }
    }
}

/// A list of transactions that goes through can be cut anywhere: both parts go through,
/// the second from the state that the first reached, and their gas is within the limit.
/// `law_blocks_join` says how state, gas and receipts of the parts make up the whole.
pub proof fn law_blocks_split(
    state: StateView,
    env: Env,
    first: Seq<TxView>,
    second: Seq<TxView>,
    n: nat,
)
    requires
        n <= second.len(),
        block_progress(state, env, first + second, first.len() + n) is Running,
    ensures
        ({
            let reached = block_progress(state, env, first, first.len());
            let then = block_progress(reached->state, env, second, n);
            &&& reached is Running
            &&& then is Running
            &&& reached->gas_used + then->gas_used <= env.gas_limit
        }),
    decreases n,
{
    if n == 0 {
        lemma_same_prefix(state, env, first, first + second, first.len());
        law_block_gas(state, env, first, first.len());
    } else {
        let m = (n - 1) as nat;
        law_blocks_split(state, env, first, second, m);
        law_blocks_join(state, env, first, second, m);
        assert((first + second)[(first.len() + m) as int] == second[m as int]);
    }
}

/// What a transaction answers, and the world that it leaves, depend on the world that it
/// finds, not on the checkpoints that are open.
pub proof fn law_outcome_by_world(a: StateView, b: StateView, env: Env, tx: TxView)
    requires
        a.world == b.world,
    ensures
        tx_outcome(a, env, tx).result == tx_outcome(b, env, tx).result,
        tx_outcome(a, env, tx).state.world == tx_outcome(b, env, tx).state.world,
{
}

/// How far a block gets, its gas, its receipts and the world that it reaches depend on
/// the world that it finds, not on the checkpoints that are open.
pub proof fn law_block_by_world(
    a: StateView,
    b: StateView,
    env: Env,
    txs: Seq<TxView>,
    n: nat,
)
    requires
        a.world == b.world,
        n <= txs.len(),
    ensures
        match (block_progress(a, env, txs, n), block_progress(b, env, txs, n)) {
            (
                BlockProgress::Running { state: s, gas_used: g, receipts: r },
                BlockProgress::Running { state: t, gas_used: h, receipts: q },
            ) => s.world == t.world && g == h && r == q,
            (x, y) => x == y,
        },
    decreases n,
{
    if n > 0 {
        let m = (n - 1) as nat;
        law_block_by_world(a, b, env, txs, m);
        let x = block_progress(a, env, txs, m);
        let y = block_progress(b, env, txs, m);
        if x is Running && y is Running {
            law_outcome_by_world(x->state, y->state, env, txs[n - 1]);
        }
    }
}

/// The state that a block that goes through leaves: its own checkpoint is closed.
pub open spec fn block_left(state: StateView, env: Env, txs: Seq<TxView>) -> StateView {
    block_progress(state.checkpointed(), env, txs, txs.len())->state.discarded(
        state.checkpoints.len() as int,
    )
}

/// Executing two blocks one after the other, each under its own checkpoint, is executing
/// them as one: the joined block goes through exactly if both do and their gas is within
/// the limit together, and then it has the receipts of both, the gas of both, and leaves
/// the same state. (The cap on the number of transactions comes before all this.)
pub proof fn law_two_blocks(
    state: StateView,
    env: Env,
    first: Seq<TxView>,
    second: Seq<TxView>,
)
    ensures
        ({
            let between = block_left(state, env, first);
            let one = block_progress(state.checkpointed(), env, first, first.len());
            let two = block_progress(between.checkpointed(), env, second, second.len());
            let whole = block_progress(
                state.checkpointed(),
                env,
                first + second,
                (first + second).len(),
            );
            &&& whole is Running <==> one is Running && two is Running && one->gas_used
                + two->gas_used <= env.gas_limit
            &&& whole is Running ==> {
                &&& whole->gas_used == one->gas_used + two->gas_used
                &&& whole->receipts == one->receipts + two->receipts
                &&& block_left(state, env, first + second) == block_left(between, env, second)
            }
        }),
{
    let opened = state.checkpointed();
    let between = block_left(state, env, first);
    let one = block_progress(opened, env, first, first.len());
    let two = block_progress(between.checkpointed(), env, second, second.len());
    let then = block_progress(one->state, env, second, second.len());
    let whole = block_progress(opened, env, first + second, first.len() + second.len());
    law_block_by_world(one->state, between.checkpointed(), env, second, second.len());
    if whole is Running {
        law_blocks_split(opened, env, first, second, second.len());
    }
    if one is Running && then is Running && one->gas_used + then->gas_used <= env.gas_limit {
        law_blocks_join(opened, env, first, second, second.len());
        law_block_checkpoints(opened, env, first, first.len());
        law_block_checkpoints(one->state, env, second, second.len());
        law_block_checkpoints(between.checkpointed(), env, second, second.len());
        let depth = state.checkpoints.len() as int;
        assert(opened.checkpoints.take(depth) =~= state.checkpoints);
        assert(between.checkpointed().checkpoints.take(depth) =~= state.checkpoints);
    }
}

/// The progress after `n` transactions depends on those alone.
proof fn lemma_same_prefix(
    state: StateView,
    env: Env,
    a: Seq<TxView>,
    b: Seq<TxView>,
    n: nat,
)
    requires
        n <= a.len(),
        n <= b.len(),
        forall|i: int| 0 <= i < n ==> a[i] == b[i],
    ensures
        block_progress(state, env, a, n) == block_progress(state, env, b, n),
    decreases n,
{
    if n > 0 {
        lemma_same_prefix(state, env, a, b, (n - 1) as nat);
    }
}

/// The sum of the gas of some receipts.
pub open spec fn receipts_gas(receipts: Seq<ReceiptView>) -> nat
    decreases receipts.len(),
{
    if receipts.len() == 0 {
        0
    } else {
        receipts_gas(receipts.drop_last()) + receipts.last().gas_used as nat
    }
}

/// A block that goes through has one receipt for each transaction, and its gas is the
/// sum of theirs and within the limit.
pub proof fn law_block_gas(state: StateView, env: Env, txs: Seq<TxView>, n: nat)
    requires
        n <= txs.len(),
    ensures
        block_progress(state, env, txs, n) matches BlockProgress::Running {
            gas_used,
            receipts,
            ..
        } ==> receipts.len() == n && gas_used == receipts_gas(receipts) && gas_used
            <= env.gas_limit,
    decreases n,
{
    if n > 0 {
        law_block_gas(state, env, txs, (n - 1) as nat);
        if let BlockProgress::Running { state: reached, receipts, .. } = block_progress(
            state,
            env,
            txs,
            (n - 1) as nat,
        ) {
            if let Ok(receipt) = tx_outcome(reached, env, txs[n - 1]).result {
                assert(receipts.push(receipt).drop_last() =~= receipts);
            }
        }
    }
}

/// Closing a block's own checkpoint leaves exactly the checkpoints that were open
/// before the block.
pub proof fn law_block_checkpoints(state: StateView, env: Env, txs: Seq<TxView>, n: nat)
    requires
        n <= txs.len(),
    ensures
        block_progress(state, env, txs, n) matches BlockProgress::Running { state: reached, .. }
            ==> reached.checkpoints == state.checkpoints,
    decreases n,
{
    if n > 0 {
        law_block_checkpoints(state, env, txs, (n - 1) as nat);
        if let BlockProgress::Running { state: reached, .. } = block_progress(
            state,
            env,
            txs,
            (n - 1) as nat,
        ) {
            law_checkpoints_kept(reached, env, txs[n - 1]);
        }
    }
}

/// Whatever happened to the world since, going back to a checkpoint gives the state
/// in which it was opened, and closing it keeps the world; later checkpoints go with
/// it.
pub proof fn law_checkpoint_restores(
    state: StateView,
    world: WorldView,
    later: Seq<WorldView>,
)
    ensures
        ({
            let id = state.checkpoints.len() as int;
            let now = StateView { world, checkpoints: state.checkpointed().checkpoints + later };
            &&& now.reverted(id) == state
            &&& now.discarded(id) == state.with_world(world)
        }),
{
    let id = state.checkpoints.len() as int;
    let now = StateView { world, checkpoints: state.checkpointed().checkpoints + later };
    assert(now.checkpoints.take(id) =~= state.checkpoints);
}

/// A world with the changes of a diff made to it, read at an address.
pub open spec fn patched_account(before: WorldView, diff: DiffView, a: Seq<u8>) -> Option<
    AccountView,
> {
    if diff.accounts.contains_key(a) {
        diff.accounts[a]
    } else {
        before.account(a)
    }
}

/// A world with the changes of a diff made to it, read at a storage word.
pub open spec fn patched_word(before: WorldView, diff: DiffView, slot: (Seq<u8>, nat)) -> nat {
    if diff.storage.contains_key(slot) {
        diff.storage[slot]
    } else {
        before.word(slot)
    }
}

/// A diff holds all that is needed to get from the earlier world to the later one,
/// and nothing that did not change.
pub proof fn law_diff_leads_from_before_to_after(before: WorldView, after: WorldView)
    ensures
        forall|a: Seq<u8>|
            #[trigger] patched_account(before, before.diff_to(after), a) == after.account(a),
        forall|s: (Seq<u8>, nat)|
            #[trigger] patched_word(before, before.diff_to(after), s) == after.word(s),
        forall|a: Seq<u8>| #[trigger]
            before.diff_to(after).accounts.contains_key(a) ==> before.account(a) != after.account(
                a,
            ),
        forall|s: (Seq<u8>, nat)| #[trigger]
            before.diff_to(after).storage.contains_key(s) ==> before.word(s) != after.word(s),
{
}

} // verus!
