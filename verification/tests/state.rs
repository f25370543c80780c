use pqvm::state::StorageSlot;
use pqvm::{AccountInfo, PQAddress, PqHash, PqU256, PqvmDatabase, PqvmState, StateError};

fn address(byte: u8) -> PQAddress {
    PQAddress([byte; 32])
}

fn funded(balance: u64) -> AccountInfo {
    AccountInfo {
        balance: PqU256::from_u64(balance),
        ..Default::default()
    }
}

fn balance(state: &PqvmState, byte: u8) -> PqU256 {
    state.account_ref(address(byte)).unwrap().balance
}

#[test]
fn inserting_replaces_and_leaves_others() {
    let mut state = PqvmState::default();
    assert!(state.account_ref(address(1)).is_none());
    state.insert_account(address(1), funded(5));
    state.insert_account(address(2), funded(6));
    state.insert_account(address(1), funded(7));
    assert_eq!(balance(&state, 1), PqU256::from_u64(7));
    assert_eq!(balance(&state, 2), PqU256::from_u64(6));
    assert!(state.account_ref(address(3)).is_none());
}

#[test]
fn transfers_move_value_and_keep_the_supply() {
    let mut state = PqvmState::default();
    state.insert_account(address(1), funded(100));
    state.transfer(address(1), address(2), PqU256::from_u64(30)).unwrap();
    assert_eq!(balance(&state, 1), PqU256::from_u64(70));
    assert_eq!(balance(&state, 2), PqU256::from_u64(30));
    state.transfer(address(1), address(1), PqU256::from_u64(70)).unwrap();
    assert_eq!(balance(&state, 1), PqU256::from_u64(70));
    state.transfer(address(2), address(3), PqU256::zero()).unwrap();
    assert_eq!(state.account_ref(address(3)), Some(&AccountInfo::default()));
}

#[test]
fn transfers_that_cannot_be_made_change_nothing() {
    let mut state = PqvmState::default();
    state.insert_account(address(1), funded(10));
    assert_eq!(
        state.transfer(address(9), address(1), PqU256::zero()),
        Err(StateError::MissingAccount(address(9)))
    );
    assert_eq!(
        state.transfer(address(1), address(2), PqU256::from_u64(11)),
        Err(StateError::InsufficientBalance(address(1)))
    );
    state.insert_account(
        address(2),
        AccountInfo { balance: PqU256 { limbs: [u64::MAX; 4] }, ..Default::default() },
    );
    assert_eq!(
        state.transfer(address(1), address(2), PqU256::from_u64(1)),
        Err(StateError::BalanceOverflow(address(2)))
    );
    assert_eq!(balance(&state, 1), PqU256::from_u64(10));
}

#[test]
fn nonces_go_up_by_one() {
    let mut state = PqvmState::default();
    assert_eq!(
        state.increment_nonce(address(1)),
        Err(StateError::MissingAccount(address(1)))
    );
    state.insert_account(address(1), AccountInfo { nonce: u64::MAX - 1, ..Default::default() });
    assert_eq!(state.increment_nonce(address(1)), Ok(()));
    assert_eq!(state.account_ref(address(1)).unwrap().nonce, u64::MAX);
    assert_eq!(
        state.increment_nonce(address(1)),
        Err(StateError::NonceOverflow(address(1)))
    );
}

#[test]
fn checkpoints_nest() {
    let mut state = PqvmState::default();
    state.insert_account(address(1), funded(1));
    let outer = state.checkpoint();
    state.insert_account(address(1), funded(2));
    let inner = state.checkpoint();
    state.insert_account(address(1), funded(3));
    assert_eq!((outer, inner), (0, 1));
    state.revert_to_checkpoint(inner).unwrap();
    assert_eq!(balance(&state, 1), PqU256::from_u64(2));
    assert_eq!(
        state.revert_to_checkpoint(inner),
        Err(StateError::UnknownCheckpoint(inner))
    );
    let inner = state.checkpoint();
    state.insert_account(address(1), funded(4));
    state.discard_checkpoint(inner).unwrap();
    assert_eq!(balance(&state, 1), PqU256::from_u64(4));
    assert_eq!(
        state.discard_checkpoint(inner),
        Err(StateError::UnknownCheckpoint(inner))
    );
    state.checkpoint();
    state.revert_to_checkpoint(outer).unwrap();
    assert_eq!(balance(&state, 1), PqU256::from_u64(1));
    assert!(matches!(
        state.diff_from_checkpoint(0),
        Err(StateError::UnknownCheckpoint(0))
    ));
}

#[test]
fn diffs_hold_what_changed() {
    let mut state = PqvmState::default();
    state.insert_account(address(1), funded(1));
    state.insert_account(address(2), funded(2));
    state.insert_account(address(3), funded(3));
    state.write_storage(address(1), PqU256::from_u64(0), PqU256::from_u64(5)).unwrap();
    let checkpoint = state.checkpoint();
    state.insert_account(address(1), funded(1));
    state.insert_account(address(2), funded(9));
    state.erase_account(address(3)).unwrap();
    state.insert_account(address(4), funded(4));
    state.write_storage(address(1), PqU256::from_u64(0), PqU256::from_u64(6)).unwrap();
    state.write_storage(address(1), PqU256::from_u64(1), PqU256::zero()).unwrap();
    let diff = state.diff_from_checkpoint(checkpoint).unwrap();
    assert_eq!(diff.accounts.len(), 3);
    assert!(!diff.accounts.contains_key(&address(1)));
    assert_eq!(diff.accounts.get(&address(2)).unwrap().after, Some(funded(9)));
    assert_eq!(diff.accounts.get(&address(3)).unwrap().after, None);
    assert_eq!(diff.accounts.get(&address(4)).unwrap().after, Some(funded(4)));
    assert_eq!(diff.storage.len(), 1);
    let slot = StorageSlot { address: address(1), index: PqU256::zero() };
    assert_eq!(diff.storage.get(&slot), Some(&PqU256::from_u64(6)));
}

#[test]
fn database_reads_give_back_what_was_written() {
    let mut state = PqvmState::default();
    assert_eq!(state.account(address(1)), Ok(None));
    state.write_account(address(1), funded(8)).unwrap();
    assert_eq!(state.account(address(1)), Ok(Some(funded(8))));
    assert_eq!(state.storage(address(1), PqU256::zero()), Ok(PqU256::zero()));
    state.write_storage(address(1), PqU256::zero(), PqU256::from_u64(3)).unwrap();
    assert_eq!(state.storage(address(1), PqU256::zero()), Ok(PqU256::from_u64(3)));
    assert_eq!(state.storage(address(2), PqU256::zero()), Ok(PqU256::zero()));
    assert_eq!(state.block_hash(3), Ok(PqHash::zero()));
    let checkpoint = state.state_checkpoint();
    state.move_value(address(1), address(2), PqU256::from_u64(8)).unwrap();
    assert_eq!(state.account(address(2)), Ok(Some(funded(8))));
    state.state_revert(checkpoint).unwrap();
    assert_eq!(state.account(address(2)), Ok(None));
    let checkpoint = state.state_checkpoint();
    state.erase_account(address(1)).unwrap();
    state.state_commit(checkpoint).unwrap();
    assert_eq!(state.account(address(1)), Ok(None));
    assert_eq!(state.state_commit(0), Err(StateError::UnknownCheckpoint(0)));
}

#[test]
fn diffs_are_equal_if_they_hold_the_same_changes() {
    let mut one = PqvmState::default();
    one.checkpoint();
    one.insert_account(address(1), funded(1));
    one.insert_account(address(2), funded(2));
    let mut other = PqvmState::default();
    other.checkpoint();
    other.insert_account(address(2), funded(2));
    other.insert_account(address(1), funded(1));
    let diff = one.diff_from_checkpoint(0).unwrap();
    assert_eq!(diff, other.diff_from_checkpoint(0).unwrap());
    assert_eq!((diff.accounts.len(), diff.storage.len()), (2, 0));
    assert_eq!(diff.clone(), diff);
    other.insert_account(address(1), funded(3));
    assert_ne!(diff, other.diff_from_checkpoint(0).unwrap());
    other.erase_account(address(1)).unwrap();
    assert_ne!(diff, other.diff_from_checkpoint(0).unwrap());
}
