//! Accounts, storage and checkpoints.
use crate::bytes::{copy_bytes, lemma_pow256_values, pow256, same_bytes};
use crate::keyed::{lemma_map_finite, lemma_mapped_key_is_listed, KeyedMap, MapKey, MapValue};
use crate::primitives::{zero_bytes_32, PQAddress, PqBytes, PqHash};
use crate::word::PqU256;
use vstd::prelude::*;

verus! {

impl MapKey for PQAddress {
    fn same_key(&self, other: &Self) -> (same: bool) {
        same_bytes(self.0.as_slice(), other.0.as_slice())
    }
}

/// An account.
#[derive(Clone, Debug, PartialEq, Eq)]
pub struct AccountInfo {
    pub nonce: u64,
    pub balance: PqU256,
    pub code_hash: PqHash,
    pub code: PqBytes,
}

/// An account, by its numbers and byte strings.
pub struct AccountView {
    pub nonce: u64,
    pub balance: nat,
    pub code_hash: Seq<u8>,
    pub code: Seq<u8>,
}

impl View for AccountInfo {
    type V = AccountView;

    open spec fn view(&self) -> AccountView {
        AccountView {
            nonce: self.nonce,
            balance: self.balance@,
            code_hash: self.code_hash@,
            code: self.code@,
        }
    }
}

impl AccountView {
    /// The account that holds nothing.
    pub open spec fn empty() -> AccountView {
        AccountView {
            nonce: 0,
            balance: 0,
            code_hash: zero_bytes_32(),
            code: Seq::empty(),
        }
    }
}

impl Default for AccountInfo {
    fn default() -> (account: Self)
        ensures
            account@ == AccountView::empty(),
    {
        let account = AccountInfo {
            nonce: 0,
            balance: PqU256::zero(),
            code_hash: PqHash::zero(),
            code: Vec::new(),
        };
        assert(account@.code =~= Seq::<u8>::empty());
        account
    }
}

impl MapValue for AccountInfo {
    fn duplicate(&self) -> (copy: Self) {
        AccountInfo {
            nonce: self.nonce,
            balance: self.balance,
            code_hash: self.code_hash,
            code: copy_bytes(self.code.as_slice()),
        }
    }

    fn same_value(&self, other: &Self) -> (same: bool) {
        self.nonce == other.nonce && self.balance.same(&other.balance) && same_bytes(
            self.code_hash.0.as_slice(),
            other.code_hash.0.as_slice(),
        ) && same_bytes(self.code.as_slice(), other.code.as_slice())
    }
}

/// State boundary of the virtual machine, for backends that keep accounts and storage
/// elsewhere.
pub trait PqvmDatabase {
    type Error;

    fn account(&mut self, address: PQAddress) -> Result<Option<AccountInfo>, Self::Error>;

    fn storage(&mut self, address: PQAddress, index: PqU256) -> Result<PqU256, Self::Error>;

    fn block_hash(&mut self, number: u64) -> Result<PqHash, Self::Error>;

    fn write_account(&mut self, address: PQAddress, account: AccountInfo) -> Result<
        (),
        Self::Error,
    >;

    fn write_storage(&mut self, address: PQAddress, index: PqU256, value: PqU256) -> Result<
        (),
        Self::Error,
    >;

    fn erase_account(&mut self, address: PQAddress) -> Result<(), Self::Error>;

    fn move_value(&mut self, from: PQAddress, to: PQAddress, value: PqU256) -> Result<
        (),
        Self::Error,
    >;

    fn state_checkpoint(&mut self) -> usize;

    fn state_revert(&mut self, checkpoint: usize) -> Result<(), Self::Error>;

    fn state_commit(&mut self, checkpoint: usize) -> Result<(), Self::Error>;
}

/// What can be wrong with a change of the state.
#[derive(Clone, Copy, Debug, PartialEq, Eq)]
pub enum StateError {
    MissingAccount(PQAddress),
    InsufficientBalance(PQAddress),
    BalanceOverflow(PQAddress),
    NonceOverflow(PQAddress),
    UnknownCheckpoint(usize),
}

/// What can be wrong with a change of the state, by the bytes of the address.
pub enum StateErrorView {
    MissingAccount(Seq<u8>),
    InsufficientBalance(Seq<u8>),
    BalanceOverflow(Seq<u8>),
    NonceOverflow(Seq<u8>),
    UnknownCheckpoint(nat),
}

impl View for StateError {
    type V = StateErrorView;

    open spec fn view(&self) -> StateErrorView {
        match *self {
            StateError::MissingAccount(a) => StateErrorView::MissingAccount(a@),
            StateError::InsufficientBalance(a) => StateErrorView::InsufficientBalance(a@),
            StateError::BalanceOverflow(a) => StateErrorView::BalanceOverflow(a@),
            StateError::NonceOverflow(a) => StateErrorView::NonceOverflow(a@),
            StateError::UnknownCheckpoint(id) => StateErrorView::UnknownCheckpoint(id as nat),
        }
    }
}

/// A storage word of an account.
#[derive(Clone, Copy, Debug, PartialEq, Eq)]
pub struct StorageSlot {
    pub address: PQAddress,
    pub index: PqU256,
}

impl View for StorageSlot {
    type V = (Seq<u8>, nat);

    open spec fn view(&self) -> (Seq<u8>, nat) {
        (self.address@, self.index@)
    }
}

impl MapKey for StorageSlot {
    fn same_key(&self, other: &Self) -> (same: bool) {
        self.address.same_key(&other.address) && self.index.same(&other.index)
    }
}

impl MapValue for PqU256 {
    fn duplicate(&self) -> (copy: Self) {
        *self
    }

    fn same_value(&self, other: &Self) -> (same: bool) {
        self.same(other)
    }
}

/// All accounts and storage words.
#[verifier::ext_equal]
pub struct WorldView {
    pub accounts: Map<Seq<u8>, AccountView>,
    pub storage: Map<(Seq<u8>, nat), nat>,
}

impl WorldView {
    pub open spec fn empty() -> WorldView {
        WorldView { accounts: Map::empty(), storage: Map::empty() }
    }

    pub open spec fn account(self, address: Seq<u8>) -> Option<AccountView> {
        if self.accounts.contains_key(address) {
            Some(self.accounts[address])
        } else {
            None
        }
    }

    /// The account at an address, or the empty one where there is none.
    pub open spec fn account_or_empty(self, address: Seq<u8>) -> AccountView {
        if self.accounts.contains_key(address) {
            self.accounts[address]
        } else {
            AccountView::empty()
        }
    }

    pub open spec fn with_account(self, address: Seq<u8>, account: AccountView) -> WorldView {
        WorldView { accounts: self.accounts.insert(address, account), ..self }
    }

    pub open spec fn without_account(self, address: Seq<u8>) -> WorldView {
        WorldView { accounts: self.accounts.remove(address), ..self }
    }

    /// A storage word; one that was never written is zero.
    pub open spec fn word(self, slot: (Seq<u8>, nat)) -> nat {
        if self.storage.contains_key(slot) {
            self.storage[slot]
        } else {
            0
        }
    }

    pub open spec fn with_word(self, slot: (Seq<u8>, nat), value: nat) -> WorldView {
        WorldView { storage: self.storage.insert(slot, value), ..self }
    }

    pub open spec fn with_balance(self, address: Seq<u8>, balance: nat) -> WorldView {
        self.with_account(
            address,
            AccountView { balance, ..self.account_or_empty(address) },
        )
    }

    /// Why `value` cannot go from one account to another, if it cannot.
    pub open spec fn transfer_error(self, from: Seq<u8>, to: Seq<u8>, value: nat) -> Option<
        StateErrorView,
    > {
        if !self.accounts.contains_key(from) {
            Some(StateErrorView::MissingAccount(from))
        } else if self.accounts[from].balance < value {
            Some(StateErrorView::InsufficientBalance(from))
        } else if from != to && self.account_or_empty(to).balance + value >= pow256(32) {
            Some(StateErrorView::BalanceOverflow(to))
        } else {
            None
        }
    }

    /// The world after `value` went from one account to another. The recipient comes
    /// into being where there was none.
    pub open spec fn transferred(self, from: Seq<u8>, to: Seq<u8>, value: nat) -> WorldView {
        if from == to {
            self
        } else {
            self.with_balance(from, (self.account_or_empty(from).balance - value) as nat).with_balance(
                to,
                self.account_or_empty(to).balance + value,
            )
        }
    }

    /// Why the nonce of an account cannot go up, if it cannot.
    pub open spec fn nonce_error(self, address: Seq<u8>) -> Option<StateErrorView> {
        if !self.accounts.contains_key(address) {
            Some(StateErrorView::MissingAccount(address))
        } else if self.accounts[address].nonce == u64::MAX {
            Some(StateErrorView::NonceOverflow(address))
        } else {
            None
        }
    }

    pub open spec fn nonce_incremented(self, address: Seq<u8>) -> WorldView {
        self.with_account(
            address,
            AccountView {
                nonce: (self.account_or_empty(address).nonce + 1) as u64,
                ..self.account_or_empty(address)
            },
        )
    }

    /// What changed from `self` to `after`: the new account at each address whose
    /// account differs, and the new value of each storage word that differs.
    pub open spec fn diff_to(self, after: WorldView) -> DiffView {
        DiffView {
            accounts: Map::new(
                |a: Seq<u8>| self.account(a) != after.account(a),
                |a: Seq<u8>| after.account(a),
            ),
            storage: Map::new(
                |s: (Seq<u8>, nat)| self.word(s) != after.word(s),
                |s: (Seq<u8>, nat)| after.word(s),
            ),
        }
    }
}

/// Changed accounts, `None` where the account is gone, and changed storage words.
#[verifier::ext_equal]
pub struct DiffView {
    pub accounts: Map<Seq<u8>, Option<AccountView>>,
    pub storage: Map<(Seq<u8>, nat), nat>,
}

/// An account that changed: what stands there now, if anything.
#[derive(Clone, Debug, PartialEq, Eq)]
pub struct AccountChange {
    pub after: Option<AccountInfo>,
}

impl View for AccountChange {
    type V = Option<AccountView>;

    open spec fn view(&self) -> Option<AccountView> {
        match self.after {
            Some(account) => Some(account@),
            None => None,
        }
    }
}

impl MapValue for AccountChange {
    fn duplicate(&self) -> (copy: Self) {
        match &self.after {
            Some(account) => AccountChange { after: Some(account.duplicate()) },
            None => AccountChange { after: None },
        }
    }

    fn same_value(&self, other: &Self) -> (same: bool) {
        match (&self.after, &other.after) {
            (Some(a), Some(b)) => a.same_value(b),
            (None, None) => true,
            _ => false,
        }
    }
}

/// What changed between two states.
#[derive(Clone, Debug, PartialEq, Eq)]
pub struct StateDiff {
    pub accounts: KeyedMap<PQAddress, AccountChange>,
    pub storage: KeyedMap<StorageSlot, PqU256>,
}

impl View for StateDiff {
    type V = DiffView;

    open spec fn view(&self) -> DiffView {
        DiffView { accounts: self.accounts@, storage: self.storage@ }
    }
}

/// All accounts and storage words.
#[derive(Debug)]
struct World {
    accounts: KeyedMap<PQAddress, AccountInfo>,
    storage: KeyedMap<StorageSlot, PqU256>,
}

impl View for World {
    type V = WorldView;

    closed spec fn view(&self) -> WorldView {
        WorldView { accounts: self.accounts@, storage: self.storage@ }
    }
}

impl World {
    fn duplicate(&self) -> (copy: World)
        ensures
            copy@ == self@,
    {
        World { accounts: self.accounts.clone(), storage: self.storage.clone() }
    }

    fn word(&self, slot: &StorageSlot) -> (value: PqU256)
        ensures
            value@ == self@.word(slot@),
    {
        match self.storage.get(slot) {
            Some(value) => *value,
            None => PqU256::zero(),
        }
    }

    /// Whether the accounts at one address are the same, or missing, in both worlds.
    fn same_account(&self, other: &World, address: &PQAddress) -> (same: bool)
        ensures
            same == (self@.account(address@) == other@.account(address@)),
    {
        match (self.accounts.get(address), other.accounts.get(address)) {
            (Some(a), Some(b)) => a.same_value(b),
            (None, None) => true,
            _ => false,
        }
    }

    fn account_change(&self, address: &PQAddress) -> (change: AccountChange)
        ensures
            change@ == self@.account(address@),
    {
        match self.accounts.get(address) {
            Some(account) => AccountChange { after: Some(account.duplicate()) },
            None => AccountChange { after: None },
        }
    }
}

/// Whether `changes` holds the change of each of the first `n` listed accounts that
/// changed.
spec fn covers_accounts(
    changes: Map<Seq<u8>, Option<AccountView>>,
    listed: Seq<(PQAddress, AccountInfo)>,
    n: int,
    before: WorldView,
    after: WorldView,
) -> bool {
    &&& forall|a: Seq<u8>| #[trigger]
        changes.contains_key(a) ==> before.account(a) != after.account(a) && changes[a]
            == after.account(a)
    &&& forall|i: int|
        #![trigger listed[i]]
        0 <= i < n && before.account(listed[i].0@) != after.account(listed[i].0@)
            ==> changes.contains_key(listed[i].0@)
}

/// The same for storage words.
spec fn covers_storage(
    changes: Map<(Seq<u8>, nat), nat>,
    listed: Seq<(StorageSlot, PqU256)>,
    n: int,
    before: WorldView,
    after: WorldView,
) -> bool {
    &&& forall|k: (Seq<u8>, nat)| #[trigger]
        changes.contains_key(k) ==> before.word(k) != after.word(k) && changes[k] == after.word(k)
    &&& forall|i: int|
        #![trigger listed[i]]
        0 <= i < n && before.word(listed[i].0@) != after.word(listed[i].0@)
            ==> changes.contains_key(listed[i].0@)
}

impl World {
    /// Adds the change of every account that `list` has and whose account differs.
    fn collect_accounts(
        list: &KeyedMap<PQAddress, AccountInfo>,
        before: &World,
        after: &World,
        changes: &mut KeyedMap<PQAddress, AccountChange>,
    )
        requires
            covers_accounts(old(changes)@, list.listed(), 0, before@, after@),
        ensures
            covers_accounts(
                final(changes)@,
                list.listed(),
                list.listed().len() as int,
                before@,
                after@,
            ),
            forall|a: Seq<u8>|
                old(changes)@.contains_key(a) ==> #[trigger] final(changes)@.contains_key(a),
    {
        let mut i: usize = 0;
        while i < list.len()
            invariant
                i <= list.listed().len(),
                covers_accounts(changes@, list.listed(), i as int, before@, after@),
                forall|a: Seq<u8>|
                    old(changes)@.contains_key(a) ==> #[trigger] changes@.contains_key(a),
            decreases list.listed().len() - i,
        {
            let address: PQAddress = *list.entry(i).0;
            if !before.same_account(after, &address) {
                changes.insert(address, after.account_change(&address));
            }
            i = i + 1;
        }
    }

    fn collect_storage(
        list: &KeyedMap<StorageSlot, PqU256>,
        before: &World,
        after: &World,
        changes: &mut KeyedMap<StorageSlot, PqU256>,
    )
        requires
            covers_storage(old(changes)@, list.listed(), 0, before@, after@),
        ensures
            covers_storage(
                final(changes)@,
                list.listed(),
                list.listed().len() as int,
                before@,
                after@,
            ),
            forall|k: (Seq<u8>, nat)|
                old(changes)@.contains_key(k) ==> #[trigger] final(changes)@.contains_key(k),
    {
        let mut i: usize = 0;
        while i < list.len()
            invariant
                i <= list.listed().len(),
                covers_storage(changes@, list.listed(), i as int, before@, after@),
                forall|k: (Seq<u8>, nat)|
                    old(changes)@.contains_key(k) ==> #[trigger] changes@.contains_key(k),
            decreases list.listed().len() - i,
        {
            let slot: StorageSlot = *list.entry(i).0;
            let value = after.word(&slot);
            if !before.word(&slot).same(&value) {
                changes.insert(slot, value);
            }
            i = i + 1;
        }
    }

    /// What changed from `self` to `after`.
    fn diff_to(&self, after: &World) -> (diff: StateDiff)
        ensures
            diff@ == self@.diff_to(after@),
    {
        let mut accounts: KeyedMap<PQAddress, AccountChange> = KeyedMap::new();
        World::collect_accounts(&self.accounts, self, after, &mut accounts);
        World::collect_accounts(&after.accounts, self, after, &mut accounts);
        let mut storage: KeyedMap<StorageSlot, PqU256> = KeyedMap::new();
        World::collect_storage(&self.storage, self, after, &mut storage);
        World::collect_storage(&after.storage, self, after, &mut storage);
        proof {
            let want = self@.diff_to(after@);
            assert forall|a: Seq<u8>| #[trigger]
                want.accounts.contains_key(a) implies accounts@.contains_key(a) by {
                if self@.accounts.contains_key(a) {
                    let i = lemma_mapped_key_is_listed(self.accounts, a);
                    assert(self.accounts.listed()[i].0@ == a);
                } else {
                    let i = lemma_mapped_key_is_listed(after.accounts, a);
                    assert(after.accounts.listed()[i].0@ == a);
                }
            }
            assert forall|k: (Seq<u8>, nat)| #[trigger]
                want.storage.contains_key(k) implies storage@.contains_key(k) by {
                if self@.storage.contains_key(k) {
                    let i = lemma_mapped_key_is_listed(self.storage, k);
                    assert(self.storage.listed()[i].0@ == k);
                } else {
                    let i = lemma_mapped_key_is_listed(after.storage, k);
                    assert(after.storage.listed()[i].0@ == k);
                }
            }
            assert(accounts@ =~= want.accounts);
            assert(storage@ =~= want.storage);
        }
        StateDiff { accounts, storage }
    }
}

/// The world, and the worlds kept by the checkpoints that are open, oldest first.
#[verifier::ext_equal]
pub struct StateView {
    pub world: WorldView,
    pub checkpoints: Seq<WorldView>,
}

impl StateView {
    pub open spec fn empty() -> StateView {
        StateView { world: WorldView::empty(), checkpoints: Seq::empty() }
    }

    pub open spec fn with_world(self, world: WorldView) -> StateView {
        StateView { world, ..self }
    }

    /// With a checkpoint opened that keeps the present world.
    pub open spec fn checkpointed(self) -> StateView {
        StateView { checkpoints: self.checkpoints.push(self.world), ..self }
    }

    /// With the world that a checkpoint kept, and with that checkpoint and all later
    /// ones closed.
    pub open spec fn reverted(self, checkpoint: int) -> StateView {
        StateView {
            world: self.checkpoints[checkpoint],
            checkpoints: self.checkpoints.take(checkpoint),
        }
    }

    /// With a checkpoint and all later ones closed.
    pub open spec fn discarded(self, checkpoint: int) -> StateView {
        StateView { checkpoints: self.checkpoints.take(checkpoint), ..self }
    }
}

/// Accounts and storage in memory, with checkpoints.
#[derive(Debug)]
pub struct PqvmState {
    world: World,
    checkpoints: Vec<World>,
}

impl View for PqvmState {
    type V = StateView;

    closed spec fn view(&self) -> StateView {
        StateView {
            world: self.world@,
            checkpoints: self.checkpoints@.map_values(|w: World| w@),
        }
    }
}

impl Default for PqvmState {
    fn default() -> (state: Self)
        ensures
            state@ == StateView::empty(),
    {
        let state = PqvmState {
            world: World { accounts: KeyedMap::new(), storage: KeyedMap::new() },
            checkpoints: Vec::new(),
        };
        assert(state@ =~= StateView::empty());
        state
    }
}

impl PqvmState {
    /// The account at an address.
    pub fn account_ref(&self, address: PQAddress) -> (found: Option<&AccountInfo>)
        ensures
            found is Some <==> self@.world.accounts.contains_key(address@),
            found matches Some(account) ==> account@ == self@.world.accounts[address@],
    {
        self.world.accounts.get(&address)
    }

    /// Puts an account at an address.
    pub fn insert_account(&mut self, address: PQAddress, account: AccountInfo)
        ensures
            final(self)@ == old(self)@.with_world(
                old(self)@.world.with_account(address@, account@),
            ),
    {
        self.world.accounts.insert(address, account);
        assert(self@ =~= old(self)@.with_world(old(self)@.world.with_account(address@, account@)));
    }

    /// Opens a checkpoint.
    pub fn checkpoint(&mut self) -> (id: usize)
        ensures
            id == old(self)@.checkpoints.len(),
            final(self)@ == old(self)@.checkpointed(),
    {
        let id: usize = self.checkpoints.len();
        let kept = self.world.duplicate();
        self.checkpoints.push(kept);
        assert(self@ =~= old(self)@.checkpointed());
        id
    }

    /// Goes back to a checkpoint.
    pub fn revert_to_checkpoint(&mut self, id: usize) -> (done: Result<(), StateError>)
        ensures
            match done {
                Ok(_) => id < old(self)@.checkpoints.len() && final(self)@ == old(self)@.reverted(
                    id as int,
                ),
                Err(error) => id >= old(self)@.checkpoints.len() && error@
                    == StateErrorView::UnknownCheckpoint(id as nat) && final(self)@ == old(self)@,
            },
    {
        if id >= self.checkpoints.len() {
            return Err(StateError::UnknownCheckpoint(id));
        }
        let kept = self.checkpoints[id].duplicate();
        self.checkpoints.truncate(id);
        self.world = kept;
        assert(self@ =~= old(self)@.reverted(id as int));
        Ok(())
    }

    /// Closes a checkpoint and keeps the present world.
    pub fn discard_checkpoint(&mut self, id: usize) -> (done: Result<(), StateError>)
        ensures
            match done {
                Ok(_) => id < old(self)@.checkpoints.len() && final(self)@ == old(self)@.discarded(
                    id as int,
                ),
                Err(error) => id >= old(self)@.checkpoints.len() && error@
                    == StateErrorView::UnknownCheckpoint(id as nat) && final(self)@ == old(self)@,
            },
    {
        if id >= self.checkpoints.len() {
            return Err(StateError::UnknownCheckpoint(id));
        }
        self.checkpoints.truncate(id);
        assert(self@ =~= old(self)@.discarded(id as int));
        Ok(())
    }

    /// What changed since a checkpoint.
    pub fn diff_from_checkpoint(&self, id: usize) -> (diff: Result<StateDiff, StateError>)
        ensures
            match diff {
                Ok(changes) => id < self@.checkpoints.len() && changes@
                    == self@.checkpoints[id as int].diff_to(self@.world),
                Err(error) => id >= self@.checkpoints.len() && error@
                    == StateErrorView::UnknownCheckpoint(id as nat),
            },
    {
        if id >= self.checkpoints.len() {
            return Err(StateError::UnknownCheckpoint(id));
        }
        Ok(self.checkpoints[id].diff_to(&self.world))
    }

    /// A copy of the account at an address, or an empty one where there is none.
    fn account_or_empty(&self, address: PQAddress) -> (account: AccountInfo)
        ensures
            account@ == self@.world.account_or_empty(address@),
    {
        match self.world.accounts.get(&address) {
            Some(account) => account.duplicate(),
            None => AccountInfo::default(),
        }
    }

    /// Moves `value` from one account to another.
    pub fn transfer(&mut self, from: PQAddress, to: PQAddress, value: PqU256) -> (done: Result<
        (),
        StateError,
    >)
        ensures
            match done {
                Ok(_) => old(self)@.world.transfer_error(from@, to@, value@) is None
                    && final(self)@ == old(self)@.with_world(
                    old(self)@.world.transferred(from@, to@, value@),
                ),
                Err(error) => old(self)@.world.transfer_error(from@, to@, value@) == Some(error@)
                    && final(self)@ == old(self)@,
            },
    {
        if !self.world.accounts.contains_key(&from) {
            return Err(StateError::MissingAccount(from));
        }
        let mut payer = self.account_or_empty(from);
        let left = match payer.balance.checked_sub(&value) {
            Some(left) => left,
            None => {
                return Err(StateError::InsufficientBalance(from));
            },
        };
        if from.same_key(&to) {
            assert(self@ =~= old(self)@.with_world(old(self)@.world));
            return Ok(());
        }
        let mut payee = self.account_or_empty(to);
        let total = match payee.balance.checked_add(&value) {
            Some(total) => total,
            None => {
                return Err(StateError::BalanceOverflow(to));
            },
        };
        payer.balance = left;
        payee.balance = total;
        self.insert_account(from, payer);
        self.insert_account(to, payee);
        proof {
            assert(self@ =~= old(self)@.with_world(
                old(self)@.world.transferred(from@, to@, value@),
            ));
        }
        Ok(())
    }

    /// Adds one to the nonce of an account.
    pub fn increment_nonce(&mut self, address: PQAddress) -> (done: Result<(), StateError>)
        ensures
            match done {
                Ok(_) => old(self)@.world.nonce_error(address@) is None && final(self)@ == old(
                    self,
                )@.with_world(old(self)@.world.nonce_incremented(address@)),
                Err(error) => old(self)@.world.nonce_error(address@) == Some(error@)
                    && final(self)@ == old(self)@,
            },
    {
        if !self.world.accounts.contains_key(&address) {
            return Err(StateError::MissingAccount(address));
        }
        let mut account = self.account_or_empty(address);
        if account.nonce == u64::MAX {
            return Err(StateError::NonceOverflow(address));
        }
        account.nonce = account.nonce + 1;
        self.insert_account(address, account);
        Ok(())
    }
}

impl PqvmDatabase for PqvmState {
    type Error = StateError;

    fn account(&mut self, address: PQAddress) -> (found: Result<Option<AccountInfo>, StateError>)
        ensures
            final(self)@ == old(self)@,
            match found {
                Ok(Some(account)) => old(self)@.world.account(address@) == Some(account@),
                Ok(None) => old(self)@.world.account(address@) is None,
                Err(_) => false,
            },
    {
        match self.account_ref(address) {
            Some(account) => Ok(Some(account.duplicate())),
            None => Ok(None),
        }
    }

    fn storage(&mut self, address: PQAddress, index: PqU256) -> (word: Result<PqU256, StateError>)
        ensures
            final(self)@ == old(self)@,
            word matches Ok(value) && value@ == old(self)@.world.word((address@, index@)),
    {
        Ok(self.world.word(&StorageSlot { address, index }))
    }

    /// The state keeps no block history: the hash of every block is zero.
    fn block_hash(&mut self, number: u64) -> (hash: Result<PqHash, StateError>)
        ensures
            final(self)@ == old(self)@,
            hash matches Ok(value) && value@ == zero_bytes_32(),
    {
        Ok(PqHash::zero())
    }

    fn write_account(&mut self, address: PQAddress, account: AccountInfo) -> (done: Result<
        (),
        StateError,
    >)
        ensures
            done is Ok,
            final(self)@ == old(self)@.with_world(
                old(self)@.world.with_account(address@, account@),
            ),
    {
        self.insert_account(address, account);
        Ok(())
    }

    fn write_storage(&mut self, address: PQAddress, index: PqU256, value: PqU256) -> (done: Result<
        (),
        StateError,
    >)
        ensures
            done is Ok,
            final(self)@ == old(self)@.with_world(
                old(self)@.world.with_word((address@, index@), value@),
            ),
    {
        self.world.storage.insert(StorageSlot { address, index }, value);
        assert(self@ =~= old(self)@.with_world(
            old(self)@.world.with_word((address@, index@), value@),
        ));
        Ok(())
    }

    fn erase_account(&mut self, address: PQAddress) -> (done: Result<(), StateError>)
        ensures
            done is Ok,
            final(self)@ == old(self)@.with_world(old(self)@.world.without_account(address@)),
    {
        self.world.accounts.remove(&address);
        assert(self@ =~= old(self)@.with_world(old(self)@.world.without_account(address@)));
        Ok(())
    }

    fn move_value(&mut self, from: PQAddress, to: PQAddress, value: PqU256) -> (done: Result<
        (),
        StateError,
    >)
        ensures
            match done {
                Ok(_) => old(self)@.world.transfer_error(from@, to@, value@) is None
                    && final(self)@ == old(self)@.with_world(
                    old(self)@.world.transferred(from@, to@, value@),
                ),
                Err(error) => old(self)@.world.transfer_error(from@, to@, value@) == Some(error@)
                    && final(self)@ == old(self)@,
            },
    {
        self.transfer(from, to, value)
    }

    fn state_checkpoint(&mut self) -> (id: usize)
        ensures
            id == old(self)@.checkpoints.len(),
            final(self)@ == old(self)@.checkpointed(),
    {
        self.checkpoint()
    }

    fn state_revert(&mut self, checkpoint: usize) -> (done: Result<(), StateError>)
        ensures
            match done {
                Ok(_) => checkpoint < old(self)@.checkpoints.len() && final(self)@ == old(
                    self,
                )@.reverted(checkpoint as int),
                Err(error) => checkpoint >= old(self)@.checkpoints.len() && error@
                    == StateErrorView::UnknownCheckpoint(checkpoint as nat) && final(self)@ == old(self)@,
            },
    {
        self.revert_to_checkpoint(checkpoint)
    }

    fn state_commit(&mut self, checkpoint: usize) -> (done: Result<(), StateError>)
        ensures
            match done {
                Ok(_) => checkpoint < old(self)@.checkpoints.len() && final(self)@ == old(
                    self,
                )@.discarded(checkpoint as int),
                Err(error) => checkpoint >= old(self)@.checkpoints.len() && error@
                    == StateErrorView::UnknownCheckpoint(checkpoint as nat) && final(self)@ == old(self)@,
            },
    {
        self.discard_checkpoint(checkpoint)
    }
}

/// A state has finitely many accounts.
pub proof fn law_state_finite(state: PqvmState)
    ensures
        state@.world.accounts.dom().finite(),
{
    lemma_map_finite(state.world.accounts);
}

/// A transfer is answered by the first of these that holds: there is no paying account;
/// it has less than the value; the balance of another account that is to receive the
/// value would reach 2^256. Where none holds, it goes through.
pub proof fn law_transfer_answer(world: WorldView, from: Seq<u8>, to: Seq<u8>, value: nat)
    ensures
        ({
            let there = world.accounts.contains_key(from);
            let covered = there && world.accounts[from].balance >= value;
            let held: nat = if world.accounts.contains_key(to) {
                world.accounts[to].balance
            } else {
                0
            };
            let fits = covered && (from == to || held + value
                < 0x1_0000_0000_0000_0000_0000_0000_0000_0000_0000_0000_0000_0000_0000_0000_0000_0000nat);
            let answer = world.transfer_error(from, to, value);
            &&& answer == Some(StateErrorView::MissingAccount(from)) <==> !there
            &&& answer == Some(StateErrorView::InsufficientBalance(from)) <==> there && !covered
            &&& answer == Some(StateErrorView::BalanceOverflow(to)) <==> covered && !fits
            &&& answer is None <==> fits
        }),
{
    lemma_pow256_values();
}

/// A transfer that goes through takes the value from one balance and adds it to the
/// other, which may belong to a new account; one to the payer changes nothing. Nonces,
/// code, code hashes, all other accounts and storage stay.
pub proof fn law_transfer_effects(world: WorldView, from: Seq<u8>, to: Seq<u8>, value: nat)
    requires
        world.transfer_error(from, to, value) is None,
    ensures
        ({
            let after = world.transferred(from, to, value);
            &&& from == to ==> after == world
            &&& from != to ==> {
                let payer = world.accounts[from];
                &&& after.accounts.contains_key(from)
                &&& after.accounts[from].balance == payer.balance - value
                &&& after.accounts[from].nonce == payer.nonce
                &&& after.accounts[from].code_hash == payer.code_hash
                &&& after.accounts[from].code == payer.code
                &&& after.accounts.contains_key(to)
                &&& world.accounts.contains_key(to) ==> {
                    let payee = world.accounts[to];
                    &&& after.accounts[to].balance == payee.balance + value
                    &&& after.accounts[to].nonce == payee.nonce
                    &&& after.accounts[to].code_hash == payee.code_hash
                    &&& after.accounts[to].code == payee.code
                }
                &&& !world.accounts.contains_key(to) ==> {
                    &&& after.accounts[to].balance == value
                    &&& after.accounts[to].nonce == 0
                    &&& after.accounts[to].code_hash == Seq::new(32, |i: int| 0u8)
                    &&& after.accounts[to].code.len() == 0
                }
            }
            &&& forall|a: Seq<u8>|
                a != from && a != to ==> (#[trigger] after.accounts.contains_key(a)
                    == world.accounts.contains_key(a))
            &&& forall|a: Seq<u8>|
                a != from && a != to && world.accounts.contains_key(a)
                    ==> #[trigger] after.accounts[a] == world.accounts[a]
            &&& after.storage == world.storage
        }),
{
}

/// A nonce goes up by one where there is an account whose nonce is not the largest, and
/// nothing else about the world changes.
pub proof fn law_nonce_step(world: WorldView, at: Seq<u8>)
    ensures
        world.nonce_error(at) == Some(StateErrorView::MissingAccount(at))
            <==> !world.accounts.contains_key(at),
        world.nonce_error(at) == Some(StateErrorView::NonceOverflow(at))
            <==> world.accounts.contains_key(at) && world.accounts[at].nonce == u64::MAX,
        world.nonce_error(at) is None <==> world.accounts.contains_key(at)
            && world.accounts[at].nonce < u64::MAX,
        world.nonce_error(at) is None ==> {
            let after = world.nonce_incremented(at);
            &&& after.accounts.dom() == world.accounts.dom()
            &&& after.accounts[at].nonce == world.accounts[at].nonce + 1
            &&& after.accounts[at].balance == world.accounts[at].balance
            &&& after.accounts[at].code_hash == world.accounts[at].code_hash
            &&& after.accounts[at].code == world.accounts[at].code
            &&& forall|a: Seq<u8>|
                a != at && world.accounts.contains_key(a) ==> #[trigger] after.accounts[a]
                    == world.accounts[a]
            &&& after.storage == world.storage
        },
{
    if world.accounts.contains_key(at) {
        assert(world.nonce_incremented(at).accounts.dom() =~= world.accounts.dom());
    }
}

/// Reading gives back what was last written, and nothing that was not: an account put in
/// place, an account erased, a storage word written; every other account and word is as
/// before, and a word that was never written is zero.
pub proof fn law_reads_follow_writes(
    world: WorldView,
    at: Seq<u8>,
    account: AccountView,
    slot: (Seq<u8>, nat),
    value: nat,
)
    ensures
        world.with_account(at, account).account(at) == Some(account),
        world.without_account(at).account(at) is None,
        forall|a: Seq<u8>|
            a != at ==> #[trigger] world.with_account(at, account).account(a) == world.account(a),
        forall|a: Seq<u8>|
            a != at ==> #[trigger] world.without_account(at).account(a) == world.account(a),
        world.account(at) is Some <==> world.accounts.contains_key(at),
        world.accounts.contains_key(at) ==> world.account(at) == Some(world.accounts[at]),
        world.with_account(at, account).storage == world.storage,
        world.without_account(at).storage == world.storage,
        world.with_word(slot, value).word(slot) == value,
        forall|s: (Seq<u8>, nat)|
            s != slot ==> #[trigger] world.with_word(slot, value).word(s) == world.word(s),
        world.with_word(slot, value).accounts == world.accounts,
        world.storage.contains_key(slot) ==> world.word(slot) == world.storage[slot],
        !world.storage.contains_key(slot) ==> world.word(slot) == 0,
{
}

/// The account that holds nothing: no nonce, no balance, no code, and a hash of zeros.
pub proof fn law_empty_account()
    ensures
        AccountView::empty().nonce == 0,
        AccountView::empty().balance == 0,
        AccountView::empty().code_hash == Seq::new(32, |i: int| 0u8),
        AccountView::empty().code.len() == 0,
        StateView::empty().world.accounts.dom() == Set::<Seq<u8>>::empty(),
        StateView::empty().world.storage.dom() == Set::<(Seq<u8>, nat)>::empty(),
        StateView::empty().checkpoints.len() == 0,
{
    assert(StateView::empty().world.accounts.dom() =~= Set::<Seq<u8>>::empty());
    assert(StateView::empty().world.storage.dom() =~= Set::<(Seq<u8>, nat)>::empty());
}

/// Opening a checkpoint keeps the world, and adds it to those that are kept; going back
/// gives the world that the checkpoint kept; closing keeps the present world; both leave
/// exactly the older checkpoints, as they were.
pub proof fn law_checkpoint_steps(state: StateView, world: WorldView, id: int)
    requires
        0 <= id < state.checkpoints.len(),
    ensures
        state.checkpointed().world == state.world,
        state.checkpointed().checkpoints == state.checkpoints.push(state.world),
        state.reverted(id).world == state.checkpoints[id],
        state.reverted(id).checkpoints == state.checkpoints.subrange(0, id),
        state.discarded(id).world == state.world,
        state.discarded(id).checkpoints == state.checkpoints.subrange(0, id),
        state.with_world(world).world == world,
        state.with_world(world).checkpoints == state.checkpoints,
{
}

/// A diff lists an address exactly if one world has an account there and the other none,
/// or another; it says what stands there afterwards. It lists a storage word exactly if
/// its value changed, with the new value, a word that was never written counting as zero.
pub proof fn law_diff_exact(before: WorldView, after: WorldView, a: Seq<u8>, s: (Seq<u8>, nat))
    ensures
        ({
            let diff = before.diff_to(after);
            let was = before.accounts.contains_key(a);
            let is_now = after.accounts.contains_key(a);
            let old_word: nat = if before.storage.contains_key(s) {
                before.storage[s]
            } else {
                0
            };
            let new_word: nat = if after.storage.contains_key(s) {
                after.storage[s]
            } else {
                0
            };
            &&& diff.accounts.contains_key(a) <==> was != is_now || (was && before.accounts[a]
                != after.accounts[a])
            &&& diff.accounts.contains_key(a) && is_now ==> diff.accounts[a] == Some(
                after.accounts[a],
            )
            &&& diff.accounts.contains_key(a) && !is_now ==> diff.accounts[a] is None
            &&& diff.storage.contains_key(s) <==> old_word != new_word
            &&& diff.storage.contains_key(s) ==> diff.storage[s] == new_word
        }),
{
}

/// Accounts, diffs and errors are seen by their own fields.
pub proof fn law_state_fields(
    account: AccountInfo,
    change: AccountChange,
    diff: StateDiff,
    slot: StorageSlot,
    address: PQAddress,
    id: usize,
)
    ensures
        account@.nonce == account.nonce,
        account@.balance == account.balance@,
        account@.code_hash == account.code_hash.0@,
        account@.code == account.code@,
        change.after is Some <==> change@ is Some,
        change.after matches Some(after) ==> change@ == Some(after@),
        diff@.accounts == diff.accounts@,
        diff@.storage == diff.storage@,
        slot@ == (slot.address.0@, slot.index@),
        StateError::MissingAccount(address)@ == StateErrorView::MissingAccount(address.0@),
        StateError::InsufficientBalance(address)@ == StateErrorView::InsufficientBalance(
            address.0@,
        ),
        StateError::BalanceOverflow(address)@ == StateErrorView::BalanceOverflow(address.0@),
        StateError::NonceOverflow(address)@ == StateErrorView::NonceOverflow(address.0@),
        StateError::UnknownCheckpoint(id)@ == StateErrorView::UnknownCheckpoint(id as nat),
{
}

} // verus!
