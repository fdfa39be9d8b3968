//! Committing a finished transaction to durable state.

use crate::account::{ContractView, EvmAccount, EvmContract};
use crate::error::{lemma_ok_is_unit, ContractError, RecordKind, StdError, Violation};
use crate::executor_state::{
    applies_view, slots_of, without_slots_of, Apply, ApplyState, ApplyView, Transfer,
};
use crate::ordered_map::{
    entries_map, lemma_take_ends, lemma_take_step, OrderedMap, OrderedSet,
};
use crate::primitives::{pow2_256, u256_of, StorageKey, H160, U256};
use crate::storage::{CwStorageInterface, StorageInterface, StoredState};
use crate::valids::{compute, jump_destinations, packs};
use vstd::prelude::*;

verus! {

/// The error of a write that found no record of the kind it needs.
pub open spec fn not_found(kind: RecordKind) -> ContractError {
    ContractError::Std(StdError::NotFound { kind })
}

/// The writes `storage` as writes to the slots of `address`.
pub open spec fn slots_at(address: H160, storage: Map<U256, U256>) -> Map<StorageKey, U256> {
    Map::new(
        |k: StorageKey| k.address == address && storage.contains_key(k.slot),
        |k: StorageKey| storage[k.slot],
    )
}

impl StoredState {
    /// The store with an account record for `address`: a new one where
    /// it had none.
    pub open spec fn with_account(self, address: H160) -> StoredState {
        if self.accounts.contains_key(address) {
            self
        } else {
            StoredState { accounts: self.accounts.insert(address, EvmAccount::fresh(address)), ..self }
        }
    }

    /// The store with the balance of an account set.
    pub open spec fn with_balance(self, address: H160, balance: U256) -> StoredState {
        StoredState {
            accounts: self.accounts.insert(
                address,
                EvmAccount { balance, ..self.accounts[address] },
            ),
            ..self
        }
    }

    /// The store with the nonce of an account set.
    pub open spec fn with_nonce(self, address: H160, nonce: u64) -> StoredState {
        StoredState {
            accounts: self.accounts.insert(
                address,
                EvmAccount { trx_count: nonce, ..self.accounts[address] },
            ),
            ..self
        }
    }

    /// The store after one more transaction of `address` was counted,
    /// and whether that could be done.
    pub open spec fn nonce_incremented(self, address: H160) -> (StoredState, Result<
        (),
        ContractError,
    >) {
        let s = self.with_account(address);
        if s.nonce(address) == u64::MAX {
            (s, Err(ContractError::NonceOverflow))
        } else {
            (s.with_nonce(address, (s.nonce(address) + 1) as u64), Ok(()))
        }
    }

    /// The store after one transfer, and whether it went through. Source
    /// and target get an account record where they had none. Then both
    /// new balances are worked out, and only if both exist is either
    /// written: the source's first, the target's after it.
    pub open spec fn transferred(self, transfer: Transfer) -> (StoredState, Result<
        (),
        ContractError,
    >) {
        let s = self.with_account(transfer.source).with_account(transfer.target);
        let source = s.balance(transfer.source);
        let target = s.balance(transfer.target);
        if source@ < transfer.value@ {
            (s, Err(ContractError::InsufficientFunds))
        } else if target@ + transfer.value@ >= pow2_256() {
            (s, Err(ContractError::BalanceOverflow))
        } else {
            (
                s.with_balance(
                    transfer.source,
                    u256_of((source@ - transfer.value@) as nat),
                ).with_balance(transfer.target, u256_of(target@ + transfer.value@)),
                Ok(()),
            )
        }
    }

    /// The store after the transfers were applied in order, up to and
    /// with the first that failed.
    pub open spec fn all_transferred(self, transfers: Seq<Transfer>) -> (StoredState, Result<
        (),
        ContractError,
    >)
        decreases transfers.len(),
    {
        if transfers.len() == 0 {
            (self, Ok(()))
        } else {
            let (s, r) = self.transferred(transfers[0]);
            if r is Err {
                (s, r)
            } else {
                s.all_transferred(transfers.skip(1))
            }
        }
    }

    /// The store with a contract deployed at `address`: a contract
    /// record with the code, its length and its bitmap, and the account
    /// marked as that contract's.
    pub open spec fn deployed(self, address: H160, code: Seq<u8>, valids: Seq<u8>) -> StoredState {
        let s = self.with_account(address);
        StoredState {
            accounts: s.accounts.insert(
                address,
                EvmAccount { contract_storage_key: Some(address), ..s.accounts[address] },
            ),
            contracts: s.contracts.insert(
                address,
                ContractView { code_size: code.len() as u32, code, valids },
            ),
            ..s
        }
    }

    /// The store after the slots of a contract were written: nothing to
    /// do where no reset is asked for and no slot is given; an error
    /// where the address has no contract record; else the contract's
    /// stored slots are dropped if a reset is asked for, and the given
    /// slots written.
    pub open spec fn slots_written(self, address: H160, storage: Map<U256, U256>, reset: bool) -> (
        StoredState,
        Result<(), ContractError>,
    ) {
        if !reset && storage == Map::<U256, U256>::empty() {
            (self, Ok(()))
        } else if !self.contracts.contains_key(address) {
            (self, Err(not_found(RecordKind::EvmContract)))
        } else {
            let kept = if reset {
                self.contract_storage.remove_keys(slots_of(set![address]))
            } else {
                self.contract_storage
            };
            (
                StoredState {
                    contract_storage: kept.union_prefer_right(slots_at(address, storage)),
                    ..self
                },
                Ok(()),
            )
        }
    }

    /// The store after an account was modified as a diff says, and
    /// whether that could be done.
    ///
    /// The account gets a record where it had none. A nonce that differs
    /// from the stored one must be above it, else the caller's protocol
    /// is broken, and must fit 64 bits, else the nonce overflows; it is
    /// then stored. Code, where given, is deployed, unless it is too
    /// long for its length to be recorded. Last the slots are written.
    /// What was done before a failure stays done.
    pub open spec fn modified(
        self,
        address: H160,
        nonce: U256,
        code_and_valids: Option<(Seq<u8>, Seq<u8>)>,
        storage: Map<U256, U256>,
        reset_storage: bool,
    ) -> (StoredState, Result<(), ContractError>) {
        let s1 = self.with_account(address);
        if nonce@ < s1.nonce(address) {
            (s1, Err(ContractError::ProtocolViolation(Violation::NonceNotIncreasing)))
        } else if nonce@ > u64::MAX {
            (s1, Err(ContractError::NonceOverflow))
        } else {
            let s2 = if nonce@ != s1.nonce(address) {
                s1.with_nonce(address, nonce@ as u64)
            } else {
                s1
            };
            match code_and_valids {
                Some((code, valids)) => if code.len() > u32::MAX {
                    (s2, Err(ContractError::ContractCreationFailed))
                } else {
                    s2.deployed(address, code, valids).slots_written(
                        address,
                        storage,
                        reset_storage,
                    )
                },
                None => s2.slots_written(address, storage, reset_storage),
            }
        }
    }

    /// The store after an account was deleted. Only a contract's account
    /// can be deleted: its account record and its contract record go.
    /// To delete another is a broken protocol.
    pub open spec fn deleted(self, address: H160) -> (StoredState, Result<(), ContractError>) {
        if !self.contracts.contains_key(address) {
            (self, Err(ContractError::ProtocolViolation(Violation::DeleteOfNonContract)))
        } else {
            (
                StoredState {
                    accounts: self.accounts.remove(address),
                    contracts: self.contracts.remove(address),
                    ..self
                },
                Ok(()),
            )
        }
    }

    /// The store after one instruction of a diff.
    pub open spec fn applied(self, apply: ApplyView) -> (StoredState, Result<(), ContractError>) {
        match apply {
            ApplyView::Modify { address, nonce, code_and_valids, storage, reset_storage } => {
                self.modified(address, nonce, code_and_valids, storage, reset_storage)
            },
            ApplyView::Delete { address } => self.deleted(address),
        }
    }

    /// The store after the instructions were applied in order, up to and
    /// with the first that failed.
    pub open spec fn all_applied(self, applies: Seq<ApplyView>) -> (StoredState, Result<
        (),
        ContractError,
    >)
        decreases applies.len(),
    {
        if applies.len() == 0 {
            (self, Ok(()))
        } else {
            let (s, r) = self.applied(applies[0]);
            if r is Err {
                (s, r)
            } else {
                s.all_applied(applies.skip(1))
            }
        }
    }

    /// The store after a finished transaction was committed: first all
    /// transfers, then all instructions of the diff. The first failure
    /// ends it, and what was written before stays written.
    pub open spec fn state_changed(self, applies: Seq<ApplyView>, transfers: Seq<Transfer>) -> (
        StoredState,
        Result<(), ContractError>,
    ) {
        let (s, r) = self.all_transferred(transfers);
        if r is Err {
            (s, r)
        } else {
            s.all_applied(applies)
        }
    }
}

impl StoredState {
    /// Whether contract records and contract marks agree: an address
    /// has a contract record if and only if its account record is
    /// marked as a contract's, with its own address.
    pub open spec fn marks_contracts(self) -> bool {
        &&& forall|a: H160| #[trigger]
            self.contracts.contains_key(a) ==> self.accounts.contains_key(a)
                && self.accounts[a].contract_storage_key == Some(a)
        &&& forall|a: H160|
            (#[trigger] self.accounts.contains_key(a)) && self.accounts[a].contract_storage_key
                == Some(a) ==> self.contracts.contains_key(a)
    }
}

/// Transfers leave contract records and contract marks in agreement.
pub proof fn lemma_transfers_keep_contract_marks(store: StoredState, transfers: Seq<Transfer>)
    requires
        store.marks_contracts(),
    ensures
        store.all_transferred(transfers).0.marks_contracts(),
    decreases transfers.len(),
{
    if transfers.len() > 0 {
        let (next, r) = store.transferred(transfers[0]);
        assert(next.marks_contracts());
        if r is Ok {
            lemma_transfers_keep_contract_marks(next, transfers.skip(1));
        }
    }
}

/// The instructions of a diff leave contract records and contract
/// marks in agreement, whether they go through or fail.
pub proof fn lemma_applies_keep_contract_marks(store: StoredState, applies: Seq<ApplyView>)
    requires
        store.marks_contracts(),
    ensures
        store.all_applied(applies).0.marks_contracts(),
    decreases applies.len(),
{
    if applies.len() > 0 {
        let (next, r) = store.applied(applies[0]);
        assert(next.marks_contracts()) by {
            match applies[0] {
                ApplyView::Modify { address, nonce, code_and_valids, storage, reset_storage } => {
                    let s1 = store.with_account(address);
                    assert(s1.marks_contracts());
                    let s2 = if nonce@ != s1.nonce(address) {
                        s1.with_nonce(address, nonce@ as u64)
                    } else {
                        s1
                    };
                    assert(s2.marks_contracts());
                    match code_and_valids {
                        Some((code, valids)) => {
                            assert(s2.deployed(address, code, valids).marks_contracts());
                        },
                        None => {},
                    }
                },
                ApplyView::Delete { address } => {},
            }
        }
        if r is Ok {
            lemma_applies_keep_contract_marks(next, applies.skip(1));
        }
    }
}

/// Committing a transaction leaves contract records and contract marks
/// in agreement, whether it goes through or fails on the way: a
/// contract record exists if and only if the account is marked as a
/// contract's.
pub proof fn lemma_state_change_keeps_contract_marks(
    store: StoredState,
    applies: Seq<ApplyView>,
    transfers: Seq<Transfer>,
)
    requires
        store.marks_contracts(),
    ensures
        store.state_changed(applies, transfers).0.marks_contracts(),
{
    lemma_transfers_keep_contract_marks(store, transfers);
    lemma_applies_keep_contract_marks(store.all_transferred(transfers).0, applies);
}

/// Counting a transaction leaves contract records and contract marks
/// in agreement.
pub proof fn lemma_nonce_increment_keeps_contract_marks(store: StoredState, address: H160)
    requires
        store.marks_contracts(),
    ensures
        store.nonce_incremented(address).0.marks_contracts(),
{
}

/// A transfer that fails moves nothing: every balance reads as before.
/// All that may have changed is that source and target now have an
/// account record.
pub proof fn lemma_failed_transfer_changes_no_balance(
    store: StoredState,
    transfer: Transfer,
    address: H160,
)
    requires
        store.transferred(transfer).1 is Err,
    ensures
        store.transferred(transfer).0.balance(address) == store.balance(address),
        store.transferred(transfer).0.nonce(address) == store.nonce(address),
        store.transferred(transfer).0.contracts == store.contracts,
        store.transferred(transfer).0.contract_storage == store.contract_storage,
{
}

/// A transfer fails if and only if the source holds less than the value
/// or the target would leave the 256-bit range, and says which.
pub proof fn lemma_transfer_outcome(store: StoredState, transfer: Transfer)
    ensures
        ({
            let r = store.transferred(transfer).1;
            let source = store.balance(transfer.source);
            let target = store.balance(transfer.target);
            &&& r == Err::<(), ContractError>(ContractError::InsufficientFunds) <==> source@
                < transfer.value@
            &&& r == Err::<(), ContractError>(ContractError::BalanceOverflow) <==> (source@
                >= transfer.value@ && target@ + transfer.value@ >= pow2_256())
        }),
{
}

/// A diff whose nonce for an account is below the stored one is
/// rejected as a broken protocol, and the store stays as it was.
pub proof fn lemma_lower_nonce_is_rejected(
    store: StoredState,
    address: H160,
    nonce: U256,
    code_and_valids: Option<(Seq<u8>, Seq<u8>)>,
    storage: Map<U256, U256>,
    reset_storage: bool,
)
    requires
        nonce@ < store.nonce(address),
    ensures
        store.modified(address, nonce, code_and_valids, storage, reset_storage) == (
            store,
            Err::<(), ContractError>(
                ContractError::ProtocolViolation(Violation::NonceNotIncreasing),
            ),
        ),
{
}

/// A diff that carries the stored nonce of an account leaves the nonce
/// alone, and one that carries a higher nonce that fits 64 bits stores
/// it.
pub proof fn lemma_nonce_after_modify(store: StoredState, address: H160, nonce: U256)
    requires
        store.nonce(address) <= nonce@ <= u64::MAX,
    ensures
        ({
            let (after, r) = store.modified(address, nonce, None, Map::empty(), false);
            &&& r is Ok
            &&& after.nonce(address) == nonce@
        }),
{
}

impl CwStorageInterface {
    /// Commits a finished transaction: first its transfers, then the
    /// instructions of its diff, each in order. The first failure ends
    /// it; what was written before stays written. The events are taken
    /// and not kept.
    pub fn apply_state_change(&mut self, state: ApplyState) -> (r: Result<(), ContractError>)
        requires
            old(self).wf(),
            forall|i: int| 0 <= i < state.0@.len() ==> (#[trigger] state.0@[i]).wf(),
        ensures
            final(self).wf(),
            (final(self)@, r) == old(self)@.state_changed(applies_view(state.0@), state.2@),
            old(self)@.marks_contracts() ==> final(self)@.marks_contracts(),
    {
        proof {
            if self@.marks_contracts() {
                lemma_state_change_keeps_contract_marks(self@, applies_view(state.0@), state.2@);
            }
        }
        let (applies, _logs, transfers) = state;
        assert(applies_view(applies@).len() == applies@.len());
        assert(applies@ == state.0@);
        assert(transfers@ == state.2@);
        let ghost start = self@;
        if transfers.len() > 0 {
            match self.apply_transfers(&transfers) {
                Ok(()) => {},
                Err(e) => {
                    return Err(e);
                },
            }
        }
        proof {
            lemma_ok_is_unit(start.all_transferred(transfers@).1);
        }
        let ghost moved = self@;
        if applies.len() > 0 {
            match self.apply_contract_results(&applies) {
                Ok(()) => {},
                Err(e) => {
                    return Err(e);
                },
            }
        }
        proof {
            lemma_ok_is_unit(moved.all_applied(applies_view(applies@)).1);
        }
        Ok(())
    }

    /// Counts one more transaction of an account, which gets a record
    /// where it had none. Fails with `NonceOverflow` where the count is
    /// at the top of its 64 bits.
    pub fn increment_nonce(&mut self, address: &H160) -> (r: Result<(), ContractError>)
        requires
            old(self).wf(),
        ensures
            final(self).wf(),
            (final(self)@, r) == old(self)@.nonce_incremented(*address),
            old(self)@.marks_contracts() ==> final(self)@.marks_contracts(),
    {
        self.init_new_account(address);
        let mut account = match self.state.accounts.get(address) {
            Some(a) => *a,
            None => {
                return Err(ContractError::Std(StdError::NotFound { kind: RecordKind::EvmAccount }));
            },
        };
        account.trx_count = match account.trx_count.checked_add(1) {
            Some(n) => n,
            None => {
                return Err(ContractError::NonceOverflow);
            },
        };
        self.state.accounts.insert(*address, account);
        Ok(())
    }

    /// Gives an account the balance 100,000,000, with a record where it
    /// had none.
    pub fn airdrop_write_balance(&mut self, address: &H160)
        requires
            old(self).wf(),
        ensures
            final(self).wf(),
            final(self)@ == old(self)@.with_account(*address).with_balance(
                *address,
                U256 { hi: 0, lo: 100_000_000 },
            ),
    {
        self.init_new_account(address);
        let written = self.write_balance(address, U256::from_u64(100_000_000));
    }

    /// Deploys `code` at an address, as a diff with the nonce 1 would:
    /// the account gets a record where it had none, its nonce becomes 1,
    /// and a contract record with the code and the bitmap of its jump
    /// destinations is stored.
    pub fn airdrop_deploy_contract(&mut self, address: &H160, code: Vec<u8>)
        requires
            old(self).wf(),
            old(self)@.nonce(*address) <= 1,
            code@.len() <= u32::MAX,
        ensures
            final(self).wf(),
            exists|valids: Seq<u8>| #[trigger]
                packs(valids, jump_destinations(code@)) && (final(self)@, Ok::<(), ContractError>(()))
                    == old(self)@.modified(
                    *address,
                    U256 { hi: 0, lo: 1 },
                    Some((code@, valids)),
                    Map::empty(),
                    false,
                ),
    {
        let valids = compute(&code);
        let ghost bitmap = valids@;
        let storage: OrderedMap<U256, U256> = OrderedMap::new();
        let deployed = self.update_contract_account(
            *address,
            U256::one(),
            &Some((code, valids)),
            &storage,
            false,
        );
        assert(packs(bitmap, jump_destinations(code@)));
    }

    /// Stores a new account record under the address, unless it has one.
    fn init_new_account(&mut self, address: &H160)
        requires
            old(self).wf(),
        ensures
            final(self).wf(),
            final(self)@ == old(self)@.with_account(*address),
            final(self)@.accounts.contains_key(*address),
    {
        if !self.state.accounts.contains_key(address) {
            self.state.accounts.insert(*address, EvmAccount::new_user_account(address));
        }
    }

    /// Removes the account record and the contract record of a
    /// contract's account.
    fn delete_account(&mut self, address: &H160) -> (r: Result<(), ContractError>)
        requires
            old(self).wf(),
        ensures
            final(self).wf(),
            (final(self)@, r) == old(self)@.deleted(*address),
    {
        if !self.state.contracts.contains_key(address) {
            return Err(ContractError::ProtocolViolation(Violation::DeleteOfNonContract));
        }
        let account = self.state.accounts.remove(address);
        let contract = self.state.contracts.remove(address);
        assert(self@.contracts =~= old(self)@.contracts.remove(*address));
        Ok(())
    }

    /// Sets the balance of an account that has a record.
    fn write_balance(&mut self, addr: &H160, new_balance: U256) -> (r: Result<(), ContractError>)
        requires
            old(self).wf(),
        ensures
            final(self).wf(),
            old(self)@.accounts.contains_key(*addr) ==> r == Ok::<(), ContractError>(()) && final(self)@ == old(
                self,
            )@.with_balance(*addr, new_balance),
            !old(self)@.accounts.contains_key(*addr) ==> r == Err::<(), ContractError>(
                not_found(RecordKind::EvmAccount),
            ) && final(self)@ == old(self)@,
    {
        let mut account = match self.state.accounts.get(addr) {
            Some(a) => *a,
            None => {
                return Err(ContractError::Std(StdError::NotFound { kind: RecordKind::EvmAccount }));
            },
        };
        account.balance = new_balance;
        self.state.accounts.insert(*addr, account);
        Ok(())
    }

    /// Sets the nonce of an account that has a record.
    fn write_nonce(&mut self, address: &H160, new_nonce: u64) -> (r: Result<(), ContractError>)
        requires
            old(self).wf(),
        ensures
            final(self).wf(),
            old(self)@.accounts.contains_key(*address) ==> r == Ok::<(), ContractError>(()) && final(self)@ == old(
                self,
            )@.with_nonce(*address, new_nonce),
            !old(self)@.accounts.contains_key(*address) ==> r == Err::<(), ContractError>(
                not_found(RecordKind::EvmAccount),
            ) && final(self)@ == old(self)@,
    {
        let mut account = match self.state.accounts.get(address) {
            Some(a) => *a,
            None => {
                return Err(ContractError::Std(StdError::NotFound { kind: RecordKind::EvmAccount }));
            },
        };
        account.trx_count = new_nonce;
        self.state.accounts.insert(*address, account);
        Ok(())
    }

    /// Stores a contract record with the code and its bitmap, and marks
    /// the account, which gets a record where it had none, as the
    /// contract's.
    fn write_deploy_contract(&mut self, address: &H160, code: Vec<u8>, valids: Vec<u8>) -> (r:
        Result<(), ContractError>)
        requires
            old(self).wf(),
        ensures
            final(self).wf(),
            code@.len() <= u32::MAX ==> r == Ok::<(), ContractError>(()) && final(self)@ == old(self)@.deployed(
                *address,
                code@,
                valids@,
            ),
            code@.len() > u32::MAX ==> r == Err::<(), ContractError>(
                ContractError::ContractCreationFailed,
            ) && final(self)@ == old(self)@,
    {
        if code.len() > u32::MAX as usize {
            return Err(ContractError::ContractCreationFailed);
        }
        self.init_new_account(address);
        let mut account = match self.state.accounts.get(address) {
            Some(a) => *a,
            None => {
                return Err(ContractError::Std(StdError::NotFound { kind: RecordKind::EvmAccount }));
            },
        };
        account.contract_storage_key = Some(*address);
        self.state.accounts.insert(*address, account);
        let contract = EvmContract { code_size: code.len() as u32, code, valids };
        self.state.contracts.insert(*address, contract);
        assert(self@.contracts =~= old(self)@.contracts.insert(*address, contract@));
        Ok(())
    }

    /// Writes one slot of a contract that has a record.
    fn write_storage(&mut self, address: &H160, key: U256, value: U256) -> (r: Result<
        (),
        ContractError,
    >)
        requires
            old(self).wf(),
        ensures
            final(self).wf(),
            old(self)@.contracts.contains_key(*address) ==> r == Ok::<(), ContractError>(()) && final(self)@ == (StoredState {
                contract_storage: old(self)@.contract_storage.insert(
                    StorageKey { address: *address, slot: key },
                    value,
                ),
                ..old(self)@
            }),
            !old(self)@.contracts.contains_key(*address) ==> r == Err::<(), ContractError>(
                not_found(RecordKind::EvmContract),
            ) && final(self)@ == old(self)@,
    {
        if !self.state.contracts.contains_key(address) {
            return Err(ContractError::Std(StdError::NotFound { kind: RecordKind::EvmContract }));
        }
        self.state.contract_storage.insert(StorageKey { address: *address, slot: key }, value);
        Ok(())
    }

    /// Drops every stored slot of a contract that has a record.
    fn write_clear_storage(&mut self, address: &H160) -> (r: Result<(), ContractError>)
        requires
            old(self).wf(),
        ensures
            final(self).wf(),
            old(self)@.contracts.contains_key(*address) ==> r == Ok::<(), ContractError>(()) && final(self)@ == (StoredState {
                contract_storage: old(self)@.contract_storage.remove_keys(
                    slots_of(set![*address]),
                ),
                ..old(self)@
            }),
            !old(self)@.contracts.contains_key(*address) ==> r == Err::<(), ContractError>(
                not_found(RecordKind::EvmContract),
            ) && final(self)@ == old(self)@,
    {
        if !self.state.contracts.contains_key(address) {
            return Err(ContractError::Std(StdError::NotFound { kind: RecordKind::EvmContract }));
        }
        let mut only: OrderedSet<H160> = OrderedSet::new();
        only.insert(*address);
        assert(only@ =~= set![*address]);
        self.state.contract_storage = without_slots_of(&self.state.contract_storage, &only);
        Ok(())
    }

    /// Applies the transfers in order, up to the first that fails.
    fn apply_transfers(&mut self, transfers: &Vec<Transfer>) -> (r: Result<(), ContractError>)
        requires
            old(self).wf(),
        ensures
            final(self).wf(),
            (final(self)@, r) == old(self)@.all_transferred(transfers@),
    {
        let mut i: usize = 0;
        assert(transfers@.skip(0) =~= transfers@);
        while i < transfers.len()
            invariant
                i <= transfers@.len(),
                self.wf(),
                old(self)@.all_transferred(transfers@) == self@.all_transferred(
                    transfers@.skip(i as int),
                ),
            decreases transfers@.len() - i,
        {
            let transfer = transfers[i];
            assert(transfers@.skip(i as int)[0] == transfer);
            assert(transfers@.skip(i as int).skip(1) =~= transfers@.skip(i + 1));
            match self.transfer_nova_tokens(transfer.source, transfer.target, transfer.value) {
                Ok(()) => {},
                Err(e) => {
                    return Err(e);
                },
            }
            i += 1;
        }
        Ok(())
    }

    /// Moves `value` from `source` to `target`.
    fn transfer_nova_tokens(&mut self, source: H160, target: H160, value: U256) -> (r: Result<
        (),
        ContractError,
    >)
        requires
            old(self).wf(),
        ensures
            final(self).wf(),
            (final(self)@, r) == old(self)@.transferred(Transfer { source, target, value }),
    {
        self.init_new_account(&source);
        self.init_new_account(&target);
        let source_balance = match self.balance(&source).checked_sub(value) {
            Some(b) => b,
            None => {
                return Err(ContractError::InsufficientFunds);
            },
        };
        let target_balance = match self.balance(&target).checked_add(value) {
            Some(b) => b,
            None => {
                return Err(ContractError::BalanceOverflow);
            },
        };
        proof {
            U256::lemma_u256_of(source_balance);
            U256::lemma_u256_of(target_balance);
        }
        match self.write_balance(&source, source_balance) {
            Ok(()) => {},
            Err(e) => {
                return Err(e);
            },
        }
        self.write_balance(&target, target_balance)
    }

    /// Applies the instructions of a diff in order, up to the first
    /// that fails.
    fn apply_contract_results(&mut self, values: &Vec<Apply>) -> (r: Result<(), ContractError>)
        requires
            old(self).wf(),
            forall|i: int| 0 <= i < values@.len() ==> (#[trigger] values@[i]).wf(),
        ensures
            final(self).wf(),
            (final(self)@, r) == old(self)@.all_applied(applies_view(values@)),
    {
        let mut i: usize = 0;
        let ghost all = applies_view(values@);
        assert(all.skip(0) =~= all);
        while i < values.len()
            invariant
                i <= values@.len(),
                self.wf(),
                all == applies_view(values@),
                forall|j: int| 0 <= j < values@.len() ==> (#[trigger] values@[j]).wf(),
                old(self)@.all_applied(all) == self@.all_applied(all.skip(i as int)),
            decreases values@.len() - i,
        {
            assert(all.skip(i as int)[0] == values@[i as int]@);
            assert(all.skip(i as int).skip(1) =~= all.skip(i + 1));
            assert(values@[i as int].wf());
            let applied = match &values[i] {
                Apply::Modify { address, nonce, code_and_valids, storage, reset_storage } => {
                    self.update_contract_account(
                        *address,
                        *nonce,
                        code_and_valids,
                        storage,
                        *reset_storage,
                    )
                },
                Apply::Delete { address } => self.delete_account(address),
            };
            match applied {
                Ok(()) => {},
                Err(e) => {
                    return Err(e);
                },
            }
            i += 1;
        }
        Ok(())
    }

    /// Modifies one account as a diff says.
    fn update_contract_account(
        &mut self,
        address: H160,
        trx_count: U256,
        code_and_valids: &Option<(Vec<u8>, Vec<u8>)>,
        storage: &OrderedMap<U256, U256>,
        reset_storage: bool,
    ) -> (r: Result<(), ContractError>)
        requires
            old(self).wf(),
            storage.wf(),
        ensures
            final(self).wf(),
            (final(self)@, r) == old(self)@.modified(
                address,
                trx_count,
                match *code_and_valids {
                    Some((code, valids)) => Some((code@, valids@)),
                    None => None,
                },
                storage@,
                reset_storage,
            ),
    {
        self.init_new_account(&address);
        let stored = self.nonce(&address);
        if stored != trx_count {
            if trx_count.lt(&stored) {
                return Err(ContractError::ProtocolViolation(Violation::NonceNotIncreasing));
            }
            if !trx_count.fits_u64() {
                return Err(ContractError::NonceOverflow);
            }
            match self.write_nonce(&address, trx_count.as_u64()) {
                Ok(()) => {},
                Err(e) => {
                    return Err(e);
                },
            }
        }
        if let Some((code, valids)) = code_and_valids {
            let code_copy = code.clone();
            let valids_copy = valids.clone();
            assert(code_copy@ =~= code@);
            assert(valids_copy@ =~= valids@);
            match self.write_deploy_contract(&address, code_copy, valids_copy) {
                Ok(()) => {},
                Err(e) => {
                    return Err(e);
                },
            }
        }
        if reset_storage || !storage.is_empty() {
            if reset_storage {
                match self.write_clear_storage(&address) {
                    Ok(()) => {},
                    Err(e) => {
                        return Err(e);
                    },
                }
            } else if !self.state.contracts.contains_key(&address) {
                return Err(ContractError::Std(StdError::NotFound { kind: RecordKind::EvmContract }));
            }
            let ghost kept = self@.contract_storage;
            let mut i: usize = 0;
            proof {
                lemma_take_ends(storage.entries());
                assert(kept =~= kept.union_prefer_right(
                    slots_at(address, entries_map(storage.entries().take(0))),
                ));
            }
            while i < storage.len()
                invariant
                    i <= storage.entries().len(),
                    self.wf(),
                    storage.wf(),
                    self@.contracts.contains_key(address),
                    self@ == (StoredState {
                        contract_storage: kept.union_prefer_right(
                            slots_at(address, entries_map(storage.entries().take(i as int))),
                        ),
                        ..self@
                    }),
                    self@.accounts == old(self)@.modified(
                        address,
                        trx_count,
                        match *code_and_valids {
                            Some((code, valids)) => Some((code@, valids@)),
                            None => None,
                        },
                        storage@,
                        reset_storage,
                    ).0.accounts,
                    self@.contracts == old(self)@.modified(
                        address,
                        trx_count,
                        match *code_and_valids {
                            Some((code, valids)) => Some((code@, valids@)),
                            None => None,
                        },
                        storage@,
                        reset_storage,
                    ).0.contracts,
                    self@.block_height == old(self)@.block_height,
                    self@.block_time == old(self)@.block_time,
                    self@.chain_id == old(self)@.chain_id,
                decreases storage.entries().len() - i,
            {
                let key = storage.key_at(i);
                let value = *storage.value_at(i);
                let ghost before = entries_map(storage.entries().take(i as int));
                proof {
                    lemma_take_step(storage.entries(), i as int);
                }
                match self.write_storage(&address, key, value) {
                    Ok(()) => {},
                    Err(e) => {
                        return Err(e);
                    },
                }
                assert(self@.contract_storage =~= kept.union_prefer_right(
                    slots_at(address, before.insert(key, value)),
                ));
                i += 1;
            }
            proof {
                lemma_take_ends(storage.entries());
            }
        }
        Ok(())
    }
}

} // verus!
