//! The journal of one transaction: a stack of frames, one for each call
//! or create that is running, each holding what its frame changed.

use crate::error::ExitError;
use crate::ordered_map::{
    entries_map, keys_ascending, lemma_entry_in_map, lemma_insert_entry, lemma_key_has_entry,
    lemma_take_ends, lemma_take_step, OrderedKey, OrderedMap, OrderedSet,
};
use crate::primitives::{pow2_256, u256_of, StorageKey, H160, H256, U256};
use crate::storage::StorageInterface;
use crate::valids::{compute, jump_destinations, packs};
use vstd::prelude::*;

verus! {

/// What a frame knows of one account.
#[derive(Debug)]
pub struct ExecutorAccount {
    /// The account's nonce as this frame left it.
    pub nonce: U256,
    /// The code that this transaction gave the account, if it gave any.
    pub code: Option<Vec<u8>>,
    /// The jump-destination bitmap of that code.
    pub valids: Option<Vec<u8>>,
    /// Whether the account's earlier storage counts as cleared.
    pub reset: bool,
}

/// An [`ExecutorAccount`] as a value: byte vectors as sequences.
pub struct AccountView {
    pub nonce: U256,
    pub code: Option<Seq<u8>>,
    pub valids: Option<Seq<u8>>,
    pub reset: bool,
}

/// The view of an optional byte vector.
pub open spec fn bytes_view(bytes: Option<Vec<u8>>) -> Option<Seq<u8>> {
    match bytes {
        Some(b) => Some(b@),
        None => None,
    }
}

impl View for ExecutorAccount {
    type V = AccountView;

    open spec fn view(&self) -> AccountView {
        AccountView {
            nonce: self.nonce,
            code: bytes_view(self.code),
            valids: bytes_view(self.valids),
            reset: self.reset,
        }
    }
}

/// A copy of optional bytes.
fn copy_bytes(bytes: &Option<Vec<u8>>) -> (r: Option<Vec<u8>>)
    ensures
        bytes_view(r) == bytes_view(*bytes),
{
    match bytes {
        Some(b) => {
            let c = b.clone();
            assert(c@ =~= b@);
            Some(c)
        },
        None => None,
    }
}

impl ExecutorAccount {
    /// A copy of the account.
    pub fn duplicate(&self) -> (r: ExecutorAccount)
        ensures
            r@ == self@,
    {
        ExecutorAccount {
            nonce: self.nonce,
            code: copy_bytes(&self.code),
            valids: copy_bytes(&self.valids),
            reset: self.reset,
        }
    }
}

/// A movement of native tokens from one account to another.
#[derive(Clone, Copy, Debug, PartialEq, Eq, Structural)]
pub struct Transfer {
    pub source: H160,
    pub target: H160,
    pub value: U256,
}

/// An event that a contract emitted.
#[derive(Debug)]
pub struct Log {
    pub address: H160,
    pub topics: Vec<H256>,
    pub data: Vec<u8>,
}

/// A [`Log`] as a value.
pub struct LogView {
    pub address: H160,
    pub topics: Seq<H256>,
    pub data: Seq<u8>,
}

impl View for Log {
    type V = LogView;

    open spec fn view(&self) -> LogView {
        LogView { address: self.address, topics: self.topics@, data: self.data@ }
    }
}

/// The views of the account records in a map.
pub open spec fn accounts_view(accounts: Map<H160, ExecutorAccount>) -> Map<H160, AccountView> {
    accounts.map_values(|a: ExecutorAccount| a@)
}

/// The views of a sequence of logs.
pub open spec fn logs_view(logs: Seq<Log>) -> Seq<LogView> {
    logs.map_values(|l: Log| l@)
}

/// One instruction of a diff: what to change of one account, or to
/// delete it.
#[derive(Debug)]
pub enum Apply {
    Modify {
        address: H160,
        /// The account's nonce after the transaction.
        nonce: U256,
        /// The code to deploy with its jump-destination bitmap, if any.
        code_and_valids: Option<(Vec<u8>, Vec<u8>)>,
        /// The slots to write.
        storage: OrderedMap<U256, U256>,
        /// Whether the account's stored slots are cleared first.
        reset_storage: bool,
    },
    Delete { address: H160 },
}

/// An [`Apply`] as a value.
pub enum ApplyView {
    Modify {
        address: H160,
        nonce: U256,
        code_and_valids: Option<(Seq<u8>, Seq<u8>)>,
        storage: Map<U256, U256>,
        reset_storage: bool,
    },
    Delete { address: H160 },
}

impl ApplyView {
    /// The account that the instruction is about.
    pub open spec fn address(self) -> H160 {
        match self {
            ApplyView::Modify { address, .. } => address,
            ApplyView::Delete { address } => address,
        }
    }
}

impl View for Apply {
    type V = ApplyView;

    open spec fn view(&self) -> ApplyView {
        match *self {
            Apply::Modify { address, nonce, code_and_valids, storage, reset_storage } => {
                ApplyView::Modify {
                    address,
                    nonce,
                    code_and_valids: match code_and_valids {
                        Some((code, valids)) => Some((code@, valids@)),
                        None => None,
                    },
                    storage: storage@,
                    reset_storage,
                }
            },
            Apply::Delete { address } => ApplyView::Delete { address },
        }
    }
}

impl Apply {
    /// The invariant of an instruction: its slots are held in order.
    pub open spec fn wf(self) -> bool {
        match self {
            Apply::Modify { storage, .. } => storage.wf(),
            Apply::Delete { .. } => true,
        }
    }
}

/// The views of a sequence of instructions.
pub open spec fn applies_view(applies: Seq<Apply>) -> Seq<ApplyView> {
    applies.map_values(|a: Apply| a@)
}

/// A sequence of instructions, each beside the address it is about.
pub open spec fn keyed(applies: Seq<ApplyView>) -> Seq<(H160, ApplyView)> {
    applies.map_values(|a: ApplyView| (a.address(), a))
}

/// What a finished transaction leaves to be made durable: the
/// instructions for each account, the events, and the transfers.
pub type ApplyState = (Vec<Apply>, Vec<Log>, Vec<Transfer>);

/// Whether `storages` holds a write to a slot of `address`.
pub open spec fn has_slot(storages: Map<StorageKey, U256>, address: H160) -> bool {
    exists|slot: U256| #[trigger] storages.contains_key(StorageKey { address, slot })
}

/// The writes in `storages` to the slots of `address`, by slot.
pub open spec fn slot_writes(storages: Map<StorageKey, U256>, address: H160) -> Map<U256, U256> {
    Map::new(
        |slot: U256| storages.contains_key(StorageKey { address, slot }),
        |slot: U256| storages[StorageKey { address, slot }],
    )
}

/// The code and its bitmap, where both are there.
pub open spec fn both(code: Option<Seq<u8>>, valids: Option<Seq<u8>>) -> Option<
    (Seq<u8>, Seq<u8>),
> {
    match (code, valids) {
        (Some(c), Some(v)) => Some((c, v)),
        _ => None,
    }
}

/// Whether `applies` is the diff of the root frame `view` over
/// `backend`, with `split` instructions that modify.
///
/// First come the accounts that the frame has a record of or a write
/// to and has not deleted, in ascending order of address, each with
/// [`SubstateView::modification`]; then the deleted accounts, in
/// ascending order of address.
pub open spec fn is_diff<B: StorageInterface>(
    view: SubstateView,
    backend: &B,
    applies: Seq<ApplyView>,
    split: int,
) -> bool {
    &&& 0 <= split <= applies.len()
    &&& keys_ascending(keyed(applies.take(split)))
    &&& entries_map(keyed(applies.take(split))) == view.modifications(backend)
    &&& keys_ascending(keyed(applies.skip(split)))
    &&& entries_map(keyed(applies.skip(split))) == view.deletions()
}

/// The context that every frame of one transaction runs in.
#[derive(Clone, Copy, Debug)]
pub struct ExecutorMetadata {
    /// Whether the frame may not change state.
    pub is_static: bool,
    /// How deep the frame is nested: `None` for the root.
    pub depth: Option<usize>,
    /// The number of the block that the transaction belongs to.
    pub block_number: U256,
    /// The time of that block, in seconds.
    pub block_timestamp: U256,
}

impl ExecutorMetadata {
    /// The metadata of a root frame: not static, no depth, the block as
    /// the backend reports it.
    pub fn new<B: StorageInterface>(backend: &B) -> (r: Self)
        requires
            backend.readable(),
        ensures
            r == (ExecutorMetadata {
                is_static: false,
                depth: None,
                block_number: backend.stored_block_number(),
                block_timestamp: backend.stored_block_timestamp(),
            }),
    {
        ExecutorMetadata {
            is_static: false,
            depth: None,
            block_number: backend.block_number(),
            block_timestamp: backend.block_timestamp(),
        }
    }

    /// Takes in the metadata of a committed child: nothing of it is kept.
    pub fn swallow_commit(&mut self, _other: Self) -> (r: Result<(), ExitError>)
        ensures
            r is Ok,
            *final(self) == *old(self),
    {
        Ok(())
    }

    /// Takes in the metadata of a reverted child: nothing of it is kept.
    pub fn swallow_revert(&mut self, _other: Self) -> (r: Result<(), ExitError>)
        ensures
            r is Ok,
            *final(self) == *old(self),
    {
        Ok(())
    }

    /// Takes in the metadata of a discarded child: nothing of it is kept.
    pub fn swallow_discard(&mut self, _other: Self) -> (r: Result<(), ExitError>)
        ensures
            r is Ok,
            *final(self) == *old(self),
    {
        Ok(())
    }

    /// The metadata of a child of this frame.
    pub open spec fn child(self, is_static: bool) -> ExecutorMetadata {
        ExecutorMetadata {
            is_static: is_static || self.is_static,
            depth: match self.depth {
                None => Some(0usize),
                Some(n) => Some((n + 1) as usize),
            },
            block_number: self.block_number,
            block_timestamp: self.block_timestamp,
        }
    }

    /// The metadata of a frame entered from this one: static if asked for
    /// or inherited, one level deeper, in the same block.
    pub fn spit_child(&self, is_static: bool) -> (r: Self)
        requires
            self.depth matches Some(n) ==> n < usize::MAX,
        ensures
            r == self.child(is_static),
    {
        ExecutorMetadata {
            is_static: is_static || self.is_static,
            depth: match self.depth {
                None => Some(0),
                Some(n) => Some(n + 1),
            },
            block_number: self.block_number,
            block_timestamp: self.block_timestamp,
        }
    }

    /// Whether the frame may not change state.
    pub fn is_static(&self) -> (r: bool)
        ensures
            r == self.is_static,
    {
        self.is_static
    }

    /// The depth of the frame: `None` for the root.
    pub fn depth(&self) -> (r: Option<usize>)
        ensures
            r == self.depth,
    {
        self.depth
    }

    /// The number of the transaction's block.
    pub fn block_number(&self) -> (r: &U256)
        ensures
            *r == self.block_number,
    {
        &self.block_number
    }

    /// The time of the transaction's block.
    pub fn block_timestamp(&self) -> (r: &U256)
        ensures
            *r == self.block_timestamp,
    {
        &self.block_timestamp
    }
}

/// One frame of the journal and, through `parent`, the frames beneath it.
pub struct ExecutorSubstate {
    metadata: ExecutorMetadata,
    parent: Option<Box<ExecutorSubstate>>,
    logs: Vec<Log>,
    transfers: Vec<Transfer>,
    block_hashes: OrderedMap<U256, H256>,
    accounts: OrderedMap<H160, ExecutorAccount>,
    balances: OrderedMap<H160, U256>,
    storages: OrderedMap<StorageKey, U256>,
    deletes: OrderedSet<H160>,
}

/// A journal as a value: the current frame, and its parent if it has one.
pub struct SubstateView {
    pub metadata: ExecutorMetadata,
    pub parent: Option<Box<SubstateView>>,
    pub logs: Seq<LogView>,
    pub transfers: Seq<Transfer>,
    pub block_hashes: Map<U256, H256>,
    pub accounts: Map<H160, AccountView>,
    pub balances: Map<H160, U256>,
    pub storages: Map<StorageKey, U256>,
    pub deletes: Set<H160>,
}

/// The account that a frame records for an address it first touches: a
/// copy of what the frames beneath know, not reset, or else the stored
/// nonce and no code.
pub open spec fn fresh_account(known: Option<AccountView>, stored_nonce: U256) -> AccountView {
    match known {
        Some(a) => AccountView { reset: false, ..a },
        None => AccountView { nonce: stored_nonce, code: None, valids: None, reset: false },
    }
}

impl SubstateView {
    /// An empty frame on top of `parent`.
    pub open spec fn fresh(metadata: ExecutorMetadata, parent: Option<Box<SubstateView>>) -> Self {
        SubstateView {
            metadata,
            parent,
            logs: Seq::empty(),
            transfers: Seq::empty(),
            block_hashes: Map::empty(),
            accounts: Map::empty(),
            balances: Map::empty(),
            storages: Map::empty(),
            deletes: Set::empty(),
        }
    }

    /// The number of frames beneath the current one.
    pub open spec fn frames_below(self) -> nat
        decreases self,
    {
        match self.parent {
            Some(p) => p.frames_below() + 1,
            None => 0,
        }
    }

    /// What the innermost frame that knows the account holds of it.
    pub open spec fn known_account(self, address: H160) -> Option<AccountView>
        decreases self,
    {
        if self.accounts.contains_key(address) {
            Some(self.accounts[address])
        } else {
            match self.parent {
                Some(p) => p.known_account(address),
                None => None,
            }
        }
    }

    /// The nonce of the account, if a frame knows the account.
    pub open spec fn known_nonce(self, address: H160) -> Option<U256> {
        match self.known_account(address) {
            Some(a) => Some(a.nonce),
            None => None,
        }
    }

    /// The code that this transaction gave the account, if a frame knows
    /// the account and code was set.
    pub open spec fn known_code(self, address: H160) -> Option<Seq<u8>> {
        match self.known_account(address) {
            Some(a) => a.code,
            None => None,
        }
    }

    /// The bitmap that belongs to [`Self::known_code`].
    pub open spec fn known_valids(self, address: H160) -> Option<Seq<u8>> {
        match self.known_account(address) {
            Some(a) => a.valids,
            None => None,
        }
    }

    /// The balance that the innermost frame with one holds for the address.
    pub open spec fn known_balance(self, address: H160) -> Option<U256>
        decreases self,
    {
        if self.balances.contains_key(address) {
            Some(self.balances[address])
        } else {
            match self.parent {
                Some(p) => p.known_balance(address),
                None => None,
            }
        }
    }

    /// Whether the account is known to be empty: `Some(false)` where its
    /// known balance or nonce is not zero, else whether its code is
    /// empty; `None` where the balance, the account or its code is not
    /// known.
    pub open spec fn known_empty(self, address: H160) -> Option<bool> {
        match self.known_balance(address) {
            None => None,
            Some(balance) => if balance@ != 0 {
                Some(false)
            } else {
                match self.known_account(address) {
                    None => None,
                    Some(a) => if a.nonce@ != 0 {
                        Some(false)
                    } else {
                        match a.code {
                            Some(code) => Some(code.len() == 0),
                            None => None,
                        }
                    },
                }
            },
        }
    }

    /// The value that the journal holds for a slot: the innermost write,
    /// or zero where a frame above every write reset the account.
    pub open spec fn known_storage(self, address: H160, key: U256) -> Option<U256>
        decreases self,
    {
        if self.storages.contains_key(StorageKey { address, slot: key }) {
            Some(self.storages[StorageKey { address, slot: key }])
        } else if self.accounts.contains_key(address) && self.accounts[address].reset {
            Some(U256 { hi: 0, lo: 0 })
        } else {
            match self.parent {
                Some(p) => p.known_storage(address, key),
                None => None,
            }
        }
    }

    /// The value that a slot had before the transaction's writes, as far
    /// as the journal knows it: zero where a frame reset the account,
    /// `None` otherwise.
    pub open spec fn known_original_storage(self, address: H160, key: U256) -> Option<U256>
        decreases self,
    {
        if self.accounts.contains_key(address) && self.accounts[address].reset {
            Some(U256 { hi: 0, lo: 0 })
        } else {
            match self.parent {
                Some(p) => p.known_original_storage(address, key),
                None => None,
            }
        }
    }

    /// Whether a frame marked the address deleted.
    pub open spec fn deleted(self, address: H160) -> bool
        decreases self,
    {
        self.deletes.contains(address) || match self.parent {
            Some(p) => p.deleted(address),
            None => false,
        }
    }

    /// The journal after the current frame touched `address`.
    pub open spec fn touched(self, address: H160, stored_nonce: U256) -> SubstateView {
        if self.accounts.contains_key(address) {
            self
        } else {
            SubstateView {
                accounts: self.accounts.insert(
                    address,
                    fresh_account(self.known_account(address), stored_nonce),
                ),
                ..self
            }
        }
    }

    /// Whether the current frame has a record of the account or a write
    /// to one of its slots.
    pub open spec fn touches(self, address: H160) -> bool {
        self.accounts.contains_key(address) || has_slot(self.storages, address)
    }

    /// What the diff says of an account that the current frame touches
    /// and does not delete: the nonce, code and reset mark of the
    /// frame's record, or the stored nonce and nothing else where it has
    /// none, and the frame's writes to the account's slots.
    pub open spec fn modification(self, address: H160, stored_nonce: U256) -> ApplyView {
        let account = if self.accounts.contains_key(address) {
            self.accounts[address]
        } else {
            AccountView { nonce: stored_nonce, code: None, valids: None, reset: false }
        };
        ApplyView::Modify {
            address,
            nonce: account.nonce,
            code_and_valids: both(account.code, account.valids),
            storage: slot_writes(self.storages, address),
            reset_storage: account.reset,
        }
    }

    /// The modifying instructions of the frame's diff, by address.
    pub open spec fn modifications<B: StorageInterface>(self, backend: &B) -> Map<
        H160,
        ApplyView,
    > {
        Map::new(
            |a: H160| self.touches(a) && !self.deletes.contains(a),
            |a: H160| self.modification(a, backend.stored_nonce(a)),
        )
    }

    /// The deleting instructions of the frame's diff, by address.
    pub open spec fn deletions(self) -> Map<H160, ApplyView> {
        Map::new(|a: H160| self.deletes.contains(a), |a: H160| ApplyView::Delete { address: a })
    }

    /// The balance of an account as the transaction sees it: what the
    /// journal holds, else what is stored.
    pub open spec fn balance(self, address: H160, stored: U256) -> U256 {
        match self.known_balance(address) {
            Some(v) => v,
            None => stored,
        }
    }

    /// The journal after a balance was read through it: where no frame
    /// held one, the current frame now holds the stored balance.
    pub open spec fn remembering(self, address: H160, stored: U256) -> SubstateView {
        if self.known_balance(address) is Some {
            self
        } else {
            SubstateView { balances: self.balances.insert(address, stored), ..self }
        }
    }

    /// The outcome of a transfer and the journal after it.
    pub open spec fn transferred(self, transfer: Transfer, stored_source: U256, stored_target: U256)
        -> (Result<(), ExitError>, SubstateView) {
        let read_source = self.remembering(transfer.source, stored_source);
        let source = self.balance(transfer.source, stored_source);
        if source@ < transfer.value@ {
            (Err(ExitError::OutOfFund), read_source)
        } else {
            let read_both = read_source.remembering(transfer.target, stored_target);
            let target = read_source.balance(transfer.target, stored_target);
            if target@ + transfer.value@ >= pow2_256() {
                (Err(ExitError::InvalidRange), read_both)
            } else {
                (
                    Ok(()),
                    SubstateView {
                        balances: read_both.balances.insert(
                            transfer.source,
                            u256_of((source@ - transfer.value@) as nat),
                        ).insert(transfer.target, u256_of(target@ + transfer.value@)),
                        transfers: read_both.transfers.push(transfer),
                        ..read_both
                    },
                )
            }
        }
    }

    /// The hash of a block as the current frame sees it: what it
    /// remembers, else what is stored.
    pub open spec fn block_hash(self, number: U256, stored: H256) -> H256 {
        if self.block_hashes.contains_key(number) {
            self.block_hashes[number]
        } else {
            stored
        }
    }

    /// The journal after a block hash was read through it: where the
    /// current frame held none, it now holds the stored one.
    pub open spec fn remembering_hash(self, number: U256, stored: H256) -> SubstateView {
        if self.block_hashes.contains_key(number) {
            self
        } else {
            SubstateView { block_hashes: self.block_hashes.insert(number, stored), ..self }
        }
    }

    /// The journal with the current frame's record of `address` set to
    /// `account`.
    pub open spec fn with_account(self, address: H160, account: AccountView) -> SubstateView {
        SubstateView { accounts: self.accounts.insert(address, account), ..self }
    }
}

/// The addresses whose record in `accounts` is marked reset.
pub open spec fn reset_addresses(accounts: Map<H160, AccountView>) -> Set<H160> {
    Set::new(|a: H160| accounts.contains_key(a) && accounts[a].reset)
}

/// `accounts` with the records of `addresses` marked reset.
pub open spec fn marked_reset(accounts: Map<H160, AccountView>, addresses: Set<H160>) -> Map<
    H160,
    AccountView,
> {
    Map::new(
        |a: H160| accounts.contains_key(a),
        |a: H160|
            if addresses.contains(a) {
                AccountView { reset: true, ..accounts[a] }
            } else {
                accounts[a]
            },
    )
}

/// The frame that `parent` becomes when its child `child` commits.
///
/// Logs and transfers of the child follow the parent's. Balances,
/// account records, storage writes and deletions of the child go over
/// the parent's. Where the child reset an account, the parent's writes
/// to that account's slots are dropped first; where the parent had reset
/// an account, the merged record stays reset. The child's metadata and
/// remembered block hashes are dropped.
pub open spec fn committed(parent: SubstateView, child: SubstateView) -> SubstateView {
    SubstateView {
        metadata: parent.metadata,
        parent: parent.parent,
        logs: parent.logs + child.logs,
        transfers: parent.transfers + child.transfers,
        block_hashes: parent.block_hashes,
        accounts: marked_reset(
            parent.accounts.union_prefer_right(child.accounts),
            reset_addresses(parent.accounts),
        ),
        balances: parent.balances.union_prefer_right(child.balances),
        storages: parent.storages.remove_keys(
            slots_of(reset_addresses(child.accounts)),
        ).union_prefer_right(child.storages),
        deletes: parent.deletes.union(child.deletes),
    }
}

/// The root frame that is left when every frame of the journal has
/// committed, the innermost first.
pub open spec fn committed_to_root(view: SubstateView) -> SubstateView
    decreases view.frames_below(),
    via committed_to_root_terminates
{
    match view.parent {
        Some(p) => committed_to_root(committed(*p, view)),
        None => view,
    }
}

/// A commit leaves one frame fewer.
#[via_fn]
proof fn committed_to_root_terminates(view: SubstateView) {
    match view.parent {
        Some(p) => {
            lemma_commit_leaves_one_frame_fewer(view);
        },
        None => {},
    }
}

/// A commit leaves one frame fewer.
pub proof fn lemma_commit_leaves_one_frame_fewer(view: SubstateView)
    requires
        view.parent is Some,
    ensures
        committed(*view.parent->0, view).frames_below() + 1 == view.frames_below(),
{
    let p = *view.parent->0;
    assert(committed(p, view).parent == p.parent);
    assert(committed(p, view).frames_below() == p.frames_below());
}

impl View for ExecutorSubstate {
    type V = SubstateView;

    open spec fn view(&self) -> SubstateView {
        self.as_view()
    }
}

impl ExecutorSubstate {
    /// The journal as a value.
    pub closed spec fn as_view(self) -> SubstateView
        decreases self,
    {
        SubstateView {
            metadata: self.metadata,
            parent: match self.parent {
                Some(p) => Some(Box::new(p.as_view())),
                None => None,
            },
            logs: logs_view(self.logs@),
            transfers: self.transfers@,
            block_hashes: self.block_hashes@,
            accounts: accounts_view(self.accounts@),
            balances: self.balances@,
            storages: self.storages@,
            deletes: self.deletes@,
        }
    }

    /// The invariant of a journal: every frame holds its maps in order.
    pub closed spec fn wf(self) -> bool
        decreases self,
    {
        &&& self.block_hashes.wf()
        &&& self.accounts.wf()
        &&& self.balances.wf()
        &&& self.storages.wf()
        &&& self.deletes.wf()
        &&& match self.parent {
            Some(p) => p.wf(),
            None => true,
        }
    }

    /// A journal with one empty frame, the root, for a transaction in
    /// the block that the backend reports.
    pub fn new<B: StorageInterface>(backend: &B) -> (r: Self)
        requires
            backend.readable(),
        ensures
            r.wf(),
            r@ == SubstateView::fresh(
                ExecutorMetadata {
                    is_static: false,
                    depth: None,
                    block_number: backend.stored_block_number(),
                    block_timestamp: backend.stored_block_timestamp(),
                },
                None,
            ),
    {
        let r = ExecutorSubstate {
            metadata: ExecutorMetadata::new(backend),
            parent: None,
            logs: Vec::new(),
            transfers: Vec::new(),
            block_hashes: OrderedMap::new(),
            accounts: OrderedMap::new(),
            balances: OrderedMap::new(),
            storages: OrderedMap::new(),
            deletes: OrderedSet::new(),
        };
        proof {
            Self::lemma_fresh_view(r);
        }
        r
    }

    /// The view of a frame that holds nothing.
    proof fn lemma_fresh_view(r: ExecutorSubstate)
        requires
            r.logs@.len() == 0,
            r.transfers@.len() == 0,
            r.block_hashes@ == Map::<U256, H256>::empty(),
            r.accounts@ == Map::<H160, ExecutorAccount>::empty(),
            r.balances@ == Map::<H160, U256>::empty(),
            r.storages@ == Map::<StorageKey, U256>::empty(),
            r.deletes@ == Set::<H160>::empty(),
        ensures
            r@ == SubstateView::fresh(r.metadata, r@.parent),
    {
        assert(r@.logs =~= Seq::empty());
        assert(r@.transfers =~= Seq::empty());
        assert(r@.accounts =~= Map::empty());
    }

    /// Whether this frame is the root.
    pub fn is_root(&self) -> (r: bool)
        ensures
            r == (self@.parent is None),
    {
        self.parent.is_none()
    }

    /// The metadata of the current frame.
    pub fn metadata(&self) -> (r: &ExecutorMetadata)
        ensures
            *r == self@.metadata,
    {
        &self.metadata
    }

    /// The metadata of the current frame, to change it.
    pub fn metadata_mut(&mut self) -> (r: &mut ExecutorMetadata)
        requires
            old(self).wf(),
        ensures
            *r == old(self)@.metadata,
            final(self).wf(),
            final(self)@ == (SubstateView { metadata: *final(r), ..old(self)@ }),
    {
        &mut self.metadata
    }

    /// Pushes an empty frame: what was the current frame becomes its
    /// parent.
    pub fn enter(&mut self, is_static: bool)
        requires
            old(self).wf(),
            old(self)@.metadata.depth matches Some(n) ==> n < usize::MAX,
        ensures
            final(self).wf(),
            final(self)@ == SubstateView::fresh(
                old(self)@.metadata.child(is_static),
                Some(Box::new(old(self)@)),
            ),
    {
        let mut entering = ExecutorSubstate {
            metadata: self.metadata.spit_child(is_static),
            parent: None,
            logs: Vec::new(),
            transfers: Vec::new(),
            block_hashes: OrderedMap::new(),
            accounts: OrderedMap::new(),
            balances: OrderedMap::new(),
            storages: OrderedMap::new(),
            deletes: OrderedSet::new(),
        };
        std::mem::swap(&mut entering, self);
        self.parent = Some(Box::new(entering));
        proof {
            Self::lemma_fresh_view(*self);
        }
    }

    /// Pops the current frame and drops what it held: its parent is the
    /// current frame again, as it was when the frame was entered.
    pub fn exit_revert(&mut self) -> (r: Result<(), ExitError>)
        requires
            old(self).wf(),
            old(self)@.parent is Some,
        ensures
            r is Ok,
            final(self).wf(),
            final(self)@ == *old(self)@.parent->0,
    {
        let mut exited = *self.parent.take().unwrap();
        std::mem::swap(&mut exited, self);
        self.metadata.swallow_revert(exited.metadata)
    }

    /// Pops the current frame and drops what it held: its parent is the
    /// current frame again, as it was when the frame was entered.
    pub fn exit_discard(&mut self) -> (r: Result<(), ExitError>)
        requires
            old(self).wf(),
            old(self)@.parent is Some,
        ensures
            r is Ok,
            final(self).wf(),
            final(self)@ == *old(self)@.parent->0,
    {
        let mut exited = *self.parent.take().unwrap();
        std::mem::swap(&mut exited, self);
        self.metadata.swallow_discard(exited.metadata)
    }

    /// Pops the current frame and folds what it held into its parent,
    /// which is the current frame again.
    pub fn exit_commit(&mut self) -> (r: Result<(), ExitError>)
        requires
            old(self).wf(),
            old(self)@.parent is Some,
        ensures
            r is Ok,
            final(self).wf(),
            final(self)@ == committed(*old(self)@.parent->0, old(self)@),
    {
        proof {
            reveal_with_fuel(ExecutorSubstate::wf, 2);
            reveal_with_fuel(ExecutorSubstate::as_view, 2);
        }
        let mut exited = *self.parent.take().unwrap();
        std::mem::swap(&mut exited, self);
        let ghost parent = self@;
        let ghost child = old(self)@;
        assert(accounts_view(exited.accounts@) == child.accounts);

        let swallowed = self.metadata.swallow_commit(exited.metadata);
        self.logs.append(&mut exited.logs);
        self.balances.append(exited.balances);
        self.transfers.append(&mut exited.transfers);

        let resets = addresses_reset_in(&exited.accounts);
        self.storages = without_slots_of(&self.storages, &resets);

        let resets = addresses_reset_in(&self.accounts);
        self.accounts.append(exited.accounts);
        self.storages.append(exited.storages);
        self.deletes.append(exited.deletes);
        mark_reset(&mut self.accounts, &resets);

        proof {
            let merged = committed(parent, child);
            assert(self@.logs =~= merged.logs);
            assert(self@.transfers =~= merged.transfers);
            assert(self@.accounts =~= merged.accounts);
            assert(self@.storages =~= merged.storages);
        }
        swallowed
    }

    /// Ends the journal of a transaction that succeeded and returns its
    /// diff with the events and transfers of the root frame.
    pub fn deconstruct<B: StorageInterface>(self, backend: &B) -> (r: ApplyState)
        requires
            self.wf(),
            self@.parent is None,
            backend.readable(),
        ensures
            exists|split: int| #[trigger] is_diff(self@, backend, applies_view(r.0@), split),
            forall|i: int| 0 <= i < r.0@.len() ==> (#[trigger] r.0@[i]).wf(),
            logs_view(r.1@) == self@.logs,
            r.2@ == self@.transfers,
    {
        let addresses = touched_addresses(&self.accounts, &self.storages);
        let mut applies: Vec<Apply> = Vec::new();
        let ghost view = self@;
        let mut i: usize = 0;
        proof {
            lemma_take_ends(addresses.entries());
            assert(entries_map(keyed(applies_view(applies@))) =~= Map::new(
                |a: H160|
                    entries_map(addresses.entries().take(0)).contains_key(a)
                        && !view.deletes.contains(a),
                |a: H160| view.modification(a, backend.stored_nonce(a)),
            ));
        }
        while i < addresses.len()
            invariant
                i <= addresses.entries().len(),
                self.wf(),
                self@ == view,
                backend.readable(),
                addresses.wf(),
                keys_ascending(keyed(applies_view(applies@))),
                entries_map(keyed(applies_view(applies@))) == Map::new(
                    |a: H160|
                        entries_map(addresses.entries().take(i as int)).contains_key(a)
                            && !view.deletes.contains(a),
                    |a: H160| view.modification(a, backend.stored_nonce(a)),
                ),
                forall|j: int| 0 <= j < applies@.len() ==> (#[trigger] applies@[j]).wf(),
            decreases addresses.entries().len() - i,
        {
            let address = addresses.key_at(i);
            let ghost seen = entries_map(addresses.entries().take(i as int));
            let ghost before = keyed(applies_view(applies@));
            proof {
                lemma_take_step(addresses.entries(), i as int);
            }
            if !self.deletes.contains(&address) {
                let storage = slot_writes_of(&self.storages, address);
                let apply = match self.accounts.get(&address) {
                    Some(account) => {
                        assert(accounts_view(self.accounts@)[address] == account@);
                        Apply::Modify {
                            address,
                            nonce: account.nonce,
                            code_and_valids: match (
                                copy_bytes(&account.code),
                                copy_bytes(&account.valids),
                            ) {
                                (Some(code), Some(valids)) => Some((code, valids)),
                                _ => None,
                            },
                            storage,
                            reset_storage: account.reset,
                        }
                    },
                    None => Apply::Modify {
                        address,
                        nonce: backend.nonce(&address),
                        code_and_valids: None,
                        storage,
                        reset_storage: false,
                    },
                };
                assert(apply@ == view.modification(address, backend.stored_nonce(address)));
                proof {
                    assert forall|j: int| 0 <= j < before.len() implies (
                    #[trigger] before[j]).0.rank() < address.rank() by {
                        lemma_entry_in_map(before, j);
                        let at = lemma_key_has_entry(addresses.entries().take(i as int), before[j].0);
                        assert(addresses.entries()[at].0.rank() < addresses.entries()[i as int].0.rank());
                    }
                    lemma_insert_entry(before, before.len() as int, address, apply@);
                    assert(before.insert(before.len() as int, (address, apply@)) =~= keyed(
                        applies_view(applies@.push(apply)),
                    ));
                }
                applies.push(apply);
                assert(entries_map(keyed(applies_view(applies@))) =~= Map::new(
                    |a: H160|
                        seen.insert(address, ()).contains_key(a) && !view.deletes.contains(a),
                    |a: H160| view.modification(a, backend.stored_nonce(a)),
                ));
            } else {
                assert(entries_map(keyed(applies_view(applies@))) =~= Map::new(
                    |a: H160|
                        seen.insert(address, ()).contains_key(a) && !view.deletes.contains(a),
                    |a: H160| view.modification(a, backend.stored_nonce(a)),
                ));
            }
            i += 1;
        }
        proof {
            lemma_take_ends(addresses.entries());
            assert(entries_map(keyed(applies_view(applies@))) =~= view.modifications(backend));
        }
        let ghost modifies = applies@;
        let mut deletions: Vec<Apply> = Vec::new();
        let mut d: usize = 0;
        proof {
            lemma_take_ends(self.deletes.entries());
            assert(entries_map(keyed(applies_view(deletions@))) =~= Map::new(
                |a: H160| entries_map(self.deletes.entries().take(0)).contains_key(a),
                |a: H160| ApplyView::Delete { address: a },
            ));
        }
        while d < self.deletes.len()
            invariant
                d <= self.deletes.entries().len(),
                self.wf(),
                self@ == view,
                keys_ascending(keyed(applies_view(deletions@))),
                entries_map(keyed(applies_view(deletions@))) == Map::new(
                    |a: H160| entries_map(self.deletes.entries().take(d as int)).contains_key(a),
                    |a: H160| ApplyView::Delete { address: a },
                ),
                forall|j: int| 0 <= j < deletions@.len() ==> (#[trigger] deletions@[j]).wf(),
            decreases self.deletes.entries().len() - d,
        {
            let address = self.deletes.key_at(d);
            let ghost seen = entries_map(self.deletes.entries().take(d as int));
            let ghost before = keyed(applies_view(deletions@));
            let apply = Apply::Delete { address };
            proof {
                lemma_take_step(self.deletes.entries(), d as int);
                assert forall|j: int| 0 <= j < before.len() implies (#[trigger] before[j]).0.rank()
                    < address.rank() by {
                    lemma_entry_in_map(before, j);
                    let at = lemma_key_has_entry(self.deletes.entries().take(d as int), before[j].0);
                    assert(self.deletes.entries()[at].0.rank() < self.deletes.entries()[d as int].0.rank());
                }
                lemma_insert_entry(before, before.len() as int, address, apply@);
                assert(before.insert(before.len() as int, (address, apply@)) =~= keyed(
                    applies_view(deletions@.push(apply)),
                ));
            }
            deletions.push(apply);
            assert(entries_map(keyed(applies_view(deletions@))) =~= Map::new(
                |a: H160| seen.insert(address, ()).contains_key(a),
                |a: H160| ApplyView::Delete { address: a },
            ));
            d += 1;
        }
        proof {
            lemma_take_ends(self.deletes.entries());
            assert(entries_map(keyed(applies_view(deletions@))) =~= view.deletions());
        }
        let ghost deletes = deletions@;
        applies.append(&mut deletions);
        proof {
            let split = modifies.len() as int;
            assert(applies_view(applies@).take(split) =~= applies_view(modifies));
            assert(applies_view(applies@).skip(split) =~= applies_view(deletes));
            assert(is_diff(self@, backend, applies_view(applies@), split));
        }
        let ghost split = modifies.len() as int;
        let r = (applies, self.logs, self.transfers);
        assert(is_diff(view, backend, applies_view(r.0@), split));
        r
    }

    /// The innermost record of the account.
    fn known_account(&self, address: H160) -> (r: Option<&ExecutorAccount>)
        requires
            self.wf(),
        ensures
            match r {
                Some(a) => self@.known_account(address) == Some(a@),
                None => self@.known_account(address) is None,
            },
        decreases self,
    {
        match self.accounts.get(&address) {
            Some(account) => Some(account),
            None => match &self.parent {
                Some(parent) => parent.known_account(address),
                None => None,
            },
        }
    }

    /// The nonce of the account, if a frame knows the account.
    pub fn known_nonce(&self, address: H160) -> (r: Option<U256>)
        requires
            self.wf(),
        ensures
            r == self@.known_nonce(address),
    {
        match self.known_account(address) {
            Some(acc) => Some(acc.nonce),
            None => None,
        }
    }

    /// A copy of the code that this transaction gave the account, if a
    /// frame knows the account and code was set.
    pub fn known_code(&self, address: H160) -> (r: Option<Vec<u8>>)
        requires
            self.wf(),
        ensures
            bytes_view(r) == self@.known_code(address),
    {
        match self.known_account(address) {
            Some(acc) => copy_bytes(&acc.code),
            None => None,
        }
    }

    /// A copy of the bitmap that belongs to the known code.
    pub fn known_valids(&self, address: H160) -> (r: Option<Vec<u8>>)
        requires
            self.wf(),
        ensures
            bytes_view(r) == self@.known_valids(address),
    {
        match self.known_account(address) {
            Some(acc) => copy_bytes(&acc.valids),
            None => None,
        }
    }

    /// The balance that the journal holds for the address, if any.
    pub fn known_balance(&self, address: &H160) -> (r: Option<U256>)
        requires
            self.wf(),
        ensures
            r == self@.known_balance(*address),
        decreases self,
    {
        match self.balances.get(address) {
            Some(balance) => Some(*balance),
            None => match &self.parent {
                Some(parent) => parent.known_balance(address),
                None => None,
            },
        }
    }

    /// Whether the account is known to hold no balance, no nonce and no
    /// code; `None` where the journal cannot tell.
    pub fn known_empty(&self, address: H160) -> (r: Option<bool>)
        requires
            self.wf(),
        ensures
            r == self@.known_empty(address),
    {
        match self.known_balance(&address) {
            Some(balance) => {
                if !balance.is_zero() {
                    return Some(false);
                }
            },
            None => {
                return None;
            },
        }
        if let Some(account) = self.known_account(address) {
            if !account.nonce.is_zero() {
                return Some(false);
            }
            if let Some(code) = &account.code {
                return Some(code.len() == 0);
            }
        }
        None
    }

    /// The value that the journal holds for a slot, if any: the innermost
    /// write, or zero where the account was reset above every write.
    pub fn known_storage(&self, address: H160, key: U256) -> (r: Option<U256>)
        requires
            self.wf(),
        ensures
            r == self@.known_storage(address, key),
        decreases self,
    {
        if let Some(value) = self.storages.get(&StorageKey { address, slot: key }) {
            return Some(*value);
        }
        if let Some(account) = self.accounts.get(&address) {
            if account.reset {
                return Some(U256::zero());
            }
        }
        match &self.parent {
            Some(parent) => parent.known_storage(address, key),
            None => None,
        }
    }

    /// The value that a slot had before the transaction's writes, as far
    /// as the journal knows it: zero where the account was reset in this
    /// transaction, `None` otherwise.
    pub fn known_original_storage(&self, address: H160, key: U256) -> (r: Option<U256>)
        requires
            self.wf(),
        ensures
            r == self@.known_original_storage(address, key),
        decreases self,
    {
        if let Some(account) = self.accounts.get(&address) {
            if account.reset {
                return Some(U256::zero());
            }
        }
        match &self.parent {
            Some(parent) => parent.known_original_storage(address, key),
            None => None,
        }
    }

    /// Whether a frame marked the account deleted.
    pub fn deleted(&self, address: H160) -> (r: bool)
        requires
            self.wf(),
        ensures
            r == self@.deleted(address),
        decreases self,
    {
        if self.deletes.contains(&address) {
            return true;
        }
        match &self.parent {
            Some(parent) => parent.deleted(address),
            None => false,
        }
    }

    /// Makes sure that the current frame has a record of the account.
    fn account_mut<B: StorageInterface>(&mut self, address: H160, backend: &B)
        requires
            old(self).wf(),
            backend.readable(),
        ensures
            final(self).wf(),
            final(self)@ == old(self)@.touched(address, backend.stored_nonce(address)),
            final(self).accounts@.contains_key(address),
    {
        if !self.accounts.contains_key(&address) {
            let account = match self.known_account(address) {
                Some(v) => {
                    let mut copy = v.duplicate();
                    copy.reset = false;
                    copy
                },
                None => ExecutorAccount {
                    nonce: backend.nonce(&address),
                    code: None,
                    valids: None,
                    reset: false,
                },
            };
            self.accounts.insert(address, account);
            assert(self@.accounts =~= old(self)@.accounts.insert(address, account@));
        }
    }

    /// Replaces the current frame's record of an account that it has.
    fn put_account(&mut self, address: H160, account: ExecutorAccount)
        requires
            old(self).wf(),
        ensures
            final(self).wf(),
            final(self)@ == old(self)@.with_account(address, account@),
    {
        self.accounts.insert(address, account);
        assert(self@.accounts =~= old(self)@.accounts.insert(address, account@));
    }

    /// Takes the current frame's record of an account out, to change it.
    fn take_account(&mut self, address: H160) -> (r: ExecutorAccount)
        requires
            old(self).wf(),
            old(self).accounts@.contains_key(address),
        ensures
            final(self).wf(),
            r@ == old(self)@.accounts[address],
            old(self)@.accounts.contains_key(address),
            forall|a: ExecutorAccount| #[trigger]
                final(self)@.with_account(address, a@) == old(self)@.with_account(address, a@),
    {
        let r = self.accounts.remove(&address).unwrap();
        assert forall|a: ExecutorAccount| #[trigger]
            self@.with_account(address, a@) == old(self)@.with_account(address, a@) by {
            assert(self@.accounts.insert(address, a@) =~= old(self)@.accounts.insert(
                address,
                a@,
            ));
        }
        r
    }

    /// Adds one to the nonce of an account, in the current frame. A nonce
    /// at the top of the 256-bit range stays as it is and the error
    /// `MaxNonce` reports it.
    pub fn inc_nonce<B: StorageInterface>(&mut self, address: H160, backend: &B) -> (r: Result<
        (),
        ExitError,
    >)
        requires
            old(self).wf(),
            backend.readable(),
        ensures
            final(self).wf(),
            ({
                let t = old(self)@.touched(address, backend.stored_nonce(address));
                let a = t.accounts[address];
                if a.nonce@ + 1 < pow2_256() {
                    &&& r is Ok
                    &&& final(self)@ == t.with_account(
                        address,
                        AccountView { nonce: u256_of(a.nonce@ + 1), ..a },
                    )
                } else {
                    &&& r == Err::<(), ExitError>(ExitError::MaxNonce)
                    &&& final(self)@ == t
                }
            }),
    {
        self.account_mut(address, backend);
        let ghost t = self@;
        let mut account = self.take_account(address);
        match account.nonce.checked_add(U256::one()) {
            Some(nonce) => {
                proof {
                    U256::lemma_u256_of(nonce);
                }
                account.nonce = nonce;
                self.put_account(address, account);
                Ok(())
            },
            None => {
                self.put_account(address, account);
                assert(t.with_account(address, t.accounts[address]).accounts =~= t.accounts);
                Err(ExitError::MaxNonce)
            },
        }
    }

    /// Writes a slot of an account, in the current frame.
    pub fn set_storage(&mut self, address: H160, key: U256, value: U256)
        requires
            old(self).wf(),
        ensures
            final(self).wf(),
            final(self)@ == (SubstateView {
                storages: old(self)@.storages.insert(StorageKey { address, slot: key }, value),
                ..old(self)@
            }),
    {
        self.storages.insert(StorageKey { address, slot: key }, value);
    }

    /// Drops the current frame's writes to the account's slots and marks
    /// the account reset, so that slots read as zero from here on.
    pub fn reset_storage<B: StorageInterface>(&mut self, address: H160, backend: &B)
        requires
            old(self).wf(),
            backend.readable(),
        ensures
            final(self).wf(),
            ({
                let cleared = SubstateView {
                    storages: old(self)@.storages.remove_keys(slots_of(set![address])),
                    ..old(self)@
                };
                let t = cleared.touched(address, backend.stored_nonce(address));
                final(self)@ == t.with_account(
                    address,
                    AccountView { reset: true, ..t.accounts[address] },
                )
            }),
    {
        let mut only: OrderedSet<H160> = OrderedSet::new();
        only.insert(address);
        assert(only@ =~= set![address]);
        self.storages = without_slots_of(&self.storages, &only);
        self.account_mut(address, backend);
        let mut account = self.take_account(address);
        account.reset = true;
        self.put_account(address, account);
    }

    /// Appends an event to the current frame's log.
    pub fn log(&mut self, address: H160, topics: Vec<H256>, data: Vec<u8>)
        requires
            old(self).wf(),
        ensures
            final(self).wf(),
            final(self)@ == (SubstateView {
                logs: old(self)@.logs.push(LogView { address, topics: topics@, data: data@ }),
                ..old(self)@
            }),
    {
        self.logs.push(Log { address, topics, data });
        assert(self@.logs =~= old(self)@.logs.push(
            LogView { address, topics: topics@, data: data@ },
        ));
    }

    /// Marks an account deleted, in the current frame.
    pub fn set_deleted(&mut self, address: H160)
        requires
            old(self).wf(),
        ensures
            final(self).wf(),
            final(self)@ == (SubstateView {
                deletes: old(self)@.deletes.insert(address),
                ..old(self)@
            }),
    {
        self.deletes.insert(address);
    }

    /// Gives an account its code, and with it the bitmap of the code's
    /// valid jump destinations, in the current frame.
    pub fn set_code<B: StorageInterface>(&mut self, address: H160, code: Vec<u8>, backend: &B)
        requires
            old(self).wf(),
            backend.readable(),
        ensures
            final(self).wf(),
            ({
                let t = old(self)@.touched(address, backend.stored_nonce(address));
                let valids = final(self)@.accounts[address].valids;
                &&& valids matches Some(bitmap) && packs(bitmap, jump_destinations(code@))
                &&& final(self)@ == t.with_account(
                    address,
                    AccountView { code: Some(code@), valids, ..t.accounts[address] },
                )
            }),
    {
        self.account_mut(address, backend);
        let mut account = self.take_account(address);
        account.valids = Some(compute(&code));
        account.code = Some(code);
        self.put_account(address, account);
    }

    /// The balance of an account as the transaction sees it: what the
    /// journal holds, else what is stored, which the current frame then
    /// remembers.
    pub fn balance<B: StorageInterface>(&mut self, address: &H160, backend: &B) -> (r: U256)
        requires
            old(self).wf(),
            backend.readable(),
        ensures
            final(self).wf(),
            r == old(self)@.balance(*address, backend.stored_balance(*address)),
            final(self)@ == old(self)@.remembering(*address, backend.stored_balance(*address)),
    {
        match self.known_balance(address) {
            Some(value) => value,
            None => {
                let balance = backend.balance(address);
                self.balances.insert(*address, balance);
                balance
            },
        }
    }

    /// Moves `transfer.value` from the source to the target, in the
    /// current frame, and records the transfer. Both new balances are
    /// worked out before either is written: where the source holds too
    /// little (`OutOfFund`) or the target would overflow
    /// (`InvalidRange`), the frame only remembers the balances it read.
    pub fn transfer<B: StorageInterface>(&mut self, transfer: &Transfer, backend: &B) -> (r:
        Result<(), ExitError>)
        requires
            old(self).wf(),
            backend.readable(),
        ensures
            final(self).wf(),
            (r, final(self)@) == old(self)@.transferred(
                *transfer,
                backend.stored_balance(transfer.source),
                backend.stored_balance(transfer.target),
            ),
    {
        let source_balance = self.balance(&transfer.source, backend);
        let new_source_balance = match source_balance.checked_sub(transfer.value) {
            Some(b) => b,
            None => {
                return Err(ExitError::OutOfFund);
            },
        };
        let target_balance = self.balance(&transfer.target, backend);
        let new_target_balance = match target_balance.checked_add(transfer.value) {
            Some(b) => b,
            None => {
                return Err(ExitError::InvalidRange);
            },
        };
        proof {
            U256::lemma_u256_of(new_source_balance);
            U256::lemma_u256_of(new_target_balance);
        }
        self.balances.insert(transfer.source, new_source_balance);
        self.balances.insert(transfer.target, new_target_balance);
        self.transfers.push(*transfer);
        Ok(())
    }

    /// Sets the balance of an account to zero, in the current frame.
    pub fn reset_balance(&mut self, address: H160)
        requires
            old(self).wf(),
        ensures
            final(self).wf(),
            final(self)@ == (SubstateView {
                balances: old(self)@.balances.insert(address, U256 { hi: 0, lo: 0 }),
                ..old(self)@
            }),
    {
        self.balances.insert(address, U256::zero());
    }

    /// Makes sure that the current frame has a record of the account: a
    /// copy of what the frames beneath know of it, not reset, or else
    /// its stored nonce and no code.
    pub fn touch<B: StorageInterface>(&mut self, address: H160, backend: &B)
        requires
            old(self).wf(),
            backend.readable(),
        ensures
            final(self).wf(),
            final(self)@ == old(self)@.touched(address, backend.stored_nonce(address)),
    {
        self.account_mut(address, backend);
    }

    /// The hash that the current frame remembers for a block, if any.
    fn known_block_hash(&self, number: U256) -> (r: Option<H256>)
        requires
            self.wf(),
        ensures
            r == (if self@.block_hashes.contains_key(number) {
                Some(self@.block_hashes[number])
            } else {
                None
            }),
    {
        match self.block_hashes.get(&number) {
            Some(h) => Some(*h),
            None => None,
        }
    }

    /// The hash of a block: what the current frame remembers, else what
    /// the backend reports, which the frame then remembers.
    pub fn block_hash<B: StorageInterface>(&mut self, number: U256, backend: &B) -> (r: H256)
        requires
            old(self).wf(),
            backend.readable(),
        ensures
            final(self).wf(),
            r == old(self)@.block_hash(number, backend.stored_block_hash(number)),
            final(self)@ == old(self)@.remembering_hash(number, backend.stored_block_hash(number)),
    {
        match self.known_block_hash(number) {
            Some(value) => value,
            None => {
                let block_hash = backend.block_hash(number);
                self.block_hashes.insert(number, block_hash);
                block_hash
            },
        }
    }
}

/// The addresses that `accounts` has a record of or `storages` a write to.
fn touched_addresses(
    accounts: &OrderedMap<H160, ExecutorAccount>,
    storages: &OrderedMap<StorageKey, U256>,
) -> (r: OrderedSet<H160>)
    requires
        accounts.wf(),
        storages.wf(),
    ensures
        r.wf(),
        r@ == Set::new(|a: H160| accounts@.contains_key(a) || has_slot(storages@, a)),
{
    let mut r: OrderedSet<H160> = OrderedSet::new();
    let mut i: usize = 0;
    proof {
        lemma_take_ends(accounts.entries());
        assert(r@ =~= entries_map(accounts.entries().take(0)).dom());
    }
    while i < accounts.len()
        invariant
            i <= accounts.entries().len(),
            accounts.wf(),
            r.wf(),
            r@ == entries_map(accounts.entries().take(i as int)).dom(),
        decreases accounts.entries().len() - i,
    {
        proof {
            lemma_take_step(accounts.entries(), i as int);
        }
        r.insert(accounts.key_at(i));
        assert(r@ =~= entries_map(accounts.entries().take(i + 1)).dom());
        i += 1;
    }
    let mut j: usize = 0;
    proof {
        lemma_take_ends(accounts.entries());
        lemma_take_ends(storages.entries());
        assert(r@ =~= Set::new(
            |a: H160|
                accounts@.contains_key(a) || has_slot(
                    entries_map(storages.entries().take(0)),
                    a,
                ),
        ));
    }
    while j < storages.len()
        invariant
            j <= storages.entries().len(),
            storages.wf(),
            r.wf(),
            r@ == Set::new(
                |a: H160|
                    accounts@.contains_key(a) || has_slot(
                        entries_map(storages.entries().take(j as int)),
                        a,
                    ),
            ),
        decreases storages.entries().len() - j,
    {
        let key = storages.key_at(j);
        let ghost before = entries_map(storages.entries().take(j as int));
        let ghost after = entries_map(storages.entries().take(j + 1));
        proof {
            lemma_take_step(storages.entries(), j as int);
            assert forall|a: H160| has_slot(after, a) <==> (has_slot(before, a) || a
                == key.address) by {
                if has_slot(after, a) {
                    let slot = choose|slot: U256| #[trigger]
                        after.contains_key(StorageKey { address: a, slot });
                    if (StorageKey { address: a, slot }) != key {
                        assert(before.contains_key(StorageKey { address: a, slot }));
                    }
                }
                if has_slot(before, a) {
                    let slot = choose|slot: U256| #[trigger]
                        before.contains_key(StorageKey { address: a, slot });
                    assert(after.contains_key(StorageKey { address: a, slot }));
                }
                if a == key.address {
                    assert(after.contains_key(StorageKey { address: a, slot: key.slot }));
                }
            }
        }
        r.insert(key.address);
        assert(r@ =~= Set::new(|a: H160| accounts@.contains_key(a) || has_slot(after, a)));
        j += 1;
    }
    proof {
        lemma_take_ends(storages.entries());
    }
    r
}

/// The writes in `storages` to the slots of `address`, by slot.
fn slot_writes_of(storages: &OrderedMap<StorageKey, U256>, address: H160) -> (r: OrderedMap<
    U256,
    U256,
>)
    requires
        storages.wf(),
    ensures
        r.wf(),
        r@ == slot_writes(storages@, address),
{
    let mut r: OrderedMap<U256, U256> = OrderedMap::new();
    let mut i: usize = 0;
    proof {
        lemma_take_ends(storages.entries());
        assert(r@ =~= slot_writes(entries_map(storages.entries().take(0)), address));
    }
    while i < storages.len()
        invariant
            i <= storages.entries().len(),
            storages.wf(),
            r.wf(),
            r@ == slot_writes(entries_map(storages.entries().take(i as int)), address),
        decreases storages.entries().len() - i,
    {
        let key = storages.key_at(i);
        let value = *storages.value_at(i);
        let ghost before = entries_map(storages.entries().take(i as int));
        proof {
            lemma_take_step(storages.entries(), i as int);
        }
        if key.address == address {
            r.insert(key.slot, value);
        }
        assert(r@ =~= slot_writes(before.insert(key, value), address));
        i += 1;
    }
    proof {
        lemma_take_ends(storages.entries());
    }
    r
}

/// The addresses whose record in `accounts` is marked reset.
fn addresses_reset_in(accounts: &OrderedMap<H160, ExecutorAccount>) -> (r: OrderedSet<H160>)
    requires
        accounts.wf(),
    ensures
        r.wf(),
        r@ == reset_addresses(accounts_view(accounts@)),
{
    let mut r: OrderedSet<H160> = OrderedSet::new();
    let mut i: usize = 0;
    proof {
        lemma_take_ends(accounts.entries());
        assert(r@ =~= reset_addresses(
            accounts_view(entries_map(accounts.entries().take(0))),
        ));
    }
    while i < accounts.len()
        invariant
            i <= accounts.entries().len(),
            accounts.wf(),
            r.wf(),
            r@ == reset_addresses(
                accounts_view(entries_map(accounts.entries().take(i as int))),
            ),
        decreases accounts.entries().len() - i,
    {
        let address = accounts.key_at(i);
        proof {
            lemma_take_step(accounts.entries(), i as int);
        }
        let ghost before = entries_map(accounts.entries().take(i as int));
        let ghost account = accounts.entries()[i as int].1;
        if accounts.value_at(i).reset {
            r.insert(address);
        }
        assert(r@ =~= reset_addresses(
            accounts_view(before.insert(address, account)),
        ));
        i += 1;
    }
    proof {
        lemma_take_ends(accounts.entries());
    }
    r
}

/// Marks the records of `addresses` in `accounts` reset.
fn mark_reset(accounts: &mut OrderedMap<H160, ExecutorAccount>, addresses: &OrderedSet<H160>)
    requires
        old(accounts).wf(),
        addresses.wf(),
    ensures
        final(accounts).wf(),
        accounts_view(final(accounts)@) == marked_reset(
            accounts_view(old(accounts)@),
            addresses@,
        ),
{
    let mut i: usize = 0;
    let ghost start = accounts_view(accounts@);
    proof {
        lemma_take_ends(addresses.entries());
        assert(start =~= marked_reset(start, entries_map(addresses.entries().take(0)).dom()));
    }
    while i < addresses.len()
        invariant
            i <= addresses.entries().len(),
            accounts.wf(),
            addresses.wf(),
            accounts_view(accounts@) == marked_reset(
                start,
                entries_map(addresses.entries().take(i as int)).dom(),
            ),
        decreases addresses.entries().len() - i,
    {
        let address = addresses.key_at(i);
        proof {
            lemma_take_step(addresses.entries(), i as int);
        }
        let ghost before = entries_map(addresses.entries().take(i as int)).dom();
        let ghost held = accounts@;
        assert(entries_map(addresses.entries().take(i + 1)).dom() =~= before.insert(address));
        assert forall|k: H160| #[trigger]
            held.contains_key(k) implies start.contains_key(k) && held[k]@ == marked_reset(
            start,
            before,
        )[k] by {
            assert(accounts_view(held).contains_key(k));
            assert(accounts_view(held)[k] == held[k]@);
        }
        assert forall|k: H160| #[trigger] start.contains_key(k) implies held.contains_key(k) by {
            assert(marked_reset(start, before).contains_key(k));
            assert(accounts_view(held).contains_key(k));
        }
        match accounts.remove(&address) {
            Some(account) => {
                let marked = ExecutorAccount {
                    nonce: account.nonce,
                    code: account.code,
                    valids: account.valids,
                    reset: true,
                };
                accounts.insert(address, marked);
                assert(accounts@ =~= held.insert(address, marked));
                assert(marked@ == (AccountView { reset: true, ..held[address]@ }));
                assert(accounts_view(accounts@) =~= marked_reset(
                    start,
                    before.insert(address),
                ));
            },
            None => {
                assert(accounts@ =~= held);
                assert(accounts_view(accounts@) =~= marked_reset(
                    start,
                    before.insert(address),
                ));
            },
        }
        i += 1;
    }
    proof {
        lemma_take_ends(addresses.entries());
    }
}

/// The slots of the accounts in `addresses`.
pub open spec fn slots_of(addresses: Set<H160>) -> Set<StorageKey> {
    Set::new(|k: StorageKey| addresses.contains(k.address))
}

/// The writes in `storages` that belong to none of `addresses`.
pub(crate) fn without_slots_of(storages: &OrderedMap<StorageKey, U256>, addresses: &OrderedSet<H160>) -> (r:
    OrderedMap<StorageKey, U256>)
    requires
        storages.wf(),
        addresses.wf(),
    ensures
        r.wf(),
        r@ == storages@.remove_keys(slots_of(addresses@)),
{
    let mut r: OrderedMap<StorageKey, U256> = OrderedMap::new();
    let mut i: usize = 0;
    proof {
        lemma_take_ends(storages.entries());
        assert(r@ =~= entries_map(storages.entries().take(0)).remove_keys(slots_of(addresses@)));
    }
    while i < storages.len()
        invariant
            i <= storages.entries().len(),
            storages.wf(),
            addresses.wf(),
            r.wf(),
            r@ == entries_map(storages.entries().take(i as int)).remove_keys(slots_of(addresses@)),
        decreases storages.entries().len() - i,
    {
        let key = storages.key_at(i);
        let value = *storages.value_at(i);
        proof {
            lemma_take_step(storages.entries(), i as int);
        }
        let ghost before = entries_map(storages.entries().take(i as int));
        if !addresses.contains(&key.address) {
            r.insert(key, value);
            assert(r@ =~= before.insert(key, value).remove_keys(slots_of(addresses@)));
        } else {
            assert(r@ =~= before.insert(key, value).remove_keys(slots_of(addresses@)));
        }
        i += 1;
    }
    proof {
        lemma_take_ends(storages.entries());
    }
    r
}

/// The journal of a transaction together with the backend it reads
/// through.
pub struct ExecutorState<'a, B: StorageInterface> {
    backend: &'a B,
    substate: Box<ExecutorSubstate>,
}

impl<'a, B: StorageInterface> ExecutorState<'a, B> {
    /// The backend that the journal reads through.
    pub closed spec fn backend_view(self) -> &'a B {
        self.backend
    }

    /// The journal.
    pub closed spec fn substate_view(self) -> ExecutorSubstate {
        *self.substate
    }

    /// Puts a journal and its backend together.
    pub fn new(substate: ExecutorSubstate, backend: &'a B) -> (r: Self)
        ensures
            r.backend_view() == backend,
            r.substate_view() == substate,
    {
        ExecutorState { backend, substate: Box::new(substate) }
    }

    /// The backend that the journal reads through.
    pub fn backend(&self) -> (r: &'a B)
        ensures
            r == self.backend_view(),
    {
        self.backend
    }

    /// The journal.
    pub fn substate(&self) -> (r: &ExecutorSubstate)
        ensures
            *r == self.substate_view(),
    {
        &*self.substate
    }

    /// Ends the journal of a transaction that succeeded and returns its
    /// diff with the events and transfers of the root frame.
    pub fn deconstruct(self) -> (r: ApplyState)
        requires
            self.substate_view().wf(),
            self.substate_view()@.parent is None,
            self.backend_view().readable(),
        ensures
            exists|split: int| #[trigger]
                is_diff(self.substate_view()@, self.backend_view(), applies_view(r.0@), split),
            forall|i: int| 0 <= i < r.0@.len() ==> (#[trigger] r.0@[i]).wf(),
            logs_view(r.1@) == self.substate_view()@.logs,
            r.2@ == self.substate_view()@.transfers,
    {
        let substate = *self.substate;
        substate.deconstruct(self.backend)
    }
}

} // verus!
