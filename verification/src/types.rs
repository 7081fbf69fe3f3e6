//! Data model: asset keys, registry and price records, tasks and their
//! actions, errors, notification events, and the chain's weight constants.

use vstd::prelude::*;

use crate::assoc::AssocKey;

verus! {

/// Cost of one storage read, in weight units.
pub const DB_READ_WEIGHT: u64 = 25_000;

/// Cost of one storage write, in weight units.
pub const DB_WRITE_WEIGHT: u64 = 100_000;

/// Cost of depositing one notification event.
pub const EMIT_EVENT_WEIGHT: u64 = 20_000;

/// Fixed dispatch cost of a native transfer action.
pub const NATIVE_TRANSFER_WEIGHT: u64 = 300_000;

/// Fixed placeholder dispatch cost of a cross-chain action.
pub const XCMP_TASK_WEIGHT: u64 = 1_000_000;

/// Fixed bookkeeping charged per executed task: one record deletion and one
/// record lookup.
pub const TASK_OVERHEAD_WEIGHT: u64 = DB_WRITE_WEIGHT + DB_READ_WEIGHT;

/// Cost of checking the block time and the periodic-deletion bookkeeping:
/// two storage reads.
pub const CHECK_TIME_AND_DELETION_WEIGHT: u64 = DB_READ_WEIGHT + DB_READ_WEIGHT;

/// Cost of purging one asset during a periodic reset.
pub const RESET_ASSET_WEIGHT: u64 = 500_000;

/// The whole block's weight cap.
pub const MAX_BLOCK_WEIGHT: u64 = 1_000_000_000_000;

/// Share of the block weight available to the scheduler, in parts per billion.
pub const MAX_WEIGHT_PER_BILLION: u64 = 100_000_000;

/// Denominator of [`MAX_WEIGHT_PER_BILLION`].
pub const PER_BILLION: u64 = 1_000_000_000;

/// The minimum balance an account must keep to stay alive.
pub const EXISTENTIAL_DEPOSIT: u128 = 10;

/// The location format version this chain understands.
pub const LOCATION_VERSION: u8 = 3;

/// An account identifier.
pub type AccountId = u64;

/// A task identifier: a printable byte string, globally unique.
pub type TaskId = Vec<u8>;

/// The composite key that identifies a tracked asset pair:
/// (chain, exchange, first asset, second asset).
#[derive(Debug, Clone, PartialEq, Eq)]
pub struct AssetKey {
    pub chain: Vec<u8>,
    pub exchange: Vec<u8>,
    pub asset1: Vec<u8>,
    pub asset2: Vec<u8>,
}

/// The view of an [`AssetKey`]: the four name components.
pub type AssetKeyV = (Seq<u8>, Seq<u8>, Seq<u8>, Seq<u8>);

impl View for AssetKey {
    type V = AssetKeyV;

    open spec fn view(&self) -> AssetKeyV {
        (self.chain@, self.exchange@, self.asset1@, self.asset2@)
    }
}

/// Compares two byte strings by content.
pub fn bytes_eq(a: &Vec<u8>, b: &Vec<u8>) -> (r: bool)
    ensures
        r == (a@ == b@),
{
    if a.len() != b.len() {
        return false;
    }
    let n = a.len();
    let mut i: usize = 0;
    while i < n
        invariant
            n == a@.len(),
            n == b@.len(),
            i <= n,
            forall|j: int| 0 <= j < i ==> a@[j] == b@[j],
        decreases n - i,
    {
        if a[i] != b[i] {
            return false;
        }
        i = i + 1;
    }
    proof {
        assert(a@ =~= b@);
    }
    true
}

/// Copies a byte string.
pub fn clone_bytes(v: &Vec<u8>) -> (r: Vec<u8>)
    ensures
        r@ == v@,
{
    let mut r: Vec<u8> = Vec::new();
    let n = v.len();
    let mut i: usize = 0;
    while i < n
        invariant
            n == v@.len(),
            i <= n,
            r@ == v@.take(i as int),
        decreases n - i,
    {
        r.push(v[i]);
        proof {
            assert(v@.take(i + 1 as int) =~= v@.take(i as int).push(v@[i as int]));
        }
        i = i + 1;
    }
    proof {
        assert(v@.take(n as int) =~= v@);
    }
    r
}

/// Whether an account list holds `a`.
pub fn account_in(v: &Vec<AccountId>, a: AccountId) -> (r: bool)
    ensures
        r == v@.contains(a),
{
    let n = v.len();
    let mut i: usize = 0;
    while i < n
        invariant
            n == v@.len(),
            i <= n,
            forall|j: int| 0 <= j < i ==> v@[j] != a,
        decreases n - i,
    {
        if v[i] == a {
            return true;
        }
        i = i + 1;
    }
    false
}

impl AssocKey for Vec<u8> {
    fn key_eq(&self, other: &Self) -> (r: bool) {
        bytes_eq(self, other)
    }
}

impl AssocKey for AssetKey {
    fn key_eq(&self, other: &Self) -> (r: bool) {
        let r = bytes_eq(&self.chain, &other.chain) && bytes_eq(&self.exchange, &other.exchange)
            && bytes_eq(&self.asset1, &other.asset1) && bytes_eq(&self.asset2, &other.asset2);
        r
    }
}

/// Metadata of a tracked asset pair.
#[derive(Debug, Clone, PartialEq, Eq)]
pub struct RegistryInfo {
    pub round: u128,
    pub decimal: u8,
    pub last_update: u64,
    pub oracle_providers: Vec<AccountId>,
}

/// The view of a [`RegistryInfo`].
pub struct RegistryInfoV {
    pub round: u128,
    pub decimal: u8,
    pub last_update: u64,
    pub oracle_providers: Seq<AccountId>,
}

impl View for RegistryInfo {
    type V = RegistryInfoV;

    open spec fn view(&self) -> RegistryInfoV {
        RegistryInfoV {
            round: self.round,
            decimal: self.decimal,
            last_update: self.last_update,
            oracle_providers: self.oracle_providers@,
        }
    }
}

/// The latest published price of a tracked asset pair; last write wins.
#[derive(PartialEq, Eq, Structural, Clone, Copy, Debug)]
pub struct PriceData {
    pub round: u128,
    pub nonce: u128,
    pub amount: u128,
}

/// How a cross-chain instruction pays its execution.
#[derive(PartialEq, Eq, Structural, Clone, Copy, Debug)]
pub enum InstructionSequence {
    PayThroughSovereignAccount,
    PayThroughRemoteDerivativeAccount,
}

/// A location in a versioned wire format; only [`LOCATION_VERSION`] can be
/// decoded into a usable location.
#[derive(Debug, Clone, PartialEq, Eq)]
pub struct LocationInput {
    pub version: u8,
    pub payload: Vec<u8>,
}

/// The view of a [`LocationInput`].
pub struct LocationInputV {
    pub version: u8,
    pub payload: Seq<u8>,
}

impl View for LocationInput {
    type V = LocationInputV;

    open spec fn view(&self) -> LocationInputV {
        LocationInputV { version: self.version, payload: self.payload@ }
    }
}

/// The fee asset and amount paying for a cross-chain execution.
#[derive(Debug, Clone, PartialEq, Eq)]
pub struct AssetPayment {
    pub asset_location: LocationInput,
    pub amount: u128,
}

/// The view of an [`AssetPayment`].
pub struct AssetPaymentV {
    pub asset_location: LocationInputV,
    pub amount: u128,
}

impl View for AssetPayment {
    type V = AssetPaymentV;

    open spec fn view(&self) -> AssetPaymentV {
        AssetPaymentV { asset_location: self.asset_location@, amount: self.amount }
    }
}

/// What a task does when it executes.
#[derive(Debug, Clone, PartialEq, Eq)]
pub enum Action {
    /// A balance transfer that keeps the sender alive.
    NativeTransfer { sender: AccountId, recipient: AccountId, amount: u128 },
    /// A cross-chain call forwarded to a destination location.
    XCMP {
        destination: Vec<u8>,
        schedule_fee: Vec<u8>,
        execution_fee: AssetPayment,
        encoded_call: Vec<u8>,
        encoded_call_weight: u64,
        overall_weight: u64,
        schedule_as: Option<AccountId>,
        instruction_sequence: InstructionSequence,
    },
}

/// The view of an [`Action`].
pub enum ActionV {
    NativeTransfer { sender: AccountId, recipient: AccountId, amount: u128 },
    XCMP {
        destination: Seq<u8>,
        schedule_fee: Seq<u8>,
        execution_fee: AssetPaymentV,
        encoded_call: Seq<u8>,
        encoded_call_weight: u64,
        overall_weight: u64,
        schedule_as: Option<AccountId>,
        instruction_sequence: InstructionSequence,
    },
}

impl View for Action {
    type V = ActionV;

    open spec fn view(&self) -> ActionV {
        match self {
            Action::NativeTransfer { sender, recipient, amount } => ActionV::NativeTransfer {
                sender: *sender,
                recipient: *recipient,
                amount: *amount,
            },
            Action::XCMP {
                destination,
                schedule_fee,
                execution_fee,
                encoded_call,
                encoded_call_weight,
                overall_weight,
                schedule_as,
                instruction_sequence,
            } => ActionV::XCMP {
                destination: destination@,
                schedule_fee: schedule_fee@,
                execution_fee: execution_fee@,
                encoded_call: encoded_call@,
                encoded_call_weight: *encoded_call_weight,
                overall_weight: *overall_weight,
                schedule_as: *schedule_as,
                instruction_sequence: *instruction_sequence,
            },
        }
    }
}

/// Everything needed to run a scheduled task. Immutable once scheduled.
#[derive(Debug, PartialEq, Eq)]
pub struct Task {
    pub owner_id: AccountId,
    pub task_id: TaskId,
    pub chain: Vec<u8>,
    pub exchange: Vec<u8>,
    pub asset_pair: (Vec<u8>, Vec<u8>),
    pub trigger_function: Vec<u8>,
    pub trigger_params: Vec<u128>,
    pub action: Action,
}

/// The view of a [`Task`].
pub struct TaskV {
    pub owner_id: AccountId,
    pub task_id: Seq<u8>,
    pub chain: Seq<u8>,
    pub exchange: Seq<u8>,
    pub asset_pair: (Seq<u8>, Seq<u8>),
    pub trigger_function: Seq<u8>,
    pub trigger_params: Seq<u128>,
    pub action: ActionV,
}

impl View for Task {
    type V = TaskV;

    open spec fn view(&self) -> TaskV {
        TaskV {
            owner_id: self.owner_id,
            task_id: self.task_id@,
            chain: self.chain@,
            exchange: self.exchange@,
            asset_pair: (self.asset_pair.0@, self.asset_pair.1@),
            trigger_function: self.trigger_function@,
            trigger_params: self.trigger_params@,
            action: self.action@,
        }
    }
}

impl TaskV {
    /// The asset key the task is registered under.
    pub open spec fn key(self) -> AssetKeyV {
        (self.chain, self.exchange, self.asset_pair.0, self.asset_pair.1)
    }
}

impl Task {
    /// Builds a task whose action transfers `amount` from its owner to
    /// `recipient`.
    pub fn create_event_task(
        owner_id: AccountId,
        chain: Vec<u8>,
        exchange: Vec<u8>,
        task_id: Vec<u8>,
        asset_pair: (Vec<u8>, Vec<u8>),
        recipient: AccountId,
        amount: u128,
    ) -> (r: Task)
        ensures
            r@ == (TaskV {
                owner_id: owner_id,
                task_id: task_id@,
                chain: chain@,
                exchange: exchange@,
                asset_pair: (asset_pair.0@, asset_pair.1@),
                trigger_function: seq![1u8],
                trigger_params: seq![1u128],
                action: ActionV::NativeTransfer { sender: owner_id, recipient: recipient, amount: amount },
            }),
    {
        let action = Action::NativeTransfer { sender: owner_id, recipient, amount };
        let mut trigger_function: Vec<u8> = Vec::new();
        trigger_function.push(1u8);
        let mut trigger_params: Vec<u128> = Vec::new();
        trigger_params.push(1u128);
        proof {
            assert(trigger_function@ =~= seq![1u8]);
            assert(trigger_params@ =~= seq![1u128]);
        }
        Task { owner_id, task_id, chain, exchange, asset_pair, trigger_function, trigger_params, action }
    }
}

/// Why an operation was rejected, or why a scheduled transfer failed.
#[derive(PartialEq, Eq, Structural, Clone, Copy, Debug)]
pub enum Error {
    /// The provided task id is empty.
    EmptyProvidedId,
    /// Time must end in a whole slot.
    InvalidTime,
    /// The task already exists.
    DuplicateTask,
    /// The asset is not known at all.
    AssetNotSupported,
    /// The asset has not been initialized.
    AssetNotInitialized,
    /// The asset is already supported.
    AssetAlreadySupported,
    /// The asset is already initialized.
    AssetAlreadyInitialized,
    /// The account may not administer this asset.
    InvalidAssetSudo,
    /// The caller is not an authorized oracle provider for the asset.
    OracleNotAuthorized,
    /// The asset is outside its triggerable range.
    AssetNotInTriggerableRange,
    /// The block time is not set yet.
    BlockTimeNotSet,
    /// The expiration window for a new asset is invalid.
    InvalidAssetExpirationWindow,
    /// The slot already holds its maximum number of tasks.
    MaxTasksReached,
    /// The task could not be inserted.
    TaskInsertionFailure,
    /// The sender's balance cannot cover the transfer.
    InsufficientBalance,
    /// The transfer would drain the sender below the existential deposit.
    LiquidityRestrictions,
    /// Too many assets have been created.
    AssetLimitReached,
    /// A location was given in an unsupported format version.
    BadVersion,
    /// The batch's component lists have differing lengths.
    InvalidBatchLength,
    /// Crediting the recipient would overflow its balance.
    BalanceOverflow,
}

/// Who signed or authorized an inbound transaction.
#[derive(PartialEq, Eq, Structural, Clone, Copy, Debug)]
pub enum Origin {
    /// Root-level authority.
    Root,
    /// A signed account.
    Signed(AccountId),
    /// No authority.
    Unsigned,
}

/// Why an inbound transaction was rejected.
#[derive(PartialEq, Eq, Structural, Clone, Copy, Debug)]
pub enum DispatchError {
    /// The transaction's origin lacks the required authority.
    BadOrigin,
    /// The module rejected the transaction.
    Module(Error),
}

/// An observable notification deposited by the pallet.
#[derive(Debug, Clone, PartialEq, Eq)]
pub enum Event {
    TaskScheduled { who: AccountId, task_id: TaskId },
    Notify { message: Vec<u8> },
    TaskNotFound { task_id: TaskId },
    AssetCreated { chain: Vec<u8>, exchange: Vec<u8>, asset1: Vec<u8>, asset2: Vec<u8>, decimal: u8 },
    AssetUpdated { asset: Vec<u8> },
    AssetDeleted { asset: Vec<u8> },
    AssetPeriodReset { asset: Vec<u8> },
    SuccessfullyTransferredFunds { task_id: TaskId },
    TransferFailed { task_id: TaskId, error: Error },
}

/// The view of an [`Event`].
pub enum EventV {
    TaskScheduled { who: AccountId, task_id: Seq<u8> },
    Notify { message: Seq<u8> },
    TaskNotFound { task_id: Seq<u8> },
    AssetCreated { chain: Seq<u8>, exchange: Seq<u8>, asset1: Seq<u8>, asset2: Seq<u8>, decimal: u8 },
    AssetUpdated { asset: Seq<u8> },
    AssetDeleted { asset: Seq<u8> },
    AssetPeriodReset { asset: Seq<u8> },
    SuccessfullyTransferredFunds { task_id: Seq<u8> },
    TransferFailed { task_id: Seq<u8>, error: Error },
}

impl View for Event {
    type V = EventV;

    open spec fn view(&self) -> EventV {
        match self {
            Event::TaskScheduled { who, task_id } => EventV::TaskScheduled {
                who: *who,
                task_id: task_id@,
            },
            Event::Notify { message } => EventV::Notify { message: message@ },
            Event::TaskNotFound { task_id } => EventV::TaskNotFound { task_id: task_id@ },
            Event::AssetCreated { chain, exchange, asset1, asset2, decimal } => EventV::AssetCreated {
                chain: chain@,
                exchange: exchange@,
                asset1: asset1@,
                asset2: asset2@,
                decimal: *decimal,
            },
            Event::AssetUpdated { asset } => EventV::AssetUpdated { asset: asset@ },
            Event::AssetDeleted { asset } => EventV::AssetDeleted { asset: asset@ },
            Event::AssetPeriodReset { asset } => EventV::AssetPeriodReset { asset: asset@ },
            Event::SuccessfullyTransferredFunds { task_id } => EventV::SuccessfullyTransferredFunds {
                task_id: task_id@,
            },
            Event::TransferFailed { task_id, error } => EventV::TransferFailed {
                task_id: task_id@,
                error: *error,
            },
        }
    }
}

/// One pending unit of work in the global task queue.
#[derive(Debug, Clone, PartialEq, Eq)]
pub struct QueueEntry {
    pub asset: Vec<u8>,
    pub task_id: TaskId,
}

/// The view of a [`QueueEntry`].
pub struct QueueEntryV {
    pub asset: Seq<u8>,
    pub task_id: Seq<u8>,
}

impl View for QueueEntry {
    type V = QueueEntryV;

    open spec fn view(&self) -> QueueEntryV {
        QueueEntryV { asset: self.asset@, task_id: self.task_id@ }
    }
}

/// A cross-chain instruction handed to the message transport.
#[derive(Debug, Clone, PartialEq, Eq)]
pub struct XcmpMessage {
    pub destination: Vec<u8>,
    pub encoded_call: Vec<u8>,
    pub overall_weight: u64,
}

/// The view of an [`XcmpMessage`].
pub struct XcmpMessageV {
    pub destination: Seq<u8>,
    pub encoded_call: Seq<u8>,
    pub overall_weight: u64,
}

impl View for XcmpMessage {
    type V = XcmpMessageV;

    open spec fn view(&self) -> XcmpMessageV {
        XcmpMessageV {
            destination: self.destination@,
            encoded_call: self.encoded_call@,
            overall_weight: self.overall_weight,
        }
    }
}

} // verus!
