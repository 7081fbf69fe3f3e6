//! The mathematical model of the pallet: an abstract state, and the meaning
//! of every operation — in particular the weight-metered execution engine —
//! as functions over that state.

use vstd::prelude::*;

use crate::types::{
    AccountId, ActionV, AssetKeyV, Error, EventV, PriceData, QueueEntryV, RegistryInfoV, TaskV,
    XcmpMessageV, CHECK_TIME_AND_DELETION_WEIGHT, DB_READ_WEIGHT, DB_WRITE_WEIGHT,
    EMIT_EVENT_WEIGHT, EXISTENTIAL_DEPOSIT, MAX_BLOCK_WEIGHT, MAX_WEIGHT_PER_BILLION,
    NATIVE_TRANSFER_WEIGHT, PER_BILLION, RESET_ASSET_WEIGHT, TASK_OVERHEAD_WEIGHT,
    XCMP_TASK_WEIGHT,
};

verus! {

/// The abstract state of the pallet: every keyed store as a `Map`, every
/// sequence as a `Seq`, together with the block context the host supplies.
#[verifier::ext_equal]
pub struct StateV {
    /// Metadata per tracked asset pair.
    pub asset_registry: Map<AssetKeyV, RegistryInfoV>,
    /// Latest price per tracked asset pair.
    pub price_registry: Map<AssetKeyV, PriceData>,
    /// Per asset pair, the map from task id to its primary trigger threshold.
    pub sorted_tasks_index: Map<AssetKeyV, Map<Seq<u8>, u128>>,
    /// All live tasks, by task id.
    pub tasks: Map<Seq<u8>, TaskV>,
    /// Reverse index: owner account to its task ids.
    pub account_tasks: Map<AccountId, Seq<Seq<u8>>>,
    /// Pending work, in insertion order.
    pub task_queue: Seq<QueueEntryV>,
    /// Per time slot, the asset names due for a periodic reset.
    pub scheduled_asset_deletion: Map<u64, Seq<Seq<u8>>>,
    /// When set, the engine is a no-op.
    pub shutdown: bool,
    /// The current block number.
    pub block_number: u64,
    /// The current transaction's position in the block.
    pub extrinsic_index: u32,
    /// The current block timestamp, in milliseconds.
    pub timestamp: u64,
    /// The notifications deposited so far.
    pub events: Seq<EventV>,
    /// The balance ledger the native-transfer action works on.
    pub balances: Map<AccountId, u128>,
    /// The cross-chain instructions handed to the transport.
    pub outbound_xcmp: Seq<XcmpMessageV>,
}

/// The state of a fresh pallet: every store empty, not shut down, block
/// context zero.
pub open spec fn empty_state() -> StateV {
    StateV {
        asset_registry: Map::empty(),
        price_registry: Map::empty(),
        sorted_tasks_index: Map::empty(),
        tasks: Map::empty(),
        account_tasks: Map::empty(),
        task_queue: Seq::empty(),
        scheduled_asset_deletion: Map::empty(),
        shutdown: false,
        block_number: 0,
        extrinsic_index: 0,
        timestamp: 0,
        events: Seq::empty(),
        balances: Map::empty(),
        outbound_xcmp: Seq::empty(),
    }
}

/// Maps every value of a map through its view.
pub open spec fn map_view_values<K, T: View>(m: Map<K, T>) -> Map<K, T::V> {
    Map::new(|k: K| m.dom().contains(k), |k: K| m[k]@)
}

/// Maps every element of a sequence through its view.
pub open spec fn seq_view<T: View>(s: Seq<T>) -> Seq<T::V> {
    s.map_values(|x: T| x@)
}

/// The views of a list of byte strings.
pub open spec fn bytes_seq_view(s: Seq<Vec<u8>>) -> Seq<Seq<u8>> {
    s.map_values(|v: Vec<u8>| v@)
}

/// Maps every value of a map of byte-string lists through [`bytes_seq_view`].
pub open spec fn map_ids_view<K>(m: Map<K, Vec<Vec<u8>>>) -> Map<K, Seq<Seq<u8>>> {
    Map::new(|k: K| m.dom().contains(k), |k: K| bytes_seq_view(m[k]@))
}

pub proof fn lemma_map_view_insert<K, T: View>(m: Map<K, T>, k: K, v: T)
    ensures
        map_view_values(m.insert(k, v)) == map_view_values(m).insert(k, v@),
{
    assert(map_view_values(m.insert(k, v)) =~= map_view_values(m).insert(k, v@));
}

pub proof fn lemma_map_view_remove<K, T: View>(m: Map<K, T>, k: K)
    ensures
        map_view_values(m.remove(k)) == map_view_values(m).remove(k),
{
    assert(map_view_values(m.remove(k)) =~= map_view_values(m).remove(k));
}

pub proof fn lemma_map_ids_view_insert<K>(m: Map<K, Vec<Vec<u8>>>, k: K, v: Vec<Vec<u8>>)
    ensures
        map_ids_view(m.insert(k, v)) == map_ids_view(m).insert(k, bytes_seq_view(v@)),
{
    assert(map_ids_view(m.insert(k, v)) =~= map_ids_view(m).insert(k, bytes_seq_view(v@)));
}

pub proof fn lemma_map_ids_view_remove<K>(m: Map<K, Vec<Vec<u8>>>, k: K)
    ensures
        map_ids_view(m.remove(k)) == map_ids_view(m).remove(k),
{
    assert(map_ids_view(m.remove(k)) =~= map_ids_view(m).remove(k));
}

pub proof fn lemma_seq_view_push<T: View>(s: Seq<T>, x: T)
    ensures
        seq_view(s.push(x)) == seq_view(s).push(x@),
{
    assert(seq_view(s.push(x)) =~= seq_view(s).push(x@));
}

pub proof fn lemma_seq_view_skip<T: View>(s: Seq<T>, n: int)
    requires
        0 <= n <= s.len(),
    ensures
        seq_view(s.skip(n)) == seq_view(s).skip(n),
{
    assert(seq_view(s.skip(n)) =~= seq_view(s).skip(n));
}

pub proof fn lemma_bytes_seq_view_push(s: Seq<Vec<u8>>, x: Vec<u8>)
    ensures
        bytes_seq_view(s.push(x)) == bytes_seq_view(s).push(x@),
{
    assert(bytes_seq_view(s.push(x)) =~= bytes_seq_view(s).push(x@));
}

/// Subtraction that stops at zero.
pub open spec fn sat_sub(a: u64, b: u64) -> u64 {
    if a >= b {
        (a - b) as u64
    } else {
        0
    }
}

/// The weight of purging `n` assets in one periodic reset.
pub open spec fn reset_cost(n: nat) -> int {
    RESET_ASSET_WEIGHT * n
}

/// The balance of an account; absent accounts hold zero.
pub open spec fn bal_of(b: Map<AccountId, u128>, a: AccountId) -> u128 {
    if b.dom().contains(a) {
        b[a]
    } else {
        0
    }
}

/// What a keep-alive transfer does to the ledger: the new ledger on success,
/// or the exact failure cause.
pub open spec fn transfer_updates(
    b: Map<AccountId, u128>,
    sender: AccountId,
    recipient: AccountId,
    amount: u128,
) -> Result<Map<AccountId, u128>, Error> {
    let sb = bal_of(b, sender);
    if amount > sb {
        Err(Error::InsufficientBalance)
    } else if sender == recipient {
        Ok(b)
    } else if sb - amount < EXISTENTIAL_DEPOSIT {
        Err(Error::LiquidityRestrictions)
    } else if bal_of(b, recipient) + amount > u128::MAX {
        Err(Error::BalanceOverflow)
    } else {
        Ok(
            b.insert(sender, (sb - amount) as u128).insert(
                recipient,
                (bal_of(b, recipient) + amount) as u128,
            ),
        )
    }
}

/// The dispatch cost of an action: a pure function of its kind.
pub open spec fn action_weight(a: ActionV) -> u64 {
    match a {
        ActionV::NativeTransfer { .. } => NATIVE_TRANSFER_WEIGHT,
        ActionV::XCMP { .. } => XCMP_TASK_WEIGHT,
    }
}

/// What one queue entry costs to consume: the action's weight plus the fixed
/// bookkeeping, or the cost of reporting a missing task.
pub open spec fn entry_cost(tasks: Map<Seq<u8>, TaskV>, e: QueueEntryV) -> u64 {
    if tasks.dom().contains(e.task_id) {
        (action_weight(tasks[e.task_id].action) + TASK_OVERHEAD_WEIGHT) as u64
    } else {
        EMIT_EVENT_WEIGHT
    }
}

/// The state after dispatching a task's action; the task id names the task in
/// the resulting notification.
pub open spec fn dispatch_model(s: StateV, t: TaskV, id: Seq<u8>) -> StateV {
    match t.action {
        ActionV::NativeTransfer { sender, recipient, amount } => {
            match transfer_updates(s.balances, sender, recipient, amount) {
                Ok(b2) => StateV {
                    balances: b2,
                    events: s.events.push(EventV::SuccessfullyTransferredFunds { task_id: id }),
                    ..s
                },
                Err(e) => StateV {
                    events: s.events.push(EventV::TransferFailed { task_id: id, error: e }),
                    ..s
                },
            }
        },
        ActionV::XCMP { destination, encoded_call, overall_weight, .. } => StateV {
            outbound_xcmp: s.outbound_xcmp.push(
                XcmpMessageV { destination, encoded_call, overall_weight },
            ),
            ..s
        },
    }
}

/// The state after consuming one queue entry: its task is dispatched and
/// removed, or a not-found notification is deposited.
pub open spec fn exec_entry_model(s: StateV, e: QueueEntryV) -> StateV {
    if s.tasks.dom().contains(e.task_id) {
        let t = s.tasks[e.task_id];
        let s2 = dispatch_model(s, t, e.task_id);
        StateV { tasks: s2.tasks.remove(e.task_id), ..s2 }
    } else {
        StateV { events: s.events.push(EventV::TaskNotFound { task_id: e.task_id }), ..s }
    }
}

/// How many queue entries the engine consumes: it stops at the first entry
/// whose cost the remaining weight cannot cover.
pub open spec fn steps_taken(s: StateV, q: Seq<QueueEntryV>, wl: u64) -> int
    decreases q.len(),
{
    if q.len() == 0 {
        0
    } else {
        let c = entry_cost(s.tasks, q[0]);
        if wl < c {
            0
        } else {
            1 + steps_taken(exec_entry_model(s, q[0]), q.skip(1), (wl - c) as u64)
        }
    }
}

/// The state and remaining weight after consuming the first `n` queue
/// entries.
pub open spec fn run_model(s: StateV, q: Seq<QueueEntryV>, wl: u64, n: int) -> (StateV, u64)
    decreases n,
{
    if n <= 0 || q.len() == 0 {
        (s, wl)
    } else {
        let c = entry_cost(s.tasks, q[0]);
        run_model(exec_entry_model(s, q[0]), q.skip(1), sat_sub(wl, c), n - 1)
    }
}

/// Consuming one more entry extends a run by one step.
pub proof fn lemma_run_model_snoc(s: StateV, q: Seq<QueueEntryV>, wl: u64, i: int)
    requires
        0 <= i < q.len(),
    ensures
        ({
            let m = run_model(s, q, wl, i);
            run_model(s, q, wl, i + 1) == (
                exec_entry_model(m.0, q[i]),
                sat_sub(m.1, entry_cost(m.0.tasks, q[i])),
            )
        }),
    decreases i,
{
    if i == 0 {
        reveal_with_fuel(run_model, 2);
    } else {
        let c = entry_cost(s.tasks, q[0]);
        lemma_run_model_snoc(exec_entry_model(s, q[0]), q.skip(1), sat_sub(wl, c), i - 1);
        assert(q.skip(1)[i - 1] == q[i]);
    }
}

/// The remaining weight of a run never grows.
pub proof fn lemma_run_model_weight(s: StateV, q: Seq<QueueEntryV>, wl: u64, n: int)
    ensures
        run_model(s, q, wl, n).1 <= wl,
    decreases n,
{
    if n <= 0 || q.len() == 0 {
    } else {
        let c = entry_cost(s.tasks, q[0]);
        lemma_run_model_weight(exec_entry_model(s, q[0]), q.skip(1), sat_sub(wl, c), n - 1);
    }
}

/// The queue without the entries of one asset, order kept.
pub open spec fn queue_without(q: Seq<QueueEntryV>, asset: Seq<u8>) -> Seq<QueueEntryV> {
    q.filter(|e: QueueEntryV| e.asset != asset)
}

/// The index without the entries whose key's first asset name is `asset`.
pub open spec fn index_without(
    m: Map<AssetKeyV, Map<Seq<u8>, u128>>,
    asset: Seq<u8>,
) -> Map<AssetKeyV, Map<Seq<u8>, u128>> {
    Map::new(|k: AssetKeyV| m.dom().contains(k) && k.2 != asset, |k: AssetKeyV| m[k])
}

/// The state after purging one asset's queue and index entries.
pub open spec fn delete_tasks_model(s: StateV, asset: Seq<u8>) -> StateV {
    StateV {
        sorted_tasks_index: index_without(s.sorted_tasks_index, asset),
        task_queue: queue_without(s.task_queue, asset),
        ..s
    }
}

/// The state after purging the first `n` assets of a periodic-reset batch,
/// each followed by its reset notification.
pub open spec fn purge_assets_model(s: StateV, assets: Seq<Seq<u8>>, n: int) -> StateV
    decreases n,
{
    if n <= 0 {
        s
    } else {
        let s1 = purge_assets_model(s, assets, n - 1);
        let s2 = delete_tasks_model(s1, assets[n - 1]);
        StateV { events: s2.events.push(EventV::AssetPeriodReset { asset: assets[n - 1] }), ..s2 }
    }
}

/// The time slot a timestamp falls in: its minute, in seconds.
pub open spec fn slot_of(ts: u64) -> u64 {
    ((ts / 1000) - (ts / 1000) % 60) as u64
}

/// The periodic-reset pass: all of the current slot's batch, or none of it
/// when the remaining weight cannot cover the whole batch.
pub open spec fn reset_model(s: StateV, wl: u64) -> (StateV, u64) {
    if s.timestamp == 0 {
        (s, wl)
    } else {
        let slot = slot_of(s.timestamp);
        if s.scheduled_asset_deletion.dom().contains(slot) {
            let assets = s.scheduled_asset_deletion[slot];
            let cost = reset_cost(assets.len());
            if wl < cost {
                (s, wl)
            } else {
                let s1 = purge_assets_model(s, assets, assets.len() as int);
                (
                    StateV {
                        scheduled_asset_deletion: s1.scheduled_asset_deletion.remove(slot),
                        ..s1
                    },
                    (wl - cost) as u64,
                )
            }
        } else {
            (s, wl)
        }
    }
}

/// One whole engine invocation: the state it leaves and the weight it
/// consumes out of `max_weight`.
pub open spec fn trigger_model(s: StateV, max_weight: u64) -> (StateV, u64) {
    if s.shutdown {
        (s, 0)
    } else if max_weight < CHECK_TIME_AND_DELETION_WEIGHT {
        (s, 0)
    } else {
        let wl0 = (max_weight - CHECK_TIME_AND_DELETION_WEIGHT) as u64;
        let r1 = reset_model(s, wl0);
        let s1 = r1.0;
        let wl2 = sat_sub(r1.1, (DB_READ_WEIGHT + DB_WRITE_WEIGHT) as u64);
        let q = s1.task_queue;
        if q.len() > 0 {
            let k = steps_taken(s1, q, wl2);
            let r2 = run_model(s1, q, wl2, k);
            (StateV { task_queue: q.skip(k), ..r2.0 }, sat_sub(max_weight, r2.1))
        } else {
            (s1, sat_sub(max_weight, wl2))
        }
    }
}

/// The scheduler's per-block weight budget: the configured share of the
/// block's cap.
pub open spec fn scheduled_budget() -> u64 {
    ((MAX_BLOCK_WEIGHT as nat) * (MAX_WEIGHT_PER_BILLION as nat) / (PER_BILLION as nat)) as u64
}

/// The task identifier the next call derives from the block context.
pub open spec fn next_task_id(s: StateV) -> Seq<u8> {
    crate::task_id::task_id_seq(s.block_number as nat, s.extrinsic_index as nat, s.events.len())
}

/// The state after scheduling a task: the store, the index, the queue, the
/// owner's reverse index, and the notification log all updated together.
pub open spec fn scheduled_state(s: StateV, tv: TaskV) -> StateV {
    let key = tv.key();
    let prev = if s.sorted_tasks_index.dom().contains(key) {
        s.sorted_tasks_index[key]
    } else {
        Map::<Seq<u8>, u128>::empty()
    };
    let prev_owned = if s.account_tasks.dom().contains(tv.owner_id) {
        s.account_tasks[tv.owner_id]
    } else {
        Seq::<Seq<u8>>::empty()
    };
    StateV {
        tasks: s.tasks.insert(tv.task_id, tv),
        sorted_tasks_index: s.sorted_tasks_index.insert(
            key,
            prev.insert(tv.task_id, tv.trigger_params[0]),
        ),
        task_queue: s.task_queue.push(QueueEntryV { asset: tv.asset_pair.0, task_id: tv.task_id }),
        account_tasks: s.account_tasks.insert(tv.owner_id, prev_owned.push(tv.task_id)),
        events: s.events.push(EventV::TaskScheduled { who: tv.owner_id, task_id: tv.task_id }),
        ..s
    }
}

/// The state after a new asset pair is registered: a fresh registry record
/// and the created notification.
pub open spec fn created_state(
    s: StateV,
    chain: Seq<u8>,
    exchange: Seq<u8>,
    asset1: Seq<u8>,
    asset2: Seq<u8>,
    decimal: u8,
    owners: Seq<AccountId>,
) -> StateV {
    StateV {
        asset_registry: s.asset_registry.insert(
            (chain, exchange, asset1, asset2),
            RegistryInfoV { round: 0, decimal, last_update: 0, oracle_providers: owners },
        ),
        events: s.events.push(
            EventV::AssetCreated { chain, exchange, asset1, asset2, decimal },
        ),
        ..s
    }
}

/// One entry of a price-update batch.
pub struct PriceUpdateV {
    pub key: AssetKeyV,
    pub price: u128,
    pub round: u128,
}

/// The batch assembled from the transaction's parallel lists.
pub open spec fn batch_of(
    chains: Seq<Seq<u8>>,
    exchanges: Seq<Seq<u8>>,
    assets1: Seq<Seq<u8>>,
    assets2: Seq<Seq<u8>>,
    prices: Seq<u128>,
    rounds: Seq<u128>,
) -> Seq<PriceUpdateV> {
    Seq::new(
        prices.len(),
        |i: int| PriceUpdateV {
            key: (chains[i], exchanges[i], assets1[i], assets2[i]),
            price: prices[i],
            round: rounds[i],
        },
    )
}

/// Whether one batch entry passes validation for the calling oracle.
pub open spec fn update_ok(s: StateV, who: AccountId, u: PriceUpdateV) -> bool {
    s.asset_registry.dom().contains(u.key) && s.asset_registry[u.key].oracle_providers.contains(
        who,
    )
}

/// The error one invalid batch entry is rejected with.
pub open spec fn update_error(s: StateV, u: PriceUpdateV) -> Error {
    if !s.asset_registry.dom().contains(u.key) {
        Error::AssetNotInitialized
    } else {
        Error::OracleNotAuthorized
    }
}

/// The position of the first invalid batch entry at or after `i`, or the
/// batch length when all are valid.
pub open spec fn first_invalid(s: StateV, who: AccountId, b: Seq<PriceUpdateV>, i: int) -> int
    decreases b.len() - i,
{
    if i >= b.len() {
        i
    } else if !update_ok(s, who, b[i]) {
        i
    } else {
        first_invalid(s, who, b, i + 1)
    }
}

/// `first_invalid` finds exactly the first position that fails validation.
pub proof fn lemma_first_invalid_at(
    s: StateV,
    who: AccountId,
    b: Seq<PriceUpdateV>,
    k: int,
    i: int,
)
    requires
        0 <= k <= i <= b.len(),
        forall|j: int| k <= j < i ==> update_ok(s, who, #[trigger] b[j]),
        i == b.len() || !update_ok(s, who, b[i]),
    ensures
        first_invalid(s, who, b, k) == i,
    decreases i - k,
{
    if k < i {
        lemma_first_invalid_at(s, who, b, k + 1, i);
    }
}

/// The price registry after applying the first `n` entries of a batch, in
/// order; a later entry for a key overwrites an earlier one.
pub open spec fn apply_updates(
    m: Map<AssetKeyV, PriceData>,
    b: Seq<PriceUpdateV>,
    n: int,
) -> Map<AssetKeyV, PriceData>
    decreases n,
{
    if n <= 0 {
        m
    } else {
        apply_updates(m, b, n - 1).insert(
            b[n - 1].key,
            PriceData { round: b[n - 1].round, nonce: 1, amount: b[n - 1].price },
        )
    }
}

} // verus!
