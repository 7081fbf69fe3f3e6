//! The pallet itself: the persisted stores, the inbound transactions that
//! mutate them, and the once-per-block weight-bounded execution engine.

use vstd::prelude::*;

use crate::assoc::AssocMap;
use crate::model::{
    apply_updates, bal_of, batch_of, bytes_seq_view, delete_tasks_model,
    entry_cost, exec_entry_model, first_invalid, index_without, lemma_bytes_seq_view_push,
    lemma_first_invalid_at, lemma_run_model_snoc, lemma_run_model_weight,
    lemma_map_ids_view_insert, lemma_map_ids_view_remove, lemma_map_view_insert,
    lemma_map_view_remove, lemma_seq_view_push, lemma_seq_view_skip, map_ids_view,
    map_view_values, next_task_id, purge_assets_model, queue_without, reset_cost, reset_model,
    run_model, sat_sub, scheduled_budget, scheduled_state, seq_view, slot_of, steps_taken,
    transfer_updates, trigger_model, update_error, update_ok, StateV,
};
use crate::task_id::{lemma_task_id_nonempty, task_id_bytes};
use crate::types::{
    bytes_eq, clone_bytes, AccountId, Action, AssetKey, AssetKeyV, DispatchError, Error, Event,
    ActionV, AssetPayment, EventV, InstructionSequence, LocationInput, Origin, PriceData,
    QueueEntry, QueueEntryV, RegistryInfo, Task, TaskId, TaskV, XcmpMessage, LOCATION_VERSION,
    CHECK_TIME_AND_DELETION_WEIGHT, DB_READ_WEIGHT, DB_WRITE_WEIGHT, EMIT_EVENT_WEIGHT,
    EXISTENTIAL_DEPOSIT, MAX_BLOCK_WEIGHT, MAX_WEIGHT_PER_BILLION, NATIVE_TRANSFER_WEIGHT,
    PER_BILLION, RESET_ASSET_WEIGHT, TASK_OVERHEAD_WEIGHT, XCMP_TASK_WEIGHT,
};

verus! {

/// The scheduler pallet: five keyed stores, the task queue, the shutdown
/// flag, the block context the host supplies, and the capability state the
/// actions work on (the notification log, the ledger, the outbound
/// cross-chain messages).
pub struct Pallet {
    /// Metadata per tracked asset pair.
    pub asset_registry: AssocMap<AssetKey, RegistryInfo>,
    /// Latest price per tracked asset pair.
    pub price_registry: AssocMap<AssetKey, PriceData>,
    /// Per asset pair, task id to primary trigger threshold.
    pub sorted_tasks_index: AssocMap<AssetKey, AssocMap<Vec<u8>, u128>>,
    /// All live tasks, by task id.
    pub tasks: AssocMap<Vec<u8>, Task>,
    /// Reverse index: owner account to its task ids.
    pub account_tasks: AssocMap<AccountId, Vec<Vec<u8>>>,
    /// Pending work, in insertion order.
    pub task_queue: Vec<QueueEntry>,
    /// Per time slot, the asset names due for a periodic reset.
    pub scheduled_asset_deletion: AssocMap<u64, Vec<Vec<u8>>>,
    /// When set, the engine is a no-op.
    pub shutdown: bool,
    /// The current block number.
    pub block_number: u64,
    /// The current transaction's position in the block.
    pub extrinsic_index: u32,
    /// The current block timestamp, in milliseconds.
    pub timestamp: u64,
    /// The notifications deposited so far.
    pub events: Vec<Event>,
    /// The balance ledger.
    pub balances: AssocMap<AccountId, u128>,
    /// The cross-chain instructions handed to the transport.
    pub outbound_xcmp: Vec<XcmpMessage>,
}

impl View for Pallet {
    type V = StateV;

    open spec fn view(&self) -> StateV {
        StateV {
            asset_registry: map_view_values(self.asset_registry@),
            price_registry: self.price_registry@,
            sorted_tasks_index: map_view_values(self.sorted_tasks_index@),
            tasks: map_view_values(self.tasks@),
            account_tasks: map_ids_view(self.account_tasks@),
            task_queue: seq_view(self.task_queue@),
            scheduled_asset_deletion: map_ids_view(self.scheduled_asset_deletion@),
            shutdown: self.shutdown,
            block_number: self.block_number,
            extrinsic_index: self.extrinsic_index,
            timestamp: self.timestamp,
            events: seq_view(self.events@),
            balances: self.balances@,
            outbound_xcmp: seq_view(self.outbound_xcmp@),
        }
    }
}

/// Everything but the sorted index and the task queue agrees between two
/// pallet values.
pub open spec fn eq_except_index_and_queue(a: Pallet, b: Pallet) -> bool {
    &&& a.asset_registry == b.asset_registry
    &&& a.price_registry == b.price_registry
    &&& a.tasks == b.tasks
    &&& a.account_tasks == b.account_tasks
    &&& a.scheduled_asset_deletion == b.scheduled_asset_deletion
    &&& a.shutdown == b.shutdown
    &&& a.block_number == b.block_number
    &&& a.extrinsic_index == b.extrinsic_index
    &&& a.timestamp == b.timestamp
    &&& a.events == b.events
    &&& a.balances == b.balances
    &&& a.outbound_xcmp == b.outbound_xcmp
}

impl Pallet {
    /// All stores well-formed: no keyed store holds a key twice.
    pub open spec fn wf(&self) -> bool {
        &&& self.asset_registry.wf()
        &&& self.price_registry.wf()
        &&& self.sorted_tasks_index.wf()
        &&& forall|k: AssetKeyV| #[trigger]
            self.sorted_tasks_index@.dom().contains(k) ==> self.sorted_tasks_index@[k].wf()
        &&& self.tasks.wf()
        &&& self.account_tasks.wf()
        &&& self.scheduled_asset_deletion.wf()
        &&& self.balances.wf()
    }

    /// A fresh pallet: every store empty, not shut down, block context zero.
    pub fn new() -> (r: Pallet)
        ensures
            r.wf(),
            r@ == crate::model::empty_state(),
    {
        let r = Pallet {
            asset_registry: AssocMap::new(),
            price_registry: AssocMap::new(),
            sorted_tasks_index: AssocMap::new(),
            tasks: AssocMap::new(),
            account_tasks: AssocMap::new(),
            task_queue: Vec::new(),
            scheduled_asset_deletion: AssocMap::new(),
            shutdown: false,
            block_number: 0,
            extrinsic_index: 0,
            timestamp: 0,
            events: Vec::new(),
            balances: AssocMap::new(),
            outbound_xcmp: Vec::new(),
        };
        proof {
            assert(r@ =~~= crate::model::empty_state());
        }
        r
    }

    /// Deposits one notification.
    fn deposit_event(&mut self, e: Event)
        ensures
            final(self)@ == (StateV { events: old(self)@.events.push(e@), ..old(self)@ }),
            final(self).wf() == old(self).wf(),
    {
        proof {
            lemma_seq_view_push(self.events@, e);
        }
        self.events.push(e);
    }

    /// Whether the pallet is shut down.
    pub fn is_shutdown(&self) -> (r: bool)
        ensures
            r == self@.shutdown,
    {
        self.shutdown
    }

    /// Stops the engine: later invocations do nothing.
    pub fn shutdown(&mut self)
        ensures
            final(self)@ == (StateV { shutdown: true, ..old(self)@ }),
            final(self).wf() == old(self).wf(),
    {
        self.shutdown = true;
    }

    /// Restarts the engine.
    pub fn restart(&mut self)
        ensures
            final(self)@ == (StateV { shutdown: false, ..old(self)@ }),
            final(self).wf() == old(self).wf(),
    {
        self.shutdown = false;
    }

    /// The time slot the current block falls in, or an error while the block
    /// time is not set.
    pub fn get_current_time_slot(&self) -> (r: Result<u64, Error>)
        ensures
            match r {
                Ok(slot) => self@.timestamp != 0 && slot == slot_of(self@.timestamp),
                Err(e) => self@.timestamp == 0 && e == Error::BlockTimeNotSet,
            },
    {
        if self.timestamp == 0 {
            return Err(Error::BlockTimeNotSet);
        }
        let now = self.timestamp / 1000;
        Ok(now - now % 60)
    }

    /// Registers a new asset pair with its decimals and its authorized
    /// oracle providers. Fails when the pair is already registered.
    pub fn create_new_asset(
        &mut self,
        chain: Vec<u8>,
        exchange: Vec<u8>,
        asset1: Vec<u8>,
        asset2: Vec<u8>,
        decimal: u8,
        asset_owners: Vec<AccountId>,
    ) -> (r: Result<(), Error>)
        requires
            old(self).wf(),
        ensures
            final(self).wf(),
            ({
                let key = (chain@, exchange@, asset1@, asset2@);
                match r {
                    Ok(()) => !old(self)@.asset_registry.dom().contains(key) && final(self)@
                        == crate::model::created_state(
                        old(self)@,
                        chain@,
                        exchange@,
                        asset1@,
                        asset2@,
                        decimal,
                        asset_owners@,
                    ),
                    Err(e) => e == Error::AssetAlreadyInitialized && old(
                        self,
                    )@.asset_registry.dom().contains(key) && *final(self) == *old(self),
                }
            }),
    {
        let key = AssetKey { chain, exchange, asset1, asset2 };
        if self.asset_registry.contains_key(&key) {
            return Err(Error::AssetAlreadyInitialized);
        }
        let ev = Event::AssetCreated {
            chain: clone_bytes(&key.chain),
            exchange: clone_bytes(&key.exchange),
            asset1: clone_bytes(&key.asset1),
            asset2: clone_bytes(&key.asset2),
            decimal,
        };
        let info = RegistryInfo { round: 0, decimal, last_update: 0, oracle_providers: asset_owners };
        let ghost gkey = key;
        let ghost ginfo = info;
        proof {
            lemma_map_view_insert(self.asset_registry@, gkey@, ginfo);
        }
        self.asset_registry.insert(key, info);
        self.deposit_event(ev);
        proof {
            assert(final(self)@ =~= crate::model::created_state(
                old(self)@,
                gkey.chain@,
                gkey.exchange@,
                gkey.asset1@,
                gkey.asset2@,
                decimal,
                ginfo.oracle_providers@,
            ));
        }
        Ok(())
    }

    /// Root-only transaction: registers a new asset pair.
    pub fn initialize_asset(
        &mut self,
        origin: Origin,
        chain: Vec<u8>,
        exchange: Vec<u8>,
        asset1: Vec<u8>,
        asset2: Vec<u8>,
        decimal: u8,
        asset_owners: Vec<AccountId>,
    ) -> (r: Result<(), DispatchError>)
        requires
            old(self).wf(),
        ensures
            final(self).wf(),
            ({
                let key = (chain@, exchange@, asset1@, asset2@);
                match r {
                    Ok(()) => origin == Origin::Root && !old(
                        self,
                    )@.asset_registry.dom().contains(key) && final(self)@
                        == crate::model::created_state(
                        old(self)@,
                        chain@,
                        exchange@,
                        asset1@,
                        asset2@,
                        decimal,
                        asset_owners@,
                    ),
                    Err(DispatchError::BadOrigin) => origin != Origin::Root && *final(self)
                        == *old(self),
                    Err(DispatchError::Module(e)) => origin == Origin::Root && e
                        == Error::AssetAlreadyInitialized && old(
                        self,
                    )@.asset_registry.dom().contains(key) && *final(self) == *old(self),
                }
            }),
    {
        match origin {
            Origin::Root => {},
            _ => {
                return Err(DispatchError::BadOrigin);
            },
        }
        match self.create_new_asset(chain, exchange, asset1, asset2, decimal, asset_owners) {
            Ok(()) => Ok(()),
            Err(e) => Err(DispatchError::Module(e)),
        }
    }

    /// Root-only transaction: announces the deletion of an asset pair.
    /// The registry record itself is kept; purging its tasks is the
    /// lifecycle manager's job.
    pub fn delete_asset(
        &mut self,
        origin: Origin,
        chain: Vec<u8>,
        exchange: Vec<u8>,
        asset1: Vec<u8>,
        asset2: Vec<u8>,
    ) -> (r: Result<(), DispatchError>)
        requires
            old(self).wf(),
        ensures
            final(self).wf(),
            ({
                let key = (chain@, exchange@, asset1@, asset2@);
                match r {
                    Ok(()) => origin == Origin::Root && old(
                        self,
                    )@.asset_registry.dom().contains(key) && final(self)@ == (StateV {
                        events: old(self)@.events.push(EventV::AssetDeleted { asset: asset1@ }),
                        ..old(self)@
                    }),
                    Err(DispatchError::BadOrigin) => origin != Origin::Root && *final(self)
                        == *old(self),
                    Err(DispatchError::Module(e)) => origin == Origin::Root && e
                        == Error::AssetNotSupported && !old(
                        self,
                    )@.asset_registry.dom().contains(key) && *final(self) == *old(self),
                }
            }),
    {
        match origin {
            Origin::Root => {},
            _ => {
                return Err(DispatchError::BadOrigin);
            },
        }
        let key = AssetKey { chain, exchange, asset1, asset2 };
        if !self.asset_registry.contains_key(&key) {
            return Err(DispatchError::Module(Error::AssetNotSupported));
        }
        let AssetKey { chain: _, exchange: _, asset1, asset2: _ } = key;
        self.deposit_event(Event::AssetDeleted { asset: asset1 });
        Ok(())
    }

    /// Signed transaction: publishes a batch of price updates. The whole
    /// batch is validated first; one invalid entry rejects all of it.
    pub fn update_asset_prices(
        &mut self,
        origin: Origin,
        chains: Vec<Vec<u8>>,
        exchanges: Vec<Vec<u8>>,
        assets1: Vec<Vec<u8>>,
        assets2: Vec<Vec<u8>>,
        prices: Vec<u128>,
        submitted_at: Vec<u128>,
        rounds: Vec<u128>,
    ) -> (r: Result<(), DispatchError>)
        requires
            old(self).wf(),
        ensures
            final(self).wf(),
            ({
                let b = batch_of(
                    bytes_seq_view(chains@),
                    bytes_seq_view(exchanges@),
                    bytes_seq_view(assets1@),
                    bytes_seq_view(assets2@),
                    prices@,
                    rounds@,
                );
                let lengths_ok = chains@.len() == prices@.len() && exchanges@.len()
                    == prices@.len() && assets1@.len() == prices@.len() && assets2@.len()
                    == prices@.len() && rounds@.len() == prices@.len() && submitted_at@.len()
                    == prices@.len();
                match r {
                    Ok(()) => origin is Signed && lengths_ok && (forall|i: int|
                        0 <= i < b.len() ==> update_ok(old(self)@, origin->Signed_0, #[trigger] b[i]))
                        && final(self)@ == (StateV {
                        price_registry: apply_updates(
                            old(self)@.price_registry,
                            b,
                            b.len() as int,
                        ),
                        ..old(self)@
                    }),
                    Err(DispatchError::BadOrigin) => !(origin is Signed) && *final(self) == *old(
                        self,
                    ),
                    Err(DispatchError::Module(e)) => origin is Signed && *final(self) == *old(self)
                        && (if !lengths_ok {
                        e == Error::InvalidBatchLength
                    } else {
                        let j = first_invalid(old(self)@, origin->Signed_0, b, 0);
                        j < b.len() && !update_ok(old(self)@, origin->Signed_0, b[j]) && e
                            == update_error(old(self)@, b[j])
                    }),
                }
            }),
    {
        let who: AccountId = match origin {
            Origin::Signed(a) => a,
            _ => {
                return Err(DispatchError::BadOrigin);
            },
        };
        let n = prices.len();
        if chains.len() != n || exchanges.len() != n || assets1.len() != n || assets2.len() != n
            || rounds.len() != n || submitted_at.len() != n {
            return Err(DispatchError::Module(Error::InvalidBatchLength));
        }
        let ghost b = batch_of(
            bytes_seq_view(chains@),
            bytes_seq_view(exchanges@),
            bytes_seq_view(assets1@),
            bytes_seq_view(assets2@),
            prices@,
            rounds@,
        );
        let mut i: usize = 0;
        while i < n
            invariant
                old(self).wf(),
                *self == *old(self),
                origin == Origin::Signed(who),
                i <= n,
                n == prices@.len(),
                chains@.len() == n,
                exchanges@.len() == n,
                assets1@.len() == n,
                assets2@.len() == n,
                rounds@.len() == n,
                submitted_at@.len() == n,
                b == batch_of(
                    bytes_seq_view(chains@),
                    bytes_seq_view(exchanges@),
                    bytes_seq_view(assets1@),
                    bytes_seq_view(assets2@),
                    prices@,
                    rounds@,
                ),
                forall|j: int| 0 <= j < i ==> update_ok(old(self)@, who, #[trigger] b[j]),
            decreases n - i,
        {
            let key = AssetKey {
                chain: clone_bytes(&chains[i]),
                exchange: clone_bytes(&exchanges[i]),
                asset1: clone_bytes(&assets1[i]),
                asset2: clone_bytes(&assets2[i]),
            };
            proof {
                assert(key@ == b[i as int].key);
            }
            match self.asset_registry.get(&key) {
                None => {
                    proof {
                        assert(!old(self)@.asset_registry.dom().contains(b[i as int].key));
                        lemma_first_invalid_at(old(self)@, who, b, 0, i as int);
                    }
                    return Err(DispatchError::Module(Error::AssetNotInitialized));
                },
                Some(info) => {
                    let allowed = crate::types::account_in(&info.oracle_providers, who);
                    proof {
                        assert(old(self)@.asset_registry[b[i as int].key]
                            == self.asset_registry@[key@]@);
                    }
                    if !allowed {
                        proof {
                            assert(!update_ok(old(self)@, who, b[i as int]));
                            lemma_first_invalid_at(old(self)@, who, b, 0, i as int);
                        }
                        return Err(DispatchError::Module(Error::OracleNotAuthorized));
                    }
                    proof {
                        assert(update_ok(old(self)@, who, b[i as int]));
                    }
                },
            }
            i = i + 1;
        }
        let mut i: usize = 0;
        while i < n
            invariant
                old(self).wf(),
                self.wf(),
                origin == Origin::Signed(who),
                forall|j: int| 0 <= j < n ==> update_ok(old(self)@, who, #[trigger] b[j]),
                i <= n,
                n == prices@.len(),
                chains@.len() == n,
                exchanges@.len() == n,
                assets1@.len() == n,
                assets2@.len() == n,
                rounds@.len() == n,
                submitted_at@.len() == n,
                b == batch_of(
                    bytes_seq_view(chains@),
                    bytes_seq_view(exchanges@),
                    bytes_seq_view(assets1@),
                    bytes_seq_view(assets2@),
                    prices@,
                    rounds@,
                ),
                self@ == (StateV {
                    price_registry: apply_updates(old(self)@.price_registry, b, i as int),
                    ..old(self)@
                }),
            decreases n - i,
        {
            let key = AssetKey {
                chain: clone_bytes(&chains[i]),
                exchange: clone_bytes(&exchanges[i]),
                asset1: clone_bytes(&assets1[i]),
                asset2: clone_bytes(&assets2[i]),
            };
            let pd = PriceData { round: rounds[i], nonce: 1, amount: prices[i] };
            let ghost pre = self@;
            proof {
                assert(key@ == b[i as int].key);
            }
            self.price_registry.insert(key, pd);
            proof {
                assert(self@ =~= (StateV {
                    price_registry: apply_updates(old(self)@.price_registry, b, i + 1 as int),
                    ..old(self)@
                }));
            }
            i = i + 1;
        }
        Ok(())
    }

    /// Accepts a task for scheduling and hands back its identifier.
    pub fn schedule_task(task: &Task) -> (r: Result<TaskId, Error>)
        ensures
            match r {
                Ok(id) => id@ == task@.task_id,
                Err(_) => false,
            },
    {
        Ok(clone_bytes(&task.task_id))
    }

    /// Schedules a task: installs it in the task store, its trigger
    /// threshold in the per-asset index, its queue entry, and its owner's
    /// reverse-index entry, and deposits the scheduled notification — all
    /// together, or none of them when the task id is empty.
    pub fn validate_and_schedule_task(&mut self, task: Task) -> (r: Result<(), Error>)
        requires
            old(self).wf(),
            task@.trigger_params.len() >= 1,
        ensures
            final(self).wf(),
            match r {
                Ok(()) => task@.task_id.len() > 0 && final(self)@ == scheduled_state(
                    old(self)@,
                    task@,
                ),
                Err(e) => e == Error::EmptyProvidedId && task@.task_id.len() == 0 && *final(self)
                    == *old(self),
            },
    {
        if task.task_id.len() == 0 {
            return Err(Error::EmptyProvidedId);
        }
        let ghost tv = task@;
        let ghost s0 = self@;
        let key = AssetKey {
            chain: clone_bytes(&task.chain),
            exchange: clone_bytes(&task.exchange),
            asset1: clone_bytes(&task.asset_pair.0),
            asset2: clone_bytes(&task.asset_pair.1),
        };
        let ghost gkey = key;
        let owner = task.owner_id;
        let threshold = task.trigger_params[0];
        let store_id = clone_bytes(&task.task_id);
        let id_for_index = clone_bytes(&task.task_id);
        let id_for_queue = clone_bytes(&task.task_id);
        let id_for_account = clone_bytes(&task.task_id);
        let entry_asset = clone_bytes(&task.asset_pair.0);
        match Self::schedule_task(&task) {
            Ok(id_for_event) => {
                // Task store.
                let ghost gtask = task;
                proof {
                    lemma_map_view_insert(self.tasks@, tv.task_id, gtask);
                }
                self.tasks.insert(store_id, task);
                let ghost s1 = self@;
                proof {
                    assert(s1 =~= (StateV { tasks: s0.tasks.insert(tv.task_id, tv), ..s0 }));
                }
                // Sorted index: fetch or create the per-asset map, add the
                // task's primary threshold, and store it back.
                let ghost out0 = self.sorted_tasks_index@;
                let ghost prev = if s0.sorted_tasks_index.dom().contains(tv.key()) {
                    s0.sorted_tasks_index[tv.key()]
                } else {
                    Map::<Seq<u8>, u128>::empty()
                };
                let mut task_index: AssocMap<Vec<u8>, u128> = match self.sorted_tasks_index.remove(
                    &key,
                ) {
                    Some(m) => m,
                    None => AssocMap::new(),
                };
                proof {
                    assert(task_index@ == prev);
                    assert(task_index.wf());
                }
                task_index.insert(id_for_index, threshold);
                proof {
                    assert(task_index@ == prev.insert(tv.task_id, tv.trigger_params[0]));
                }
                let ghost out1 = self.sorted_tasks_index@;
                let ghost gindex = task_index;
                proof {
                    lemma_map_view_insert(out1, gkey@, gindex);
                }
                self.sorted_tasks_index.insert(key, task_index);
                proof {
                    assert(map_view_values(out1) =~= if s0.sorted_tasks_index.dom().contains(
                        tv.key(),
                    ) {
                        s1.sorted_tasks_index.remove(tv.key())
                    } else {
                        s1.sorted_tasks_index
                    });
                    assert(self@.sorted_tasks_index =~= s1.sorted_tasks_index.insert(
                        tv.key(),
                        prev.insert(tv.task_id, tv.trigger_params[0]),
                    ));
                }
                let ghost s2 = self@;
                proof {
                    assert(s2 =~= (StateV {
                        sorted_tasks_index: s1.sorted_tasks_index.insert(
                            tv.key(),
                            prev.insert(tv.task_id, tv.trigger_params[0]),
                        ),
                        ..s1
                    }));
                }
                // Task queue.
                let entry = QueueEntry { asset: entry_asset, task_id: id_for_queue };
                let ghost gentry = entry;
                proof {
                    lemma_seq_view_push(self.task_queue@, gentry);
                }
                self.task_queue.push(entry);
                let ghost s3 = self@;
                proof {
                    assert(s3 =~= (StateV {
                        task_queue: s2.task_queue.push(
                            QueueEntryV { asset: tv.asset_pair.0, task_id: tv.task_id },
                        ),
                        ..s2
                    }));
                }
                // Owner's reverse index.
                let ghost acc0 = self.account_tasks@;
                let ghost prev_owned = if s0.account_tasks.dom().contains(tv.owner_id) {
                    s0.account_tasks[tv.owner_id]
                } else {
                    Seq::<Seq<u8>>::empty()
                };
                let mut owned: Vec<Vec<u8>> = match self.account_tasks.remove(&owner) {
                    Some(v) => v,
                    None => Vec::new(),
                };
                let ghost gid = id_for_account;
                proof {
                    assert(bytes_seq_view(owned@) == prev_owned);
                    lemma_bytes_seq_view_push(owned@, gid);
                }
                owned.push(id_for_account);
                let ghost acc1 = self.account_tasks@;
                let ghost gowned = owned;
                proof {
                    lemma_map_ids_view_insert(acc1, tv.owner_id, gowned);
                    assert(bytes_seq_view(gowned@) == prev_owned.push(tv.task_id));
                }
                self.account_tasks.insert(owner, owned);
                let ghost s4 = self@;
                proof {
                    assert(s4.account_tasks == map_ids_view(acc1.insert(tv.owner_id, gowned)));
                    assert(s4.account_tasks =~= s3.account_tasks.insert(
                        tv.owner_id,
                        prev_owned.push(tv.task_id),
                    ));
                    assert(s4 =~= (StateV {
                        account_tasks: s3.account_tasks.insert(
                            tv.owner_id,
                            prev_owned.push(tv.task_id),
                        ),
                        ..s3
                    }));
                }
                // Scheduled notification.
                self.deposit_event(Event::TaskScheduled { who: owner, task_id: id_for_event });
                proof {
                    assert(self@ =~= scheduled_state(s0, tv));
                }
                Ok(())
            },
            Err(e) => Err(e),
        }
    }

    /// Signed transaction: builds a cross-chain task from its wire-format
    /// inputs and schedules it. Rejects a location in an unsupported format
    /// version before any state changes.
    pub fn schedule_xcmp_task(
        &mut self,
        origin: Origin,
        chain: Vec<u8>,
        exchange: Vec<u8>,
        asset1: Vec<u8>,
        asset2: Vec<u8>,
        expired_at: u128,
        trigger_function: Vec<u8>,
        trigger_param: Vec<u128>,
        destination: LocationInput,
        schedule_fee: LocationInput,
        execution_fee: AssetPayment,
        encoded_call: Vec<u8>,
        encoded_call_weight: u64,
        overall_weight: u64,
    ) -> (r: Result<(), DispatchError>)
        requires
            old(self).wf(),
            trigger_param@.len() >= 1,
        ensures
            final(self).wf(),
            match r {
                Ok(()) => origin is Signed && destination@.version == LOCATION_VERSION
                    && schedule_fee@.version == LOCATION_VERSION && final(self)@
                    == scheduled_state(
                    old(self)@,
                    TaskV {
                        owner_id: origin->Signed_0,
                        task_id: next_task_id(old(self)@),
                        chain: chain@,
                        exchange: exchange@,
                        asset_pair: (asset1@, asset2@),
                        trigger_function: trigger_function@,
                        trigger_params: trigger_param@,
                        action: ActionV::XCMP {
                            destination: destination@.payload,
                            schedule_fee: schedule_fee@.payload,
                            execution_fee: execution_fee@,
                            encoded_call: encoded_call@,
                            encoded_call_weight: encoded_call_weight,
                            overall_weight: overall_weight,
                            schedule_as: None,
                            instruction_sequence: InstructionSequence::PayThroughSovereignAccount,
                        },
                    },
                ),
                Err(DispatchError::BadOrigin) => !(origin is Signed) && *final(self) == *old(self),
                Err(DispatchError::Module(e)) => origin is Signed && e == Error::BadVersion && (
                destination@.version != LOCATION_VERSION || schedule_fee@.version
                    != LOCATION_VERSION) && *final(self) == *old(self),
            },
    {
        let who: AccountId = match origin {
            Origin::Signed(a) => a,
            _ => {
                return Err(DispatchError::BadOrigin);
            },
        };
        let task_id = self.generate_task_id();
        if destination.version != LOCATION_VERSION {
            return Err(DispatchError::Module(Error::BadVersion));
        }
        if schedule_fee.version != LOCATION_VERSION {
            return Err(DispatchError::Module(Error::BadVersion));
        }
        let action = Action::XCMP {
            destination: destination.payload,
            schedule_fee: schedule_fee.payload,
            execution_fee,
            encoded_call,
            encoded_call_weight,
            overall_weight,
            schedule_as: None,
            instruction_sequence: InstructionSequence::PayThroughSovereignAccount,
        };
        let task = Task {
            owner_id: who,
            task_id,
            chain,
            exchange,
            asset_pair: (asset1, asset2),
            trigger_function,
            trigger_params: trigger_param,
            action,
        };
        proof {
            lemma_task_id_nonempty(
                old(self)@.block_number as nat,
                old(self)@.extrinsic_index as nat,
                old(self)@.events.len(),
            );
        }
        match self.validate_and_schedule_task(task) {
            Ok(()) => Ok(()),
            Err(e) => {
                proof {
                    assert(false);
                }
                Err(DispatchError::Module(e))
            },
        }
    }

    /// Purges one asset: every index entry under its key prefix is removed,
    /// and the global queue is rewritten without its entries, in order.
    pub fn delete_asset_tasks(&mut self, asset: Vec<u8>)
        requires
            old(self).wf(),
        ensures
            final(self).wf(),
            final(self)@ == delete_tasks_model(old(self)@, asset@),
    {
        let ghost s0 = self@;
        // Rebuild the index without the asset's entries. The source entries
        // are drained from the back; a map's content does not depend on its
        // entry order.
        let ghost src = self.sorted_tasks_index.entries@;
        let mut kept: Vec<(AssetKey, AssocMap<Vec<u8>, u128>)> = Vec::new();
        let ghost n = src.len() as int;
        proof {
            assert(crate::assoc::assoc_view(src) == self.sorted_tasks_index@);
        }
        while self.sorted_tasks_index.entries.len() > 0
            invariant
                eq_except_index_and_queue(*self, *old(self)),
                self.task_queue == old(self).task_queue,
                crate::assoc::distinct_keys(src),
                crate::assoc::distinct_keys(kept@),
                n == src.len(),
                self.sorted_tasks_index.entries@.len() <= n,
                self.sorted_tasks_index.entries@ == src.take(
                    self.sorted_tasks_index.entries@.len() as int,
                ),
                forall|k: AssetKeyV| #[trigger]
                    crate::assoc::assoc_view(kept@).dom().contains(k) ==> k.2 != asset@ && (
                    exists|j: int|
                        self.sorted_tasks_index.entries@.len() <= j < n && src[j].0@ == k),
                forall|j: int|
                    self.sorted_tasks_index.entries@.len() <= j < n && (#[trigger] src[j]).0@.2
                        != asset@ ==> crate::assoc::assoc_view(kept@).dom().contains(src[j].0@)
                        && crate::assoc::assoc_view(kept@)[src[j].0@] == src[j].1,
            decreases self.sorted_tasks_index.entries@.len(),
        {
            let ghost cut = self.sorted_tasks_index.entries@.len() as int;
            let e = match self.sorted_tasks_index.entries.pop() {
                Some(e) => e,
                None => {
                    proof {
                        assert(false);
                    }
                    continue
                },
            };
            proof {
                assert(1 <= cut <= n);
                assert(src.take(cut).len() == cut);
                assert(e == src.take(cut).last());
                assert(src.take(cut).last() == src[cut - 1]);
                assert(e == src[cut - 1]);
                assert(src.take(cut).drop_last() =~= src.take(cut - 1));
                assert(self.sorted_tasks_index.entries@ =~= src.take(cut - 1));
            }
            let keep = !bytes_eq(&e.0.asset1, &asset);
            if keep {
                let ghost ge = e;
                proof {
                    assert(forall|i: int|
                        0 <= i < kept@.len() ==> (#[trigger] kept@[i]).0@ != ge.0@) by {
                        crate::assoc::lemma_assoc_view_dom::<AssetKey, AssocMap<Vec<u8>, u128>>(
                            kept@,
                            ge.0@,
                        );
                        if exists|i: int| 0 <= i < kept@.len() && (#[trigger] kept@[i]).0@
                            == ge.0@ {
                            let i = choose|i: int|
                                0 <= i < kept@.len() && (#[trigger] kept@[i]).0@ == ge.0@;
                            crate::assoc::lemma_assoc_view_index(kept@, i);
                        }
                    }
                    crate::assoc::lemma_assoc_view_push(kept@, ge);
                }
                kept.push(e);
                proof {
                    crate::assoc::lemma_assoc_view_dom::<AssetKey, AssocMap<Vec<u8>, u128>>(
                        kept@,
                        ge.0@,
                    );
                }
            }
        }
        proof {
            assert(src.take(0) =~= Seq::<(AssetKey, AssocMap<Vec<u8>, u128>)>::empty());
        }
        self.sorted_tasks_index.entries = kept;
        proof {
            assert forall|k: AssetKeyV| #[trigger]
                self.sorted_tasks_index@.dom().contains(k) implies (k.2 != asset@
                && s0.sorted_tasks_index.dom().contains(k) && map_view_values(
                self.sorted_tasks_index@,
            )[k] == s0.sorted_tasks_index[k] && self.sorted_tasks_index@[k].wf()) by {
                let j = choose|j: int| 0 <= j < n && src[j].0@ == k;
                assert(src[j].0@.2 != asset@);
                assert(self.sorted_tasks_index@[k] == src[j].1);
                crate::assoc::lemma_assoc_view_index(src, j);
                crate::assoc::lemma_assoc_view_dom::<AssetKey, AssocMap<Vec<u8>, u128>>(src, k);
                assert(crate::assoc::assoc_view(src)[k] == src[j].1);
            }
            assert forall|k: AssetKeyV|
                s0.sorted_tasks_index.dom().contains(k) && k.2 != asset@ implies #[trigger]
                self.sorted_tasks_index@.dom().contains(k) by {
                crate::assoc::lemma_assoc_view_dom::<AssetKey, AssocMap<Vec<u8>, u128>>(src, k);
                let j = choose|j: int| 0 <= j < src.len() && src[j].0@ == k;
                assert(src[j].0@.2 != asset@);
            }
            assert(map_view_values(self.sorted_tasks_index@) =~= index_without(
                s0.sorted_tasks_index,
                asset@,
            ));
        }
        let ghost s_mid = self@;
        proof {
            assert(s_mid =~= (StateV {
                sorted_tasks_index: index_without(s0.sorted_tasks_index, asset@),
                ..s0
            }));
        }
        // Rewrite the queue without the asset's entries, keeping order.
        let ghost mid = *self;
        let ghost q0 = self.task_queue@;
        let mut updated_task_queue: Vec<QueueEntry> = Vec::new();
        let ghost m = q0.len() as int;
        let mut i: usize = 0;
        proof {
            assert(seq_view(q0).take(0) =~= Seq::<QueueEntryV>::empty());
            assert(queue_without(seq_view(q0).take(0), asset@) =~= seq_view(
                updated_task_queue@,
            )) by {
                reveal_with_fuel(Seq::filter, 2);
            }
        }
        while i < self.task_queue.len()
            invariant
                *self == mid,
                self.task_queue@ == q0,
                i <= q0.len(),
                seq_view(updated_task_queue@) == queue_without(
                    seq_view(q0).take(i as int),
                    asset@,
                ),
            decreases q0.len() - i,
        {
            let keep = !bytes_eq(&self.task_queue[i].asset, &asset);
            let ghost p = |e: QueueEntryV| e.asset != asset@;
            let ghost qv = seq_view(q0);
            proof {
                assert(qv.take(i + 1) =~= qv.take(i as int).push(qv[i as int]));
                qv.take(i as int).lemma_filter_push(qv[i as int], p);
                assert(qv[i as int] == q0[i as int]@);
                assert(p(qv[i as int]) == keep);
            }
            if keep {
                let entry = QueueEntry {
                    asset: clone_bytes(&self.task_queue[i].asset),
                    task_id: clone_bytes(&self.task_queue[i].task_id),
                };
                let ghost gentry = entry;
                proof {
                    lemma_seq_view_push(updated_task_queue@, gentry);
                    assert(gentry@ == qv[i as int]);
                }
                updated_task_queue.push(entry);
            }
            i = i + 1;
        }
        proof {
            assert(seq_view(q0).take(m) =~= seq_view(q0));
        }
        self.task_queue = updated_task_queue;
        proof {
            assert(self@ =~= delete_tasks_model(s0, asset@));
        }
    }

    /// Executes a native transfer: debits the sender keep-alive, credits the
    /// recipient, and deposits the success or failure notification. The
    /// returned weight is the action's fixed cost, whatever the outcome.
    pub fn run_native_transfer_task(
        &mut self,
        sender: AccountId,
        recipient: AccountId,
        amount: u128,
        task_id: TaskId,
    ) -> (w: u64)
        requires
            old(self).wf(),
        ensures
            final(self).wf(),
            w == NATIVE_TRANSFER_WEIGHT,
            final(self)@ == match transfer_updates(old(self)@.balances, sender, recipient, amount) {
                Ok(b2) => (StateV {
                    balances: b2,
                    events: old(self)@.events.push(
                        EventV::SuccessfullyTransferredFunds { task_id: task_id@ },
                    ),
                    ..old(self)@
                }),
                Err(e) => (StateV {
                    events: old(self)@.events.push(
                        EventV::TransferFailed { task_id: task_id@, error: e },
                    ),
                    ..old(self)@
                }),
            },
    {
        let sb: u128 = match self.balances.get(&sender) {
            Some(b) => *b,
            None => 0,
        };
        proof {
            assert(sb == bal_of(old(self)@.balances, sender));
        }
        if amount > sb {
            self.deposit_event(
                Event::TransferFailed { task_id, error: Error::InsufficientBalance },
            );
            return NATIVE_TRANSFER_WEIGHT;
        }
        if sender == recipient {
            self.deposit_event(Event::SuccessfullyTransferredFunds { task_id });
            return NATIVE_TRANSFER_WEIGHT;
        }
        if sb - amount < EXISTENTIAL_DEPOSIT {
            self.deposit_event(
                Event::TransferFailed { task_id, error: Error::LiquidityRestrictions },
            );
            return NATIVE_TRANSFER_WEIGHT;
        }
        let rb: u128 = match self.balances.get(&recipient) {
            Some(b) => *b,
            None => 0,
        };
        proof {
            assert(rb == bal_of(old(self)@.balances, recipient));
        }
        if rb > u128::MAX - amount {
            self.deposit_event(Event::TransferFailed { task_id, error: Error::BalanceOverflow });
            return NATIVE_TRANSFER_WEIGHT;
        }
        self.balances.insert(sender, sb - amount);
        self.balances.insert(recipient, rb + amount);
        self.deposit_event(Event::SuccessfullyTransferredFunds { task_id });
        proof {
            assert(final(self)@ =~= (StateV {
                balances: old(self)@.balances.insert(sender, (sb - amount) as u128).insert(
                    recipient,
                    (rb + amount) as u128,
                ),
                events: old(self)@.events.push(
                    EventV::SuccessfullyTransferredFunds { task_id: task_id@ },
                ),
                ..old(self)@
            }));
        }
        NATIVE_TRANSFER_WEIGHT
    }

    /// The fixed dispatch cost of an action.
    fn action_weight_of(action: &Action) -> (w: u64)
        ensures
            w == crate::model::action_weight(action@),
    {
        match action {
            Action::NativeTransfer { .. } => NATIVE_TRANSFER_WEIGHT,
            Action::XCMP { .. } => XCMP_TASK_WEIGHT,
        }
    }

    /// Runs as many queued tasks as the weight allows, in order, stopping
    /// before the first task whose cost the remaining weight cannot cover.
    /// Returns the entries that were not run and the remaining weight.
    pub fn run_tasks(&mut self, task_ids: Vec<QueueEntry>, weight_left: u64) -> (r: (
        Vec<QueueEntry>,
        u64,
    ))
        requires
            old(self).wf(),
        ensures
            final(self).wf(),
            ({
                let k = steps_taken(old(self)@, seq_view(task_ids@), weight_left);
                let m = run_model(old(self)@, seq_view(task_ids@), weight_left, k);
                &&& 0 <= k <= task_ids@.len()
                &&& r.0@ == task_ids@.skip(k)
                &&& final(self)@ == m.0
                &&& r.1 == m.1
                &&& r.1 <= weight_left
            }),
    {
        let mut task_ids = task_ids;
        let ghost tids0 = task_ids@;
        let ghost q = seq_view(task_ids@);
        let ghost s0 = self@;
        let ghost w0 = weight_left;
        let mut weight_left = weight_left;
        let mut consumed_task_index: usize = 0;
        proof {
            assert(q.skip(0) =~= q);
        }
        while consumed_task_index < task_ids.len()
            invariant
                old(self).wf(),
                self.wf(),
                task_ids@ == tids0,
                q == seq_view(tids0),
                s0 == old(self)@,
                consumed_task_index <= tids0.len(),
                self@ == run_model(s0, q, w0, consumed_task_index as int).0,
                weight_left == run_model(s0, q, w0, consumed_task_index as int).1,
                weight_left <= w0,
                steps_taken(s0, q, w0) == consumed_task_index + steps_taken(
                    self@,
                    q.skip(consumed_task_index as int),
                    weight_left,
                ),
            ensures
                old(self).wf(),
                self.wf(),
                task_ids@ == tids0,
                consumed_task_index <= tids0.len(),
                self@ == run_model(s0, q, w0, consumed_task_index as int).0,
                weight_left == run_model(s0, q, w0, consumed_task_index as int).1,
                weight_left <= w0,
                steps_taken(s0, q, w0) == consumed_task_index as int,
            decreases tids0.len() - consumed_task_index,
        {
            let ghost i = consumed_task_index as int;
            let ghost pre = self@;
            let ghost wl_pre = weight_left;
            proof {
                assert(q.skip(i)[0] == q[i]);
                assert(q[i] == tids0[i]@);
            }
            // The cost of the entry at hand.
            let cost: u64 = match self.tasks.get(&task_ids[consumed_task_index].task_id) {
                None => EMIT_EVENT_WEIGHT,
                Some(task) => Self::action_weight_of(&task.action) + TASK_OVERHEAD_WEIGHT,
            };
            proof {
                assert(cost == entry_cost(pre.tasks, q[i]));
            }
            if weight_left < cost {
                proof {
                    assert(steps_taken(pre, q.skip(i), wl_pre) == 0);
                }
                break ;
            }
            let entry_id = clone_bytes(&task_ids[consumed_task_index].task_id);
            let removed = self.tasks.remove(&task_ids[consumed_task_index].task_id);
            let ghost after_remove = self@;
            proof {
                lemma_map_view_remove(old(self).tasks@, q[i].task_id);
                assert(match removed {
                    Some(_) => after_remove == (StateV {
                        tasks: pre.tasks.remove(q[i].task_id),
                        ..pre
                    }),
                    None => after_remove == pre,
                });
            }
            match removed {
                None => {
                    self.deposit_event(Event::TaskNotFound { task_id: entry_id });
                    proof {
                        assert(self@ =~= exec_entry_model(pre, q[i]));
                    }
                },
                Some(task) => {
                    proof {
                        assert(task@ == pre.tasks[q[i].task_id]);
                    }
                    match task.action {
                        Action::NativeTransfer { sender, recipient, amount } => {
                            let _w = self.run_native_transfer_task(
                                sender,
                                recipient,
                                amount,
                                entry_id,
                            );
                            proof {
                                assert(self@ =~= exec_entry_model(pre, q[i]));
                            }
                        },
                        Action::XCMP { destination, encoded_call, overall_weight, .. } => {
                            let msg = XcmpMessage { destination, encoded_call, overall_weight };
                            let ghost gmsg = msg;
                            proof {
                                lemma_seq_view_push(self.outbound_xcmp@, gmsg);
                            }
                            self.outbound_xcmp.push(msg);
                            proof {
                                assert(self@ =~= exec_entry_model(pre, q[i]));
                            }
                        },
                    }
                },
            }
            weight_left = weight_left - cost;
            consumed_task_index = consumed_task_index + 1;
            proof {
                lemma_run_model_snoc(s0, q, w0, i);
                assert(self@ == run_model(s0, q, w0, i + 1).0);
                assert(weight_left == run_model(s0, q, w0, i + 1).1);
                assert(q.skip(i).skip(1) =~= q.skip(i + 1));
                assert(steps_taken(pre, q.skip(i), wl_pre) == 1 + steps_taken(
                    self@,
                    q.skip(i + 1),
                    weight_left,
                ));
            }
        }
        proof {
            if consumed_task_index < tids0.len() {
            } else {
                assert(q.skip(consumed_task_index as int).len() == 0);
                assert(steps_taken(self@, q.skip(consumed_task_index as int), weight_left) == 0);
            }
        }
        let rest = task_ids.split_off(consumed_task_index);
        proof {
            assert(rest@ =~= tids0.skip(consumed_task_index as int));
        }
        (rest, weight_left)
    }

    /// Copies a list of byte strings.
    fn clone_bytes_list(v: &Vec<Vec<u8>>) -> (r: Vec<Vec<u8>>)
        ensures
            bytes_seq_view(r@) == bytes_seq_view(v@),
    {
        let mut r: Vec<Vec<u8>> = Vec::new();
        let n = v.len();
        let mut i: usize = 0;
        proof {
            assert(bytes_seq_view(r@) =~= bytes_seq_view(v@).take(0));
        }
        while i < n
            invariant
                n == v@.len(),
                i <= n,
                bytes_seq_view(r@) == bytes_seq_view(v@).take(i as int),
            decreases n - i,
        {
            let x = clone_bytes(&v[i]);
            let ghost gx = x;
            proof {
                lemma_bytes_seq_view_push(r@, gx);
                assert(bytes_seq_view(v@).take(i + 1) =~= bytes_seq_view(v@).take(i as int).push(
                    v@[i as int]@,
                ));
            }
            r.push(x);
            i = i + 1;
        }
        proof {
            assert(bytes_seq_view(v@).take(n as int) =~= bytes_seq_view(v@));
        }
        r
    }

    /// Copies the task queue.
    fn clone_queue(v: &Vec<QueueEntry>) -> (r: Vec<QueueEntry>)
        ensures
            seq_view(r@) == seq_view(v@),
    {
        let mut r: Vec<QueueEntry> = Vec::new();
        let n = v.len();
        let mut i: usize = 0;
        proof {
            assert(seq_view(r@) =~= seq_view(v@).take(0));
        }
        while i < n
            invariant
                n == v@.len(),
                i <= n,
                seq_view(r@) == seq_view(v@).take(i as int),
            decreases n - i,
        {
            let x = QueueEntry {
                asset: clone_bytes(&v[i].asset),
                task_id: clone_bytes(&v[i].task_id),
            };
            let ghost gx = x;
            proof {
                lemma_seq_view_push(r@, gx);
                assert(seq_view(v@).take(i + 1) =~= seq_view(v@).take(i as int).push(
                    v@[i as int]@,
                ));
            }
            r.push(x);
            i = i + 1;
        }
        proof {
            assert(seq_view(v@).take(n as int) =~= seq_view(v@));
        }
        r
    }

    /// One engine invocation: checks the shutdown flag and the budget, runs
    /// the periodic reset pass all-or-nothing, then drains as much of the
    /// task queue as the remaining weight allows and persists the rest.
    /// Returns the weight consumed, never more than `max_weight`.
    pub fn trigger_tasks(&mut self, max_weight: u64) -> (consumed: u64)
        requires
            old(self).wf(),
        ensures
            final(self).wf(),
            final(self)@ == trigger_model(old(self)@, max_weight).0,
            consumed == trigger_model(old(self)@, max_weight).1,
            consumed <= max_weight,
    {
        if self.is_shutdown() {
            return 0;
        }
        if max_weight < CHECK_TIME_AND_DELETION_WEIGHT {
            return 0;
        }
        let mut weight_left: u64 = max_weight - CHECK_TIME_AND_DELETION_WEIGHT;
        let ghost wl0 = weight_left;
        // Periodic reset pass: all of the slot's batch, or none of it.
        match self.get_current_time_slot() {
            Err(_) => {},
            Ok(slot) => {
                let assets_opt: Option<Vec<Vec<u8>>> = match self.scheduled_asset_deletion.get(
                    &slot,
                ) {
                    None => None,
                    Some(list) => Some(Self::clone_bytes_list(list)),
                };
                match assets_opt {
                    None => {},
                    Some(assets) => {
                        let ghost s_before = self@;
                        let ghost av = bytes_seq_view(assets@);
                        proof {
                            assert(av == s_before.scheduled_asset_deletion[slot]);
                        }
                        let cost128: u128 = (assets.len() as u128) * (RESET_ASSET_WEIGHT as u128);
                        proof {
                            assert(cost128 == reset_cost(av.len()));
                        }
                        if (weight_left as u128) >= cost128 {
                            let cost: u64 = cost128 as u64;
                            let n_assets = assets.len();
                            let mut j: usize = 0;
                            while j < n_assets
                                invariant
                                    old(self).wf(),
                                    self.wf(),
                                    n_assets == assets@.len(),
                                    j <= n_assets,
                                    av == bytes_seq_view(assets@),
                                    self@ == purge_assets_model(s_before, av, j as int),
                                decreases n_assets - j,
                            {
                                let asset = clone_bytes(&assets[j]);
                                self.delete_asset_tasks(asset);
                                self.deposit_event(
                                    Event::AssetPeriodReset { asset: clone_bytes(&assets[j]) },
                                );
                                proof {
                                    assert(self@ =~= purge_assets_model(
                                        s_before,
                                        av,
                                        j + 1 as int,
                                    ));
                                }
                                j = j + 1;
                            }
                            let ghost sched0 = self.scheduled_asset_deletion@;
                            self.scheduled_asset_deletion.remove(&slot);
                            proof {
                                lemma_map_ids_view_remove(sched0, slot);
                                assert(self@ =~= (StateV {
                                    scheduled_asset_deletion: purge_assets_model(
                                        s_before,
                                        av,
                                        av.len() as int,
                                    ).scheduled_asset_deletion.remove(slot),
                                    ..purge_assets_model(s_before, av, av.len() as int)
                                }));
                            }
                            weight_left = weight_left - cost;
                        }
                    },
                }
            },
        }
        let ghost rm = reset_model(old(self)@, wl0);
        proof {
            assert(self@ == rm.0);
            assert(weight_left == rm.1);
            assert(weight_left <= max_weight);
        }
        // Task execution pass: charge the queue read and write-back, then
        // run what the remaining weight covers.
        let run_charge: u64 = DB_READ_WEIGHT + DB_WRITE_WEIGHT;
        weight_left = if weight_left >= run_charge {
            weight_left - run_charge
        } else {
            0
        };
        proof {
            assert(weight_left == sat_sub(rm.1, (DB_READ_WEIGHT + DB_WRITE_WEIGHT) as u64));
        }
        if self.task_queue.len() > 0 {
            let q_copy = Self::clone_queue(&self.task_queue);
            let ghost qc0 = q_copy@;
            let ghost s1 = self@;
            let ghost wl2 = weight_left;
            let ghost qv = seq_view(qc0);
            proof {
                assert(qv == s1.task_queue);
                assert(qv.len() > 0);
            }
            let run_result = self.run_tasks(q_copy, weight_left);
            let tasks_left = run_result.0;
            let new_weight_left = run_result.1;
            let ghost k = steps_taken(s1, qv, wl2);
            proof {
                lemma_seq_view_skip(qc0, k);
            }
            self.task_queue = tasks_left;
            weight_left = new_weight_left;
            proof {
                assert(self@ =~= (StateV { task_queue: qv.skip(k), ..run_model(s1, qv, wl2, k).0 }));
                assert(weight_left == run_model(s1, qv, wl2, k).1);
                lemma_run_model_weight(s1, qv, wl2, k);
                assert(weight_left <= max_weight);
            }
            max_weight - weight_left
        } else {
            max_weight - weight_left
        }
    }

    /// The per-block hook: one constant-cost read when shut down, otherwise
    /// one engine invocation with the configured share of the block weight.
    pub fn on_initialize(&mut self) -> (consumed: u64)
        requires
            old(self).wf(),
        ensures
            final(self).wf(),
            old(self)@.shutdown ==> consumed == DB_READ_WEIGHT && *final(self) == *old(self),
            !old(self)@.shutdown ==> final(self)@ == trigger_model(
                old(self)@,
                scheduled_budget(),
            ).0 && consumed == trigger_model(old(self)@, scheduled_budget()).1,
    {
        if self.is_shutdown() {
            return DB_READ_WEIGHT;
        }
        proof {
            assert(1_000_000_000_000u128 * 100_000_000u128 == 100_000_000_000_000_000_000u128)
                by (nonlinear_arith);
            assert((MAX_BLOCK_WEIGHT as u128) * (MAX_WEIGHT_PER_BILLION as u128)
                == 100_000_000_000_000_000_000u128);
        }
        let max_weight: u64 = (((MAX_BLOCK_WEIGHT as u128) * (MAX_WEIGHT_PER_BILLION as u128)) / (
        PER_BILLION as u128)) as u64;
        proof {
            assert(max_weight == scheduled_budget());
        }
        self.trigger_tasks(max_weight)
    }

    /// The registry record of an asset pair, if it is tracked.
    pub fn get_asset_registry_info(
        &self,
        chain: &Vec<u8>,
        exchange: &Vec<u8>,
        asset1: &Vec<u8>,
        asset2: &Vec<u8>,
    ) -> (r: Option<&RegistryInfo>)
        requires
            self.wf(),
        ensures
            ({
                let key = (chain@, exchange@, asset1@, asset2@);
                match r {
                    Some(info) => self@.asset_registry.dom().contains(key) && info@
                        == self@.asset_registry[key],
                    None => !self@.asset_registry.dom().contains(key),
                }
            }),
    {
        let key = AssetKey {
            chain: clone_bytes(chain),
            exchange: clone_bytes(exchange),
            asset1: clone_bytes(asset1),
            asset2: clone_bytes(asset2),
        };
        self.asset_registry.get(&key)
    }

    /// The latest price record of an asset pair, if one was published.
    pub fn get_asset_price_data(
        &self,
        chain: &Vec<u8>,
        exchange: &Vec<u8>,
        asset1: &Vec<u8>,
        asset2: &Vec<u8>,
    ) -> (r: Option<&PriceData>)
        requires
            self.wf(),
        ensures
            ({
                let key = (chain@, exchange@, asset1@, asset2@);
                match r {
                    Some(p) => self@.price_registry.dom().contains(key) && *p
                        == self@.price_registry[key],
                    None => !self@.price_registry.dom().contains(key),
                }
            }),
    {
        let key = AssetKey {
            chain: clone_bytes(chain),
            exchange: clone_bytes(exchange),
            asset1: clone_bytes(asset1),
            asset2: clone_bytes(asset2),
        };
        self.price_registry.get(&key)
    }

    /// The per-asset trigger index of an asset pair, if it has one.
    pub fn get_sorted_tasks_index(
        &self,
        chain: &Vec<u8>,
        exchange: &Vec<u8>,
        asset1: &Vec<u8>,
        asset2: &Vec<u8>,
    ) -> (r: Option<&AssocMap<Vec<u8>, u128>>)
        requires
            self.wf(),
        ensures
            ({
                let key = (chain@, exchange@, asset1@, asset2@);
                match r {
                    Some(m) => self@.sorted_tasks_index.dom().contains(key) && m@
                        == self@.sorted_tasks_index[key],
                    None => !self@.sorted_tasks_index.dom().contains(key),
                }
            }),
    {
        let key = AssetKey {
            chain: clone_bytes(chain),
            exchange: clone_bytes(exchange),
            asset1: clone_bytes(asset1),
            asset2: clone_bytes(asset2),
        };
        self.sorted_tasks_index.get(&key)
    }

    /// The task stored under an identifier, if any.
    pub fn get_task(&self, task_id: &Vec<u8>) -> (r: Option<&Task>)
        requires
            self.wf(),
        ensures
            match r {
                Some(t) => self@.tasks.dom().contains(task_id@) && t@ == self@.tasks[task_id@],
                None => !self@.tasks.dom().contains(task_id@),
            },
    {
        self.tasks.get(task_id)
    }

    /// The task ids an account owns, if it owns any.
    pub fn get_account_task(&self, account: AccountId) -> (r: Option<&Vec<Vec<u8>>>)
        requires
            self.wf(),
        ensures
            match r {
                Some(ids) => self@.account_tasks.dom().contains(account) && bytes_seq_view(ids@)
                    == self@.account_tasks[account],
                None => !self@.account_tasks.dom().contains(account),
            },
    {
        self.account_tasks.get(&account)
    }

    /// The pending task queue.
    pub fn get_task_queue(&self) -> (r: &Vec<QueueEntry>)
        ensures
            seq_view(r@) == self@.task_queue,
    {
        &self.task_queue
    }

    /// The asset names scheduled for a periodic reset in a time slot.
    pub fn get_scheduled_asset_period_reset(&self, slot: u64) -> (r: Option<&Vec<Vec<u8>>>)
        requires
            self.wf(),
        ensures
            match r {
                Some(a) => self@.scheduled_asset_deletion.dom().contains(slot) && bytes_seq_view(
                    a@,
                ) == self@.scheduled_asset_deletion[slot],
                None => !self@.scheduled_asset_deletion.dom().contains(slot),
            },
    {
        self.scheduled_asset_deletion.get(&slot)
    }

    /// The balance of an account in the ledger; absent accounts hold zero.
    pub fn get_balance(&self, account: AccountId) -> (r: u128)
        requires
            self.wf(),
        ensures
            r == bal_of(self@.balances, account),
    {
        match self.balances.get(&account) {
            Some(b) => *b,
            None => 0,
        }
    }

    /// Credits an account, as the surrounding ledger would when endowing it.
    pub fn set_balance(&mut self, account: AccountId, amount: u128)
        requires
            old(self).wf(),
        ensures
            final(self).wf(),
            final(self)@ == (StateV {
                balances: old(self)@.balances.insert(account, amount),
                ..old(self)@
            }),
    {
        self.balances.insert(account, amount);
        proof {
            assert(final(self)@ =~= (StateV {
                balances: old(self)@.balances.insert(account, amount),
                ..old(self)@
            }));
        }
    }

    /// Derives a task identifier from the block number, the transaction
    /// index, and the number of events emitted so far. Pure: no side effect.
    pub fn generate_task_id(&self) -> (r: TaskId)
        ensures
            r@ == next_task_id(self@),
    {
        let evt = self.events.len() as u64;
        proof {
            assert(self@.events.len() == self.events@.len());
        }
        task_id_bytes(self.block_number, self.extrinsic_index as u64, evt)
    }
}

} // verus!
