//! Scheduling, the weight-metered engine, the dispatcher, and the periodic
//! reset pass.

use automation_price::pallet::Pallet;
use automation_price::types::{
    Action, AssetPayment, DispatchError, Error, Event, InstructionSequence, LocationInput, Origin,
    QueueEntry, Task, CHECK_TIME_AND_DELETION_WEIGHT, DB_READ_WEIGHT, DB_WRITE_WEIGHT,
    EMIT_EVENT_WEIGHT, NATIVE_TRANSFER_WEIGHT, RESET_ASSET_WEIGHT, TASK_OVERHEAD_WEIGHT,
    XCMP_TASK_WEIGHT,
};

fn bv(s: &str) -> Vec<u8> {
    s.as_bytes().to_vec()
}

fn loc(payload: &str) -> LocationInput {
    LocationInput { version: 3, payload: bv(payload) }
}

fn fee() -> AssetPayment {
    AssetPayment { asset_location: loc("fee-loc"), amount: 100 }
}

fn schedule_xcmp(p: &mut Pallet, who: u64, asset1: &str, trigger: u128) {
    p.schedule_xcmp_task(
        Origin::Signed(who),
        bv("eth"),
        bv("uni"),
        bv(asset1),
        bv("ETH"),
        0,
        bv("gt"),
        vec![trigger],
        loc("dest"),
        loc("sched-fee"),
        fee(),
        bv("call"),
        1_000,
        2_000,
    )
    .unwrap();
}

#[test]
fn schedule_xcmp_task_installs_store_index_queue_and_reverse_index() {
    let mut p = Pallet::new();
    p.block_number = 7;
    schedule_xcmp(&mut p, 1, "USDC", 1800);
    assert_eq!(p.task_queue.len(), 1);
    let id = p.task_queue[0].task_id.clone();
    assert_eq!(p.task_queue[0].asset, bv("USDC"));
    let task = p.get_task(&id).unwrap();
    assert_eq!(task.owner_id, 1);
    assert_eq!(task.trigger_params, vec![1800]);
    assert!(matches!(task.action, Action::XCMP { .. }));
    let index = p.get_sorted_tasks_index(&bv("eth"), &bv("uni"), &bv("USDC"), &bv("ETH")).unwrap();
    assert_eq!(index.get(&id), Some(&1800));
    let owned = p.get_account_task(1).unwrap();
    assert_eq!(owned.len(), 1);
    assert_eq!(owned[0], id);
    assert!(matches!(p.events.last().unwrap(), Event::TaskScheduled { who: 1, .. }));
}

#[test]
fn schedule_xcmp_task_rejects_unsupported_location_version() {
    let mut p = Pallet::new();
    let r = p.schedule_xcmp_task(
        Origin::Signed(1),
        bv("eth"),
        bv("uni"),
        bv("USDC"),
        bv("ETH"),
        0,
        bv("gt"),
        vec![1800],
        LocationInput { version: 2, payload: bv("dest") },
        loc("sched-fee"),
        fee(),
        bv("call"),
        1_000,
        2_000,
    );
    assert_eq!(r, Err(DispatchError::Module(Error::BadVersion)));
    assert_eq!(p.task_queue.len(), 0);
    assert_eq!(p.events.len(), 0);
}

#[test]
fn schedule_xcmp_task_requires_signed_origin() {
    let mut p = Pallet::new();
    let r = p.schedule_xcmp_task(
        Origin::Root,
        bv("eth"),
        bv("uni"),
        bv("USDC"),
        bv("ETH"),
        0,
        bv("gt"),
        vec![1800],
        loc("dest"),
        loc("sched-fee"),
        fee(),
        bv("call"),
        1_000,
        2_000,
    );
    assert_eq!(r, Err(DispatchError::BadOrigin));
}

#[test]
fn validate_and_schedule_task_rejects_empty_id_atomically() {
    let mut p = Pallet::new();
    let task = Task {
        owner_id: 1,
        task_id: Vec::new(),
        chain: bv("eth"),
        exchange: bv("uni"),
        asset_pair: (bv("USDC"), bv("ETH")),
        trigger_function: bv("gt"),
        trigger_params: vec![1800],
        action: Action::NativeTransfer { sender: 1, recipient: 2, amount: 5 },
    };
    assert_eq!(p.validate_and_schedule_task(task), Err(Error::EmptyProvidedId));
    assert_eq!(p.task_queue.len(), 0);
    assert_eq!(p.events.len(), 0);
    assert!(p.get_sorted_tasks_index(&bv("eth"), &bv("uni"), &bv("USDC"), &bv("ETH")).is_none());
    assert!(p.get_account_task(1).is_none());
}

#[test]
fn run_tasks_executes_budget_over_cost_per_task_and_keeps_rest_in_order() {
    let mut p = Pallet::new();
    p.block_number = 1;
    schedule_xcmp(&mut p, 1, "AAA", 10);
    schedule_xcmp(&mut p, 1, "BBB", 20);
    schedule_xcmp(&mut p, 1, "CCC", 30);
    let ids: Vec<Vec<u8>> = p.task_queue.iter().map(|e| e.task_id.clone()).collect();
    let queue = p.task_queue.clone();
    // Each task costs its action weight plus the fixed overhead.
    let cost = XCMP_TASK_WEIGHT + TASK_OVERHEAD_WEIGHT;
    let budget = 2 * cost + 50_000;
    let (rest, left) = p.run_tasks(queue, budget);
    assert_eq!(rest.len(), 1);
    assert_eq!(rest[0].task_id, ids[2]);
    assert_eq!(left, 50_000);
    assert!(p.get_task(&ids[0]).is_none());
    assert!(p.get_task(&ids[1]).is_none());
    assert!(p.get_task(&ids[2]).is_some());
    assert_eq!(p.outbound_xcmp.len(), 2);
    assert_eq!(p.outbound_xcmp[0].destination, bv("dest"));
    assert_eq!(p.outbound_xcmp[0].encoded_call, bv("call"));
    assert_eq!(p.outbound_xcmp[0].overall_weight, 2_000);
}

#[test]
fn run_tasks_zero_budget_runs_nothing() {
    let mut p = Pallet::new();
    schedule_xcmp(&mut p, 1, "AAA", 10);
    let queue = p.task_queue.clone();
    let events_before = p.events.len();
    let (rest, left) = p.run_tasks(queue, 0);
    assert_eq!(rest.len(), 1);
    assert_eq!(left, 0);
    assert_eq!(p.events.len(), events_before);
    assert_eq!(p.outbound_xcmp.len(), 0);
}

#[test]
fn run_tasks_reports_missing_task_and_charges_event_weight() {
    let mut p = Pallet::new();
    p.task_queue.push(QueueEntry { asset: bv("AAA"), task_id: bv("no-such-task") });
    let queue = p.task_queue.clone();
    let (rest, left) = p.run_tasks(queue, EMIT_EVENT_WEIGHT + 7);
    assert_eq!(rest.len(), 0);
    assert_eq!(left, 7);
    assert!(matches!(p.events.last().unwrap(), Event::TaskNotFound { .. }));
}

#[test]
fn native_transfer_task_moves_funds_and_keeps_sender_alive() {
    let mut p = Pallet::new();
    p.set_balance(1, 1_000);
    let task = Task::create_event_task(1, bv("eth"), bv("uni"), bv("t-1"), (bv("USDC"), bv("ETH")), 2, 400);
    p.validate_and_schedule_task(task).unwrap();
    let queue = p.task_queue.clone();
    let cost = NATIVE_TRANSFER_WEIGHT + TASK_OVERHEAD_WEIGHT;
    let (rest, left) = p.run_tasks(queue, cost);
    assert_eq!(rest.len(), 0);
    assert_eq!(left, 0);
    assert_eq!(p.get_balance(1), 600);
    assert_eq!(p.get_balance(2), 400);
    assert!(matches!(p.events.last().unwrap(), Event::SuccessfullyTransferredFunds { .. }));
    assert!(p.get_task(&bv("t-1")).is_none());
}

#[test]
fn native_transfer_failure_consumes_task_and_reports_cause() {
    let mut p = Pallet::new();
    p.set_balance(1, 100);
    let task = Task::create_event_task(1, bv("eth"), bv("uni"), bv("t-1"), (bv("USDC"), bv("ETH")), 2, 500);
    p.validate_and_schedule_task(task).unwrap();
    let queue = p.task_queue.clone();
    let (_, _) = p.run_tasks(queue, 10_000_000);
    assert!(matches!(
        p.events.last().unwrap(),
        Event::TransferFailed { error: Error::InsufficientBalance, .. }
    ));
    // The task is consumed even though the transfer failed.
    assert!(p.get_task(&bv("t-1")).is_none());
    assert_eq!(p.get_balance(1), 100);
    assert_eq!(p.get_balance(2), 0);
}

#[test]
fn native_transfer_refuses_to_drain_below_existential_deposit() {
    let mut p = Pallet::new();
    p.set_balance(1, 1_000);
    let task = Task::create_event_task(1, bv("eth"), bv("uni"), bv("t-1"), (bv("USDC"), bv("ETH")), 2, 995);
    p.validate_and_schedule_task(task).unwrap();
    let queue = p.task_queue.clone();
    let (_, _) = p.run_tasks(queue, 10_000_000);
    assert!(matches!(
        p.events.last().unwrap(),
        Event::TransferFailed { error: Error::LiquidityRestrictions, .. }
    ));
    assert_eq!(p.get_balance(1), 1_000);
}

#[test]
fn native_transfer_refuses_to_overflow_the_recipient() {
    let mut p = Pallet::new();
    p.set_balance(1, 1_000);
    p.set_balance(2, u128::MAX);
    let task = Task::create_event_task(1, bv("eth"), bv("uni"), bv("t-1"), (bv("USDC"), bv("ETH")), 2, 500);
    p.validate_and_schedule_task(task).unwrap();
    let queue = p.task_queue.clone();
    let (_, _) = p.run_tasks(queue, 10_000_000);
    assert!(matches!(
        p.events.last().unwrap(),
        Event::TransferFailed { error: Error::BalanceOverflow, .. }
    ));
    assert_eq!(p.get_balance(1), 1_000);
    assert_eq!(p.get_balance(2), u128::MAX);
}

#[test]
fn scheduling_the_same_id_twice_overwrites_the_stored_task() {
    let mut p = Pallet::new();
    let first = Task::create_event_task(1, bv("eth"), bv("uni"), bv("t-1"), (bv("USDC"), bv("ETH")), 2, 100);
    let second = Task::create_event_task(1, bv("eth"), bv("uni"), bv("t-1"), (bv("USDC"), bv("ETH")), 3, 200);
    p.validate_and_schedule_task(first).unwrap();
    p.validate_and_schedule_task(second).unwrap();
    // Two queue entries point at one stored task: the later write won.
    assert_eq!(p.task_queue.len(), 2);
    match &p.get_task(&bv("t-1")).unwrap().action {
        Action::NativeTransfer { recipient, amount, .. } => {
            assert_eq!(*recipient, 3);
            assert_eq!(*amount, 200);
        },
        _ => panic!("expected a transfer action"),
    }
    // Running the queue consumes the task once and then reports the second
    // entry's task as missing.
    p.set_balance(1, 1_000);
    let queue = p.task_queue.clone();
    let (_, _) = p.run_tasks(queue, 10_000_000);
    assert!(p.get_task(&bv("t-1")).is_none());
    assert!(matches!(p.events.last().unwrap(), Event::TaskNotFound { .. }));
    assert_eq!(p.get_balance(3), 200);
}

#[test]
fn trigger_tasks_zero_budget_consumes_and_mutates_nothing() {
    let mut p = Pallet::new();
    schedule_xcmp(&mut p, 1, "USDC", 1800);
    let events_before = p.events.len();
    let consumed = p.trigger_tasks(0);
    assert_eq!(consumed, 0);
    assert_eq!(p.task_queue.len(), 1);
    assert_eq!(p.events.len(), events_before);
    assert_eq!(p.outbound_xcmp.len(), 0);
}

#[test]
fn trigger_tasks_executes_queue_and_persists_remainder() {
    let mut p = Pallet::new();
    schedule_xcmp(&mut p, 1, "AAA", 10);
    schedule_xcmp(&mut p, 1, "BBB", 20);
    let ids: Vec<Vec<u8>> = p.task_queue.iter().map(|e| e.task_id.clone()).collect();
    // Enough for the checks, the queue charge, and exactly one task.
    let budget = CHECK_TIME_AND_DELETION_WEIGHT + DB_READ_WEIGHT + DB_WRITE_WEIGHT
        + (XCMP_TASK_WEIGHT + TASK_OVERHEAD_WEIGHT) + 1_000;
    let consumed = p.trigger_tasks(budget);
    assert_eq!(consumed, budget - 1_000);
    assert_eq!(p.task_queue.len(), 1);
    assert_eq!(p.task_queue[0].task_id, ids[1]);
    assert!(p.get_task(&ids[0]).is_none());
    assert!(p.get_task(&ids[1]).is_some());
}

#[test]
fn trigger_tasks_never_consumes_more_than_budget() {
    let mut p = Pallet::new();
    schedule_xcmp(&mut p, 1, "AAA", 10);
    let budget = CHECK_TIME_AND_DELETION_WEIGHT + 1;
    let consumed = p.trigger_tasks(budget);
    assert!(consumed <= budget);
    // Too little for any task: the queue is untouched.
    assert_eq!(p.task_queue.len(), 1);
}

#[test]
fn trigger_tasks_runs_scheduled_asset_reset_all_or_nothing() {
    let mut p = Pallet::new();
    schedule_xcmp(&mut p, 1, "AAA", 10);
    schedule_xcmp(&mut p, 1, "BBB", 20);
    p.timestamp = 120_000;
    p.scheduled_asset_deletion.insert(120, vec![bv("AAA")]);
    // Enough for the checks and the reset, but not for any queued task.
    let budget = CHECK_TIME_AND_DELETION_WEIGHT + RESET_ASSET_WEIGHT + DB_READ_WEIGHT
        + DB_WRITE_WEIGHT;
    let consumed = p.trigger_tasks(budget);
    assert_eq!(consumed, budget);
    // AAA's queue and index entries are gone; BBB's remain.
    assert_eq!(p.task_queue.len(), 1);
    assert_eq!(p.task_queue[0].asset, bv("BBB"));
    assert!(p.get_sorted_tasks_index(&bv("eth"), &bv("uni"), &bv("AAA"), &bv("ETH")).is_none());
    assert!(p.get_sorted_tasks_index(&bv("eth"), &bv("uni"), &bv("BBB"), &bv("ETH")).is_some());
    assert!(p.get_scheduled_asset_period_reset(120).is_none());
    assert!(p
        .events
        .iter()
        .any(|e| matches!(e, Event::AssetPeriodReset { asset } if *asset == bv("AAA"))));
}

#[test]
fn trigger_tasks_skips_reset_when_weight_cannot_cover_the_batch() {
    let mut p = Pallet::new();
    schedule_xcmp(&mut p, 1, "AAA", 10);
    p.timestamp = 120_000;
    p.scheduled_asset_deletion.insert(120, vec![bv("AAA")]);
    // Enough for the checks but not for the reset batch.
    let budget = CHECK_TIME_AND_DELETION_WEIGHT + RESET_ASSET_WEIGHT - 1;
    p.trigger_tasks(budget);
    // The whole reset was skipped rather than half-done.
    assert!(p.get_scheduled_asset_period_reset(120).is_some());
    assert!(p.get_sorted_tasks_index(&bv("eth"), &bv("uni"), &bv("AAA"), &bv("ETH")).is_some());
}

#[test]
fn delete_asset_tasks_purges_one_asset_and_spares_others() {
    let mut p = Pallet::new();
    schedule_xcmp(&mut p, 1, "AAA", 10);
    schedule_xcmp(&mut p, 1, "BBB", 20);
    schedule_xcmp(&mut p, 2, "AAA", 30);
    let ids: Vec<Vec<u8>> = p.task_queue.iter().map(|e| e.task_id.clone()).collect();
    p.delete_asset_tasks(bv("AAA"));
    assert_eq!(p.task_queue.len(), 1);
    assert_eq!(p.task_queue[0].asset, bv("BBB"));
    assert_eq!(p.task_queue[0].task_id, ids[1]);
    assert!(p.get_sorted_tasks_index(&bv("eth"), &bv("uni"), &bv("AAA"), &bv("ETH")).is_none());
    assert!(p.get_sorted_tasks_index(&bv("eth"), &bv("uni"), &bv("BBB"), &bv("ETH")).is_some());
    // The task store itself is not purged by this pass.
    assert!(p.get_task(&ids[0]).is_some());
}

#[test]
fn shutdown_halts_the_engine_and_restart_revives_it() {
    let mut p = Pallet::new();
    schedule_xcmp(&mut p, 1, "AAA", 10);
    assert!(!p.is_shutdown());
    p.shutdown();
    assert!(p.is_shutdown());
    let consumed = p.on_initialize();
    assert_eq!(consumed, DB_READ_WEIGHT);
    assert_eq!(p.task_queue.len(), 1);
    assert_eq!(p.trigger_tasks(10_000_000), 0);
    assert_eq!(p.task_queue.len(), 1);
    p.restart();
    assert!(!p.is_shutdown());
    let consumed = p.on_initialize();
    assert!(consumed > 0);
    assert_eq!(p.task_queue.len(), 0);
}

#[test]
fn on_initialize_with_empty_queue_charges_fixed_bookkeeping() {
    let mut p = Pallet::new();
    let consumed = p.on_initialize();
    assert_eq!(consumed, CHECK_TIME_AND_DELETION_WEIGHT + DB_READ_WEIGHT + DB_WRITE_WEIGHT);
}

#[test]
fn create_event_task_builds_a_native_transfer() {
    let t = Task::create_event_task(1, bv("eth"), bv("uni"), bv("t-9"), (bv("USDC"), bv("ETH")), 2, 400);
    assert_eq!(t.owner_id, 1);
    assert_eq!(t.task_id, bv("t-9"));
    assert_eq!(t.chain, bv("eth"));
    assert_eq!(t.exchange, bv("uni"));
    assert_eq!(t.asset_pair, (bv("USDC"), bv("ETH")));
    assert_eq!(t.trigger_function, vec![1]);
    assert_eq!(t.trigger_params, vec![1]);
    assert_eq!(t.action, Action::NativeTransfer { sender: 1, recipient: 2, amount: 400 });
}

#[test]
fn schedule_task_hands_back_the_task_id() {
    let t = Task::create_event_task(1, bv("eth"), bv("uni"), bv("t-9"), (bv("USDC"), bv("ETH")), 2, 400);
    assert_eq!(Pallet::schedule_task(&t), Ok(bv("t-9")));
}

#[test]
fn xcmp_action_records_instruction_sequence() {
    let mut p = Pallet::new();
    schedule_xcmp(&mut p, 1, "USDC", 1800);
    let id = p.task_queue[0].task_id.clone();
    let task = p.get_task(&id).unwrap();
    match &task.action {
        Action::XCMP { schedule_as, instruction_sequence, encoded_call_weight, .. } => {
            assert_eq!(*schedule_as, None);
            assert_eq!(*instruction_sequence, InstructionSequence::PayThroughSovereignAccount);
            assert_eq!(*encoded_call_weight, 1_000);
        },
        _ => panic!("expected a cross-chain action"),
    }
}
