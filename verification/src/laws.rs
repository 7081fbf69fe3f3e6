//! The library's general laws, proved over the model: what scheduling
//! installs, when task identifiers collide, how much weight the engine may
//! consume, how many uniform tasks a budget buys, and what purging an asset
//! leaves behind.

use vstd::prelude::*;

use crate::model::{
    action_weight, delete_tasks_model, entry_cost, exec_entry_model, next_task_id, queue_without,
    scheduled_state, steps_taken, trigger_model, StateV,
};
use crate::task_id::lemma_task_id_injective;
use crate::types::{
    AssetKeyV, QueueEntryV, TaskV, CHECK_TIME_AND_DELETION_WEIGHT, TASK_OVERHEAD_WEIGHT,
};

verus! {

/// Law: scheduling a task installs, together, a task-store entry retrievable
/// by its id, an index entry under its asset key carrying its primary
/// trigger threshold, and a queue entry at the back of the queue; nothing
/// else moves. (The all-or-none half is the contract of
/// `validate_and_schedule_task`: on a rejected empty id the state is
/// unchanged.)
pub proof fn lemma_schedule_installs_all(s: StateV, tv: TaskV)
    requires
        tv.trigger_params.len() >= 1,
    ensures
        ({
            let s1 = scheduled_state(s, tv);
            &&& s1.tasks.dom().contains(tv.task_id) && s1.tasks[tv.task_id] == tv
            &&& s1.sorted_tasks_index.dom().contains(tv.key())
            &&& s1.sorted_tasks_index[tv.key()].dom().contains(tv.task_id)
            &&& s1.sorted_tasks_index[tv.key()][tv.task_id] == tv.trigger_params[0]
            &&& s1.task_queue == s.task_queue.push(
                QueueEntryV { asset: tv.asset_pair.0, task_id: tv.task_id },
            )
            &&& s1.asset_registry == s.asset_registry
            &&& s1.price_registry == s.price_registry
            &&& s1.balances == s.balances
        }),
{
}

/// Law: task identifiers derived in one block from differing transaction
/// indices or event counts never collide; across differing block numbers
/// they never collide either.
pub proof fn lemma_generate_task_id_unique(s1: StateV, s2: StateV)
    requires
        s1.block_number != s2.block_number || s1.extrinsic_index != s2.extrinsic_index
            || s1.events.len() != s2.events.len(),
    ensures
        next_task_id(s1) != next_task_id(s2),
{
    if next_task_id(s1) == next_task_id(s2) {
        lemma_task_id_injective(
            s1.block_number as nat,
            s1.extrinsic_index as nat,
            s1.events.len(),
            s2.block_number as nat,
            s2.extrinsic_index as nat,
            s2.events.len(),
        );
    }
}

/// Law: one engine invocation never consumes more weight than its budget,
/// and with a budget of zero it consumes nothing and changes nothing.
pub proof fn lemma_trigger_budget(s: StateV, budget: u64)
    ensures
        trigger_model(s, budget).1 <= budget,
        budget == 0 ==> trigger_model(s, budget) == (s, 0u64),
{
    assert(CHECK_TIME_AND_DELETION_WEIGHT > 0);
}

/// Law: on a queue of pairwise distinct live tasks that each cost `w`, the
/// engine executes exactly `budget / (w + overhead)` of them — at most all —
/// where the overhead is one record deletion plus one record lookup.
/// Together with the contract of `run_tasks`, the unexecuted remainder is
/// the queue's suffix, in its original order.
pub proof fn lemma_uniform_queue_throughput(s: StateV, q: Seq<QueueEntryV>, budget: u64, w: u64)
    requires
        forall|i: int|
            0 <= i < q.len() ==> s.tasks.dom().contains((#[trigger] q[i]).task_id)
                && action_weight(s.tasks[q[i].task_id].action) == w,
        forall|i: int, j: int| 0 <= i < j < q.len() ==> q[i].task_id != q[j].task_id,
        w + TASK_OVERHEAD_WEIGHT <= u64::MAX,
    ensures
        steps_taken(s, q, budget) == vstd::math::min(
            q.len() as int,
            budget as int / (w + TASK_OVERHEAD_WEIGHT),
        ),
    decreases q.len(),
{
    let c = (w + TASK_OVERHEAD_WEIGHT) as int;
    if q.len() == 0 {
        vstd::arithmetic::div_mod::lemma_div_pos_is_pos(budget as int, c);
    } else {
        assert(entry_cost(s.tasks, q[0]) == c);
        if budget < c {
            vstd::arithmetic::div_mod::lemma_basic_div_specific_divisor(c);
            assert(budget as int / c == 0);
        } else {
            let s2 = exec_entry_model(s, q[0]);
            assert(s2.tasks == s.tasks.remove(q[0].task_id));
            assert(forall|i: int|
                0 <= i < q.skip(1).len() ==> s2.tasks.dom().contains(
                    (#[trigger] q.skip(1)[i]).task_id,
                ) && action_weight(s2.tasks[q.skip(1)[i].task_id].action) == w) by {
                assert(forall|i: int| 0 <= i < q.skip(1).len() ==> q.skip(1)[i] == q[i + 1]);
            }
            assert(forall|i: int, j: int|
                0 <= i < j < q.skip(1).len() ==> q.skip(1)[i].task_id != q.skip(1)[j].task_id) by {
                assert(forall|i: int| 0 <= i < q.skip(1).len() ==> q.skip(1)[i] == q[i + 1]);
            }
            lemma_uniform_queue_throughput(s2, q.skip(1), (budget - c) as u64, w);
            vstd::arithmetic::div_mod::lemma_div_minus_one(budget as int, c);
            assert((budget - c) as int / c == budget as int / c - 1);
            vstd::arithmetic::div_mod::lemma_div_pos_is_pos(budget as int, c);
        }
    }
}

/// Law: purging an asset removes every queue entry and every index entry of
/// that asset, keeps every entry of other assets — the queue's in their
/// original order — and touches nothing else.
pub proof fn lemma_delete_asset_tasks_exact(s: StateV, asset: Seq<u8>)
    ensures
        ({
            let s1 = delete_tasks_model(s, asset);
            &&& forall|i: int|
                0 <= i < s1.task_queue.len() ==> (#[trigger] s1.task_queue[i]).asset != asset
            &&& forall|i: int|
                0 <= i < s.task_queue.len() && (#[trigger] s.task_queue[i]).asset != asset
                    ==> s1.task_queue.contains(s.task_queue[i])
            &&& s1.task_queue == queue_without(s.task_queue, asset)
            &&& forall|k: AssetKeyV| #[trigger]
                s1.sorted_tasks_index.dom().contains(k) ==> k.2 != asset
                    && s1.sorted_tasks_index[k] == s.sorted_tasks_index[k]
            &&& forall|k: AssetKeyV|
                s.sorted_tasks_index.dom().contains(k) && k.2 != asset ==> #[trigger]
                    s1.sorted_tasks_index.dom().contains(k)
            &&& s1.tasks == s.tasks
            &&& s1.asset_registry == s.asset_registry
            &&& s1.price_registry == s.price_registry
            &&& s1.events == s.events
            &&& s1.balances == s.balances
        }),
{
    let p = |e: QueueEntryV| e.asset != asset;
    let s1 = delete_tasks_model(s, asset);
    assert forall|i: int| 0 <= i < s1.task_queue.len() implies (#[trigger] s1.task_queue[i]).asset
        != asset by {
        s.task_queue.lemma_filter_pred(p, i);
    }
    assert forall|i: int|
        0 <= i < s.task_queue.len() && (#[trigger] s.task_queue[i]).asset
            != asset implies s1.task_queue.contains(s.task_queue[i]) by {
        s.task_queue.lemma_filter_contains(p, i);
    }
}

} // verus!
