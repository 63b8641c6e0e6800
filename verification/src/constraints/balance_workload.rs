use vstd::prelude::*;

use solverforge::stream::collector::{load_balance, Accumulator, Collector, LoadBalanceAccumulator};

use crate::constraints::sums::{
    lemma_sum_tasks_nonneg, lemma_sum_tasks_permutation, lemma_sum_tasks_pointwise_with, lemma_sum_tasks_zero, lemma_take_step, sum_tasks,
};
use crate::domain::{Plan, Task};
use crate::score::HardSoftScore;

verus! {

#[verifier::external_type_specification]
#[verifier::external_body]
#[verifier::reject_recursive_types(K)]
pub struct ExLoadBalanceAccumulator<K>(LoadBalanceAccumulator<K>);

/// The (candidate key, load) values accumulated so far, in the order given.
pub uninterp spec fn accumulated_loads(acc: LoadBalanceAccumulator<Option<usize>>) -> Seq<(Option<usize>, i64)>;

/// The unfairness solverforge's load-balance collector reports for the given
/// per-key load totals: the rounded square root of the totals' squared
/// deviation from their mean.
pub uninterp spec fn load_unfairness(totals: Map<Option<usize>, int>) -> i64;

/// Sum of the loads of a sequence of accumulated values.
pub open spec fn load_total(loads: Seq<(Option<usize>, i64)>) -> int
    decreases loads.len(),
{
    if loads.len() == 0 {
        0
    } else {
        load_total(loads.drop_last()) + loads.last().1
    }
}

/// The total load of each key among the accumulated values.
pub open spec fn key_totals(loads: Seq<(Option<usize>, i64)>) -> Map<Option<usize>, int>
    decreases loads.len(),
{
    if loads.len() == 0 {
        Map::empty()
    } else {
        let totals = key_totals(loads.drop_last());
        let key = loads.last().0;
        let before = if totals.contains_key(key) { totals[key] } else { 0 };
        totals.insert(key, before + loads.last().1)
    }
}

/// Every key carries the same total load.
pub open spec fn evenly_loaded(totals: Map<Option<usize>, int>) -> bool {
    forall|a: Option<usize>, b: Option<usize>|
        totals.contains_key(a) && totals.contains_key(b) ==> #[trigger] totals[a] == #[trigger] totals[b]
}

/// Every load is non-negative and they sum to at most a thousand million:
/// the collector's incremental squared-deviation terms stay within five
/// times the squared total, which then fits its `i64` arithmetic.
pub open spec fn loads_in_range(loads: Seq<(Option<usize>, i64)>) -> bool {
    &&& forall|i: int| 0 <= i < loads.len() ==> (#[trigger] loads[i]).1 >= 0
    &&& load_total(loads) <= 1_000_000_000
}

/// Up to this total load, the collector's squared totals are exact in its
/// `f64` arithmetic.
pub open spec fn exact_load_limit() -> int {
    90_000_000
}

/// `load_balance(key, metric).create_accumulator()` of solverforge, with the
/// key and metric picked from a `(key, load)` pair: an empty accumulator.
#[verifier::external_body]
fn new_workload_accumulator() -> (acc: LoadBalanceAccumulator<Option<usize>>)
    ensures
        accumulated_loads(acc) == Seq::<(Option<usize>, i64)>::empty(),
{
    let collector = load_balance(
        |pair: (Option<usize>, i64)| pair.0,
        |pair: (Option<usize>, i64)| pair.1,
    );
    Collector::<(Option<usize>, i64)>::create_accumulator(&collector)
}

/// `Accumulator::accumulate` of solverforge's load-balance accumulator: a
/// zero load is skipped, any other value is recorded. The accumulator's
/// `i64` arithmetic is kept in range by the bound on the loads.
#[verifier::external_body]
fn accumulate_load(acc: &mut LoadBalanceAccumulator<Option<usize>>, key: Option<usize>, load: i64)
    requires
        load >= 0,
        loads_in_range(accumulated_loads(*old(acc)).push((key, load))),
    ensures
        accumulated_loads(*final(acc)) == if load == 0 {
            accumulated_loads(*old(acc))
        } else {
            accumulated_loads(*old(acc)).push((key, load))
        },
{
    let _ = acc.accumulate((key, load));
}

/// The unfairness of solverforge's load-balance result for the accumulated
/// values. The collector keeps each key's total and computes the rounded
/// square root of the totals' squared deviation from their mean, so the
/// result depends on the per-key totals alone; it is never negative and,
/// for non-negative loads, never above their total. When every key has the
/// same total the deviation is zero, and so is the result while the squared
/// total is exact in `f64`.
#[verifier::external_body]
fn workload_unfairness(acc: &LoadBalanceAccumulator<Option<usize>>) -> (u: i64)
    requires
        loads_in_range(accumulated_loads(*acc)),
    ensures
        u == load_unfairness(key_totals(accumulated_loads(*acc))),
        0 <= u <= load_total(accumulated_loads(*acc)),
        load_total(accumulated_loads(*acc)) <= exact_load_limit() && evenly_loaded(
            key_totals(accumulated_loads(*acc)),
        ) ==> u == 0,
{
    acc.finish().unfairness()
}

/// The (candidate, duration) values a plan's tasks contribute, zero
/// durations left out.
pub open spec fn task_loads(tasks: Seq<Task>) -> Seq<(Option<usize>, i64)>
    decreases tasks.len(),
{
    if tasks.len() == 0 {
        Seq::empty()
    } else if tasks.last().duration_slots == 0 {
        task_loads(tasks.drop_last())
    } else {
        task_loads(tasks.drop_last()).push((tasks.last().candidate_idx, tasks.last().duration_slots as i64))
    }
}

/// Total duration of a plan's tasks, in slots.
pub open spec fn total_duration(tasks: Seq<Task>) -> int
    decreases tasks.len(),
{
    if tasks.len() == 0 {
        0
    } else {
        total_duration(tasks.drop_last()) + tasks.last().duration_slots
    }
}

/// All tasks are balanced as one group.
pub fn balance_scope(_entity: &Task) -> (scope: usize)
    ensures
        scope == 0,
{
    0
}

/// Load is balanced per assigned candidate (unassigned tasks form a group).
pub fn balance_group_key(entity: &Task) -> (key: Option<usize>)
    ensures
        key == entity.candidate_idx,
{
    entity.candidate_idx
}

/// A task's load is its duration in slots, as the `i64` the collector sums.
pub fn balance_metric(entity: &Task) -> (metric: i64)
    ensures
        metric == entity.duration_slots as i64,
{
    entity.duration_slots as i64
}

/// SOFT: the workload unfairness across candidates, as a soft score.
pub fn balance_weight(_scope: &usize, unfairness: i64) -> (s: HardSoftScore)
    ensures
        s.hard == 0,
        s.soft == unfairness,
{
    HardSoftScore::of_soft(unfairness)
}

proof fn lemma_task_loads_step(tasks: Seq<Task>, i: int)
    requires
        0 <= i < tasks.len(),
    ensures
        task_loads(tasks.take(i + 1)) == if tasks[i].duration_slots == 0 {
            task_loads(tasks.take(i))
        } else {
            task_loads(tasks.take(i)).push((tasks[i].candidate_idx, tasks[i].duration_slots as i64))
        },
        total_duration(tasks.take(i + 1)) == total_duration(tasks.take(i)) + tasks[i].duration_slots,
{
    lemma_take_step(tasks, i);
}

proof fn lemma_task_loads_in_range(tasks: Seq<Task>)
    requires
        total_duration(tasks) <= 1_000_000_000,
    ensures
        loads_in_range(task_loads(tasks)),
        load_total(task_loads(tasks)) == total_duration(tasks),
    decreases tasks.len(),
{
    if tasks.len() > 0 {
        let init = tasks.drop_last();
        lemma_total_duration_nonneg(init);
        lemma_task_loads_in_range(init);
        let prev = task_loads(init);
        if tasks.last().duration_slots != 0 {
            let next = prev.push((tasks.last().candidate_idx, tasks.last().duration_slots as i64));
            assert(next.drop_last() =~= prev);
            assert forall|i: int| 0 <= i < next.len() implies (#[trigger] next[i]).1 >= 0 by {
                if i < prev.len() {
                    assert(next[i] == prev[i]);
                }
            }
        }
    }
}

proof fn lemma_total_duration_nonneg(tasks: Seq<Task>)
    ensures
        total_duration(tasks) >= 0,
    decreases tasks.len(),
{
    if tasks.len() > 0 {
        lemma_total_duration_nonneg(tasks.drop_last());
    }
}

proof fn lemma_total_duration_prefix(tasks: Seq<Task>, k: int)
    requires
        0 <= k <= tasks.len(),
    ensures
        total_duration(tasks.take(k)) <= total_duration(tasks),
    decreases tasks.len() - k,
{
    if k < tasks.len() {
        lemma_total_duration_prefix(tasks, k + 1);
        lemma_take_step(tasks, k);
        lemma_total_duration_nonneg(tasks.take(k));
    } else {
        assert(tasks.take(k) =~= tasks);
    }
}

/// The constraint's contribution to a plan's score: the unfairness of the
/// per-candidate loads, as a soft penalty.
pub fn evaluate(plan: &Plan) -> (s: HardSoftScore)
    requires
        total_duration(plan.tasks@) <= 1_000_000_000,
    ensures
        s.hard == 0,
        s.soft == -load_unfairness(key_totals(task_loads(plan.tasks@))),
        0 <= load_unfairness(key_totals(task_loads(plan.tasks@))) <= total_duration(plan.tasks@),
        total_duration(plan.tasks@) <= exact_load_limit() && evenly_loaded(key_totals(task_loads(plan.tasks@)))
            ==> s.soft == 0,
{
    let n = plan.tasks.len();
    let ghost tasks = plan.tasks@;
    let mut acc = new_workload_accumulator();
    let mut i: usize = 0;
    while i < n
        invariant
            n == tasks.len(),
            tasks == plan.tasks@,
            total_duration(tasks) <= 1_000_000_000,
            i <= n,
            accumulated_loads(acc) == task_loads(tasks.take(i as int)),
        decreases n - i,
    {
        proof {
            lemma_task_loads_step(tasks, i as int);
            lemma_total_duration_prefix(tasks, i as int + 1);
            lemma_task_loads_in_range(tasks.take(i as int + 1));
            lemma_total_duration_nonneg(tasks.take(i as int));
            assert(tasks[i as int].duration_slots <= 1_000_000_000);
        }
        let _scope = balance_scope(&plan.tasks[i]);
        let key = balance_group_key(&plan.tasks[i]);
        let metric = balance_metric(&plan.tasks[i]);
        proof {
            if metric == 0 {
                // a zero load leaves the accumulated values unchanged
                assert(loads_in_range(accumulated_loads(acc).push((key, metric)))) by {
                    let prev = accumulated_loads(acc);
                    let next = prev.push((key, metric));
                    lemma_task_loads_in_range(tasks.take(i as int));
                    lemma_total_duration_prefix(tasks, i as int);
                    assert(next.drop_last() =~= prev);
                    assert forall|k: int| 0 <= k < next.len() implies (#[trigger] next[k]).1 >= 0 by {
                        if k < prev.len() {
                            assert(next[k] == prev[k]);
                        }
                    }
                }
            }
        }
        accumulate_load(&mut acc, key, metric);
        i = i + 1;
    }
    proof {
        assert(tasks.take(n as int) =~= tasks);
        lemma_task_loads_in_range(tasks);
    }
    let unfairness = workload_unfairness(&acc);
    let weight = balance_weight(&0, unfairness);
    HardSoftScore::of_soft(-weight.soft)
}

/// One for a task that adds a load to key `k`, else zero.
pub open spec fn loads_key(k: Option<usize>) -> spec_fn(Task) -> int {
    |t: Task| if t.candidate_idx == k && t.duration_slots > 0 { 1int } else { 0int }
}

/// The load a task adds to key `k`, as the collector's `i64`.
pub open spec fn load_for_key(k: Option<usize>) -> spec_fn(Task) -> int {
    |t: Task| if t.candidate_idx == k { (t.duration_slots as i64) as int } else { 0int }
}

/// Each candidate key with some non-zero duration, mapped to the total
/// duration of its tasks.
pub open spec fn duration_totals(tasks: Seq<Task>) -> Map<Option<usize>, int> {
    Map::new(
        |k: Option<usize>| sum_tasks(tasks, loads_key(k)) > 0,
        |k: Option<usize>| sum_tasks(tasks, load_for_key(k)),
    )
}

proof fn lemma_unloaded_key_has_no_total(tasks: Seq<Task>, k: Option<usize>)
    ensures
        sum_tasks(tasks, loads_key(k)) >= 0,
        sum_tasks(tasks, loads_key(k)) == 0 ==> sum_tasks(tasks, load_for_key(k)) == 0,
{
    let zero = |t: Task| 0int;
    lemma_sum_tasks_nonneg(tasks, loads_key(k));
    lemma_sum_tasks_zero(tasks, loads_key(k));
    lemma_sum_tasks_zero(tasks, zero);
    if sum_tasks(tasks, loads_key(k)) == 0 {
        assert forall|i: int| 0 <= i < tasks.len() implies #[trigger] load_for_key(k)(tasks[i]) == zero(tasks[i]) by {
            assert(loads_key(k)(tasks[i]) == 0);
        }
        lemma_sum_tasks_pointwise_with(tasks, tasks, load_for_key(k), zero);
    }
}

/// The per-key totals the collector sees are the per-candidate duration
/// totals of the tasks.
pub proof fn lemma_key_totals_are_duration_totals(tasks: Seq<Task>)
    ensures
        key_totals(task_loads(tasks)) == duration_totals(tasks),
    decreases tasks.len(),
{
    if tasks.len() > 0 {
        let init = tasks.drop_last();
        let last = tasks.last();
        lemma_key_totals_are_duration_totals(init);
        let m = duration_totals(init);
        if last.duration_slots == 0 {
            assert(task_loads(tasks) == task_loads(init));
            assert(key_totals(task_loads(tasks)) =~= duration_totals(tasks)) by {
                assert forall|k: Option<usize>| #[trigger] duration_totals(tasks).contains_key(k) == m.contains_key(k) by {
                    assert(sum_tasks(tasks, loads_key(k)) == sum_tasks(init, loads_key(k)) + loads_key(k)(last));
                }
                assert forall|k: Option<usize>| #[trigger] duration_totals(tasks).contains_key(k) implies duration_totals(tasks)[k] == m[k] by {
                    assert(sum_tasks(tasks, load_for_key(k)) == sum_tasks(init, load_for_key(k)) + load_for_key(k)(last));
                }
            }
        } else {
            let loads = task_loads(tasks);
            let key = last.candidate_idx;
            assert(loads.drop_last() =~= task_loads(init));
            assert(loads.last() == (key, last.duration_slots as i64));
            lemma_unloaded_key_has_no_total(init, key);
            let n = m.insert(key, sum_tasks(init, load_for_key(key)) + (last.duration_slots as i64));
            assert(key_totals(loads) == n);
            assert(n =~= duration_totals(tasks)) by {
                assert forall|k: Option<usize>| #[trigger] duration_totals(tasks).contains_key(k) == n.contains_key(k) by {
                    lemma_unloaded_key_has_no_total(init, k);
                    assert(sum_tasks(tasks, loads_key(k)) == sum_tasks(init, loads_key(k)) + loads_key(k)(last));
                }
                assert forall|k: Option<usize>| #[trigger] n.contains_key(k) implies duration_totals(tasks)[k] == n[k] by {
                    assert(sum_tasks(tasks, load_for_key(k)) == sum_tasks(init, load_for_key(k)) + load_for_key(k)(last));
                }
            }
        }
    }
}

/// The per-key totals do not depend on the order of the tasks.
pub proof fn lemma_key_totals_permutation(a: Seq<Task>, b: Seq<Task>)
    requires
        a.to_multiset() == b.to_multiset(),
    ensures
        key_totals(task_loads(a)) == key_totals(task_loads(b)),
{
    lemma_key_totals_are_duration_totals(a);
    lemma_key_totals_are_duration_totals(b);
    assert(duration_totals(a) =~= duration_totals(b)) by {
        assert forall|k: Option<usize>| #[trigger] duration_totals(a).contains_key(k) == duration_totals(b).contains_key(k) by {
            lemma_sum_tasks_permutation(a, b, loads_key(k));
        }
        assert forall|k: Option<usize>| #[trigger] duration_totals(a).contains_key(k) implies duration_totals(a)[k] == duration_totals(b)[k] by {
            lemma_sum_tasks_permutation(a, b, load_for_key(k));
        }
    }
}

/// The loads depend on each task's candidate and duration alone.
pub proof fn lemma_task_loads_pointwise(a: Seq<Task>, b: Seq<Task>)
    requires
        a.len() == b.len(),
        forall|i: int| 0 <= i < a.len() ==> (#[trigger] a[i]).candidate_idx == b[i].candidate_idx
            && a[i].duration_slots == b[i].duration_slots,
    ensures
        task_loads(a) == task_loads(b),
        total_duration(a) == total_duration(b),
    decreases a.len(),
{
    if a.len() > 0 {
        lemma_task_loads_pointwise(a.drop_last(), b.drop_last());
        assert(a[a.len() - 1].candidate_idx == b[b.len() - 1].candidate_idx);
    }
}

/// The total duration does not depend on the order of the tasks.
pub proof fn lemma_total_duration_permutation(a: Seq<Task>, b: Seq<Task>)
    requires
        a.to_multiset() == b.to_multiset(),
    ensures
        total_duration(a) == total_duration(b),
{
    let d = |t: Task| t.duration_slots as int;
    lemma_total_duration_as_sum(a);
    lemma_total_duration_as_sum(b);
    lemma_sum_tasks_permutation(a, b, d);
}

proof fn lemma_total_duration_as_sum(tasks: Seq<Task>)
    ensures
        total_duration(tasks) == sum_tasks(tasks, |t: Task| t.duration_slots as int),
    decreases tasks.len(),
{
    if tasks.len() > 0 {
        lemma_total_duration_as_sum(tasks.drop_last());
    }
}

} // verus!
