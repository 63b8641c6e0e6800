use vstd::prelude::*;

use crate::domain::{Candidate, Task};

verus! {

/// Sum of a per-task weight over a sequence of tasks.
pub open spec fn sum_tasks(tasks: Seq<Task>, w: spec_fn(Task) -> int) -> int
    decreases tasks.len(),
{
    if tasks.len() == 0 {
        0
    } else {
        sum_tasks(tasks.drop_last(), w) + w(tasks.last())
    }
}

/// Sum of a pair weight `w(left, right)` over every `left` in `prefix`.
pub open spec fn sum_with(prefix: Seq<Task>, right: Task, w: spec_fn(Task, Task) -> int) -> int
    decreases prefix.len(),
{
    if prefix.len() == 0 {
        0
    } else {
        sum_with(prefix.drop_last(), right, w) + w(prefix.last(), right)
    }
}

/// Sum of a pair weight over every pair of positions `i < j`, with
/// `tasks[i]` on the left and `tasks[j]` on the right.
pub open spec fn sum_pairs(tasks: Seq<Task>, w: spec_fn(Task, Task) -> int) -> int
    decreases tasks.len(),
{
    if tasks.len() == 0 {
        0
    } else {
        sum_pairs(tasks.drop_last(), w) + sum_with(tasks.drop_last(), tasks.last(), w)
    }
}

/// Sum of a task/fact weight over every fact, for one task.
pub open spec fn sum_facts(task: Task, facts: Seq<Candidate>, w: spec_fn(Task, Candidate) -> int) -> int
    decreases facts.len(),
{
    if facts.len() == 0 {
        0
    } else {
        sum_facts(task, facts.drop_last(), w) + w(task, facts.last())
    }
}

/// Sum of a task/fact weight over every (task, fact) combination.
pub open spec fn sum_joined(tasks: Seq<Task>, facts: Seq<Candidate>, w: spec_fn(Task, Candidate) -> int) -> int
    decreases tasks.len(),
{
    if tasks.len() == 0 {
        0
    } else {
        sum_joined(tasks.drop_last(), facts, w) + sum_facts(tasks.last(), facts, w)
    }
}

pub proof fn lemma_take_step<A>(s: Seq<A>, i: int)
    requires
        0 <= i < s.len(),
    ensures
        s.take(i + 1).drop_last() =~= s.take(i),
        s.take(i + 1).last() == s[i],
        s.take(i + 1).len() == i + 1,
{
}

pub proof fn lemma_sum_tasks_nonneg(tasks: Seq<Task>, w: spec_fn(Task) -> int)
    requires
        forall|t: Task| #[trigger] w(t) >= 0,
    ensures
        sum_tasks(tasks, w) >= 0,
        forall|i: int| 0 <= i < tasks.len() ==> w(#[trigger] tasks[i]) <= sum_tasks(tasks, w),
    decreases tasks.len(),
{
    if tasks.len() > 0 {
        lemma_sum_tasks_nonneg(tasks.drop_last(), w);
        assert forall|i: int| 0 <= i < tasks.len() implies w(#[trigger] tasks[i]) <= sum_tasks(tasks, w) by {
            if i < tasks.len() - 1 {
                assert(tasks.drop_last()[i] == tasks[i]);
            }
        }
    }
}

pub proof fn lemma_sum_tasks_zero(tasks: Seq<Task>, w: spec_fn(Task) -> int)
    requires
        forall|t: Task| #[trigger] w(t) >= 0,
    ensures
        sum_tasks(tasks, w) == 0 <==> forall|i: int| 0 <= i < tasks.len() ==> w(#[trigger] tasks[i]) == 0,
    decreases tasks.len(),
{
    lemma_sum_tasks_nonneg(tasks, w);
    if tasks.len() > 0 {
        lemma_sum_tasks_zero(tasks.drop_last(), w);
        lemma_sum_tasks_nonneg(tasks.drop_last(), w);
        if sum_tasks(tasks, w) == 0 {
            assert forall|i: int| 0 <= i < tasks.len() implies w(#[trigger] tasks[i]) == 0 by {
                if i < tasks.len() - 1 {
                    assert(tasks.drop_last()[i] == tasks[i]);
                }
            }
        }
        if forall|i: int| 0 <= i < tasks.len() ==> w(#[trigger] tasks[i]) == 0 {
            assert forall|i: int| 0 <= i < tasks.drop_last().len() implies w(#[trigger] tasks.drop_last()[i]) == 0 by {
                assert(tasks.drop_last()[i] == tasks[i]);
            }
            assert(w(tasks[tasks.len() - 1]) == 0);
        }
    }
}

pub proof fn lemma_sum_tasks_prefix(tasks: Seq<Task>, w: spec_fn(Task) -> int, k: int)
    requires
        forall|t: Task| #[trigger] w(t) >= 0,
        0 <= k <= tasks.len(),
    ensures
        sum_tasks(tasks.take(k), w) <= sum_tasks(tasks, w),
    decreases tasks.len() - k,
{
    if k < tasks.len() {
        lemma_sum_tasks_prefix(tasks, w, k + 1);
        lemma_take_step(tasks, k);
    } else {
        assert(tasks.take(k) =~= tasks);
    }
}

pub proof fn lemma_sum_with_nonneg(prefix: Seq<Task>, right: Task, w: spec_fn(Task, Task) -> int)
    requires
        forall|a: Task, b: Task| #[trigger] w(a, b) >= 0,
    ensures
        sum_with(prefix, right, w) >= 0,
        forall|i: int| 0 <= i < prefix.len() ==> w(#[trigger] prefix[i], right) <= sum_with(prefix, right, w),
    decreases prefix.len(),
{
    if prefix.len() > 0 {
        lemma_sum_with_nonneg(prefix.drop_last(), right, w);
        assert forall|i: int| 0 <= i < prefix.len() implies w(#[trigger] prefix[i], right) <= sum_with(prefix, right, w) by {
            if i < prefix.len() - 1 {
                assert(prefix.drop_last()[i] == prefix[i]);
            }
        }
    }
}

pub proof fn lemma_sum_with_zero(prefix: Seq<Task>, right: Task, w: spec_fn(Task, Task) -> int)
    requires
        forall|a: Task, b: Task| #[trigger] w(a, b) >= 0,
    ensures
        sum_with(prefix, right, w) == 0 <==> forall|i: int| 0 <= i < prefix.len() ==> w(#[trigger] prefix[i], right) == 0,
    decreases prefix.len(),
{
    lemma_sum_with_nonneg(prefix, right, w);
    if prefix.len() > 0 {
        lemma_sum_with_zero(prefix.drop_last(), right, w);
        lemma_sum_with_nonneg(prefix.drop_last(), right, w);
        if sum_with(prefix, right, w) == 0 {
            assert forall|i: int| 0 <= i < prefix.len() implies w(#[trigger] prefix[i], right) == 0 by {
                if i < prefix.len() - 1 {
                    assert(prefix.drop_last()[i] == prefix[i]);
                }
            }
        }
        if forall|i: int| 0 <= i < prefix.len() ==> w(#[trigger] prefix[i], right) == 0 {
            assert forall|i: int| 0 <= i < prefix.drop_last().len() implies w(#[trigger] prefix.drop_last()[i], right) == 0 by {
                assert(prefix.drop_last()[i] == prefix[i]);
            }
            assert(w(prefix[prefix.len() - 1], right) == 0);
        }
    }
}

pub proof fn lemma_sum_with_prefix(prefix: Seq<Task>, right: Task, w: spec_fn(Task, Task) -> int, k: int)
    requires
        forall|a: Task, b: Task| #[trigger] w(a, b) >= 0,
        0 <= k <= prefix.len(),
    ensures
        sum_with(prefix.take(k), right, w) <= sum_with(prefix, right, w),
    decreases prefix.len() - k,
{
    if k < prefix.len() {
        lemma_sum_with_prefix(prefix, right, w, k + 1);
        lemma_take_step(prefix, k);
    } else {
        assert(prefix.take(k) =~= prefix);
    }
}

pub proof fn lemma_sum_pairs_nonneg(tasks: Seq<Task>, w: spec_fn(Task, Task) -> int)
    requires
        forall|a: Task, b: Task| #[trigger] w(a, b) >= 0,
    ensures
        sum_pairs(tasks, w) >= 0,
    decreases tasks.len(),
{
    if tasks.len() > 0 {
        lemma_sum_pairs_nonneg(tasks.drop_last(), w);
        lemma_sum_with_nonneg(tasks.drop_last(), tasks.last(), w);
    }
}

pub proof fn lemma_sum_pairs_prefix(tasks: Seq<Task>, w: spec_fn(Task, Task) -> int, k: int)
    requires
        forall|a: Task, b: Task| #[trigger] w(a, b) >= 0,
        0 <= k <= tasks.len(),
    ensures
        sum_pairs(tasks.take(k), w) <= sum_pairs(tasks, w),
    decreases tasks.len() - k,
{
    if k < tasks.len() {
        lemma_sum_pairs_prefix(tasks, w, k + 1);
        lemma_take_step(tasks, k);
        lemma_sum_with_nonneg(tasks.take(k), tasks[k], w);
    } else {
        assert(tasks.take(k) =~= tasks);
    }
}

pub proof fn lemma_sum_pairs_zero(tasks: Seq<Task>, w: spec_fn(Task, Task) -> int)
    requires
        forall|a: Task, b: Task| #[trigger] w(a, b) >= 0,
    ensures
        sum_pairs(tasks, w) == 0 <==> forall|i: int, j: int|
            0 <= i < j < tasks.len() ==> w(#[trigger] tasks[i], #[trigger] tasks[j]) == 0,
    decreases tasks.len(),
{
    lemma_sum_pairs_nonneg(tasks, w);
    if tasks.len() > 0 {
        let init = tasks.drop_last();
        let last = tasks.last();
        lemma_sum_pairs_zero(init, w);
        lemma_sum_pairs_nonneg(init, w);
        lemma_sum_with_zero(init, last, w);
        lemma_sum_with_nonneg(init, last, w);
        if sum_pairs(tasks, w) == 0 {
            assert forall|i: int, j: int| 0 <= i < j < tasks.len() implies w(#[trigger] tasks[i], #[trigger] tasks[j]) == 0 by {
                assert(init[i] == tasks[i]);
                if j < tasks.len() - 1 {
                    assert(init[j] == tasks[j]);
                }
            }
        }
        if forall|i: int, j: int| 0 <= i < j < tasks.len() ==> w(#[trigger] tasks[i], #[trigger] tasks[j]) == 0 {
            assert forall|i: int, j: int| 0 <= i < j < init.len() implies w(#[trigger] init[i], #[trigger] init[j]) == 0 by {
                assert(init[i] == tasks[i]);
                assert(init[j] == tasks[j]);
            }
            assert forall|i: int| 0 <= i < init.len() implies w(#[trigger] init[i], last) == 0 by {
                assert(init[i] == tasks[i]);
                assert(last == tasks[tasks.len() - 1]);
            }
        }
    }
}

pub proof fn lemma_sum_facts_nonneg(task: Task, facts: Seq<Candidate>, w: spec_fn(Task, Candidate) -> int)
    requires
        forall|t: Task, c: Candidate| #[trigger] w(t, c) >= 0,
    ensures
        sum_facts(task, facts, w) >= 0,
    decreases facts.len(),
{
    if facts.len() > 0 {
        lemma_sum_facts_nonneg(task, facts.drop_last(), w);
    }
}

pub proof fn lemma_sum_facts_zero(task: Task, facts: Seq<Candidate>, w: spec_fn(Task, Candidate) -> int)
    requires
        forall|t: Task, c: Candidate| #[trigger] w(t, c) >= 0,
    ensures
        sum_facts(task, facts, w) == 0 <==> forall|k: int| 0 <= k < facts.len() ==> w(task, #[trigger] facts[k]) == 0,
    decreases facts.len(),
{
    lemma_sum_facts_nonneg(task, facts, w);
    if facts.len() > 0 {
        lemma_sum_facts_zero(task, facts.drop_last(), w);
        lemma_sum_facts_nonneg(task, facts.drop_last(), w);
        if sum_facts(task, facts, w) == 0 {
            assert forall|k: int| 0 <= k < facts.len() implies w(task, #[trigger] facts[k]) == 0 by {
                if k < facts.len() - 1 {
                    assert(facts.drop_last()[k] == facts[k]);
                }
            }
        }
        if forall|k: int| 0 <= k < facts.len() ==> w(task, #[trigger] facts[k]) == 0 {
            assert forall|k: int| 0 <= k < facts.drop_last().len() implies w(task, #[trigger] facts.drop_last()[k]) == 0 by {
                assert(facts.drop_last()[k] == facts[k]);
            }
            assert(w(task, facts[facts.len() - 1]) == 0);
        }
    }
}

pub proof fn lemma_sum_facts_prefix(task: Task, facts: Seq<Candidate>, w: spec_fn(Task, Candidate) -> int, k: int)
    requires
        forall|t: Task, c: Candidate| #[trigger] w(t, c) >= 0,
        0 <= k <= facts.len(),
    ensures
        sum_facts(task, facts.take(k), w) <= sum_facts(task, facts, w),
    decreases facts.len() - k,
{
    if k < facts.len() {
        lemma_sum_facts_prefix(task, facts, w, k + 1);
        assert(facts.take(k + 1).drop_last() =~= facts.take(k));
    } else {
        assert(facts.take(k) =~= facts);
    }
}

pub proof fn lemma_sum_joined_nonneg(tasks: Seq<Task>, facts: Seq<Candidate>, w: spec_fn(Task, Candidate) -> int)
    requires
        forall|t: Task, c: Candidate| #[trigger] w(t, c) >= 0,
    ensures
        sum_joined(tasks, facts, w) >= 0,
    decreases tasks.len(),
{
    if tasks.len() > 0 {
        lemma_sum_joined_nonneg(tasks.drop_last(), facts, w);
        lemma_sum_facts_nonneg(tasks.last(), facts, w);
    }
}

pub proof fn lemma_sum_joined_prefix(tasks: Seq<Task>, facts: Seq<Candidate>, w: spec_fn(Task, Candidate) -> int, k: int)
    requires
        forall|t: Task, c: Candidate| #[trigger] w(t, c) >= 0,
        0 <= k <= tasks.len(),
    ensures
        sum_joined(tasks.take(k), facts, w) <= sum_joined(tasks, facts, w),
    decreases tasks.len() - k,
{
    if k < tasks.len() {
        lemma_sum_joined_prefix(tasks, facts, w, k + 1);
        lemma_take_step(tasks, k);
        lemma_sum_facts_nonneg(tasks[k], facts, w);
    } else {
        assert(tasks.take(k) =~= tasks);
    }
}

pub proof fn lemma_sum_joined_zero(tasks: Seq<Task>, facts: Seq<Candidate>, w: spec_fn(Task, Candidate) -> int)
    requires
        forall|t: Task, c: Candidate| #[trigger] w(t, c) >= 0,
    ensures
        sum_joined(tasks, facts, w) == 0 <==> forall|i: int, k: int|
            0 <= i < tasks.len() && 0 <= k < facts.len() ==> w(#[trigger] tasks[i], #[trigger] facts[k]) == 0,
    decreases tasks.len(),
{
    lemma_sum_joined_nonneg(tasks, facts, w);
    if tasks.len() > 0 {
        let init = tasks.drop_last();
        let last = tasks.last();
        lemma_sum_joined_zero(init, facts, w);
        lemma_sum_joined_nonneg(init, facts, w);
        lemma_sum_facts_zero(last, facts, w);
        lemma_sum_facts_nonneg(last, facts, w);
        if sum_joined(tasks, facts, w) == 0 {
            assert forall|i: int, k: int| 0 <= i < tasks.len() && 0 <= k < facts.len() implies w(#[trigger] tasks[i], #[trigger] facts[k]) == 0 by {
                if i < tasks.len() - 1 {
                    assert(init[i] == tasks[i]);
                }
            }
        }
        if forall|i: int, k: int| 0 <= i < tasks.len() && 0 <= k < facts.len() ==> w(#[trigger] tasks[i], #[trigger] facts[k]) == 0 {
            assert forall|i: int, k: int| 0 <= i < init.len() && 0 <= k < facts.len() implies w(#[trigger] init[i], #[trigger] facts[k]) == 0 by {
                assert(init[i] == tasks[i]);
            }
            assert forall|k: int| 0 <= k < facts.len() implies w(last, #[trigger] facts[k]) == 0 by {
                assert(last == tasks[tasks.len() - 1]);
            }
        }
    }
}

/// The pair sum of a two-task sequence is the weight of that one pair.
pub proof fn lemma_sum_pairs_two(a: Task, b: Task, w: spec_fn(Task, Task) -> int)
    ensures
        sum_pairs(seq![a, b], w) == w(a, b),
{
    let e = Seq::<Task>::empty();
    let one = seq![a];
    let two = seq![a, b];
    assert(two.drop_last() =~= one);
    assert(one.drop_last() =~= e);
    assert(sum_pairs(e, w) == 0);
    assert(sum_with(e, a, w) == 0);
    assert(sum_with(e, b, w) == 0);
    assert(sum_pairs(one, w) == 0);
    assert(one.last() == a);
    assert(sum_with(one, b, w) == w(a, b));
    assert(two.last() == b);
}

/// Taking out one task takes its weight out of the sum.
pub proof fn lemma_sum_tasks_remove(s: Seq<Task>, j: int, w: spec_fn(Task) -> int)
    requires
        0 <= j < s.len(),
    ensures
        sum_tasks(s, w) == sum_tasks(s.remove(j), w) + w(s[j]),
    decreases s.len(),
{
    if j == s.len() - 1 {
        assert(s.remove(j) =~= s.drop_last());
    } else {
        lemma_sum_tasks_remove(s.drop_last(), j, w);
        assert(s.remove(j).drop_last() =~= s.drop_last().remove(j));
        assert(s.remove(j).last() == s.last());
    }
}

/// A sum over tasks does not depend on their order.
pub proof fn lemma_sum_tasks_permutation(a: Seq<Task>, b: Seq<Task>, w: spec_fn(Task) -> int)
    requires
        a.to_multiset() == b.to_multiset(),
    ensures
        sum_tasks(a, w) == sum_tasks(b, w),
    decreases a.len(),
{
    broadcast use vstd::seq_lib::group_to_multiset_ensures;
    if a.len() == 0 {
        assert(a.to_multiset().len() == a.len());
        assert(b.to_multiset().len() == b.len());
    } else {
        let init = a.drop_last();
        let x = a.last();
        assert(init.push(x) =~= a);
        assert(a.to_multiset() =~= init.to_multiset().insert(x));
        assert(b.to_multiset().count(x) > 0);
        assert(b.contains(x));
        let j = choose|j: int| 0 <= j < b.len() && b[j] == x;
        let rest = b.remove(j);
        assert(rest.to_multiset() =~= b.to_multiset().remove(x));
        assert(rest.to_multiset() =~= init.to_multiset());
        lemma_sum_tasks_permutation(init, rest, w);
        lemma_sum_tasks_remove(b, j, w);
    }
}

/// A sum over tasks is the same for two sequences whose tasks weigh the
/// same position by position.
pub proof fn lemma_sum_tasks_pointwise(a: Seq<Task>, b: Seq<Task>, w: spec_fn(Task) -> int)
    requires
        a.len() == b.len(),
        forall|i: int| 0 <= i < a.len() ==> w(#[trigger] a[i]) == w(b[i]),
    ensures
        sum_tasks(a, w) == sum_tasks(b, w),
    decreases a.len(),
{
    if a.len() > 0 {
        lemma_sum_tasks_pointwise(a.drop_last(), b.drop_last(), w);
        assert(w(a[a.len() - 1]) == w(b[b.len() - 1]));
    }
}

/// The pair weights of a prefix against one task, as a sum over tasks.
pub proof fn lemma_sum_with_as_tasks(prefix: Seq<Task>, right: Task, w: spec_fn(Task, Task) -> int)
    ensures
        sum_with(prefix, right, w) == sum_tasks(prefix, |t: Task| w(t, right)),
    decreases prefix.len(),
{
    if prefix.len() > 0 {
        lemma_sum_with_as_tasks(prefix.drop_last(), right, w);
    }
}

/// A weight that does not depend on which task is called left.
pub open spec fn symmetric(w: spec_fn(Task, Task) -> int) -> bool {
    forall|a: Task, b: Task| #[trigger] w(a, b) == w(b, a)
}

/// Taking out one task takes its pairs out of the pair sum.
pub proof fn lemma_sum_pairs_remove(s: Seq<Task>, j: int, w: spec_fn(Task, Task) -> int)
    requires
        0 <= j < s.len(),
        symmetric(w),
    ensures
        sum_pairs(s, w) == sum_pairs(s.remove(j), w) + sum_with(s.remove(j), s[j], w),
    decreases s.len(),
{
    if j == s.len() - 1 {
        assert(s.remove(j) =~= s.drop_last());
    } else {
        let init = s.drop_last();
        let last = s.last();
        lemma_sum_pairs_remove(init, j, w);
        assert(s.remove(j).drop_last() =~= init.remove(j));
        assert(s.remove(j).last() == last);
        lemma_sum_with_as_tasks(init, last, w);
        lemma_sum_tasks_remove(init, j, |t: Task| w(t, last));
        lemma_sum_with_as_tasks(init.remove(j), last, w);
        assert(s.remove(j) =~= init.remove(j).push(last));
        assert(init[j] == s[j]);
        assert(w(init[j], last) == w(last, init[j]));
    }
}

/// A pair sum of a symmetric weight does not depend on the tasks' order.
pub proof fn lemma_sum_pairs_permutation(a: Seq<Task>, b: Seq<Task>, w: spec_fn(Task, Task) -> int)
    requires
        a.to_multiset() == b.to_multiset(),
        symmetric(w),
    ensures
        sum_pairs(a, w) == sum_pairs(b, w),
    decreases a.len(),
{
    broadcast use vstd::seq_lib::group_to_multiset_ensures;
    if a.len() == 0 {
        assert(a.to_multiset().len() == a.len());
        assert(b.to_multiset().len() == b.len());
    } else {
        let init = a.drop_last();
        let x = a.last();
        assert(init.push(x) =~= a);
        assert(a.to_multiset() =~= init.to_multiset().insert(x));
        assert(b.to_multiset().count(x) > 0);
        assert(b.contains(x));
        let j = choose|j: int| 0 <= j < b.len() && b[j] == x;
        let rest = b.remove(j);
        assert(rest.to_multiset() =~= b.to_multiset().remove(x));
        assert(rest.to_multiset() =~= init.to_multiset());
        lemma_sum_pairs_permutation(init, rest, w);
        lemma_sum_pairs_remove(b, j, w);
        lemma_sum_with_as_tasks(init, x, w);
        lemma_sum_with_as_tasks(rest, x, w);
        lemma_sum_tasks_permutation(init, rest, |t: Task| w(t, x));
    }
}

/// A pair sum is the same for two sequences whose pairs weigh the same
/// position by position.
pub proof fn lemma_sum_pairs_pointwise(a: Seq<Task>, b: Seq<Task>, w: spec_fn(Task, Task) -> int)
    requires
        a.len() == b.len(),
        forall|i: int, j: int| 0 <= i < j < a.len() ==> w(#[trigger] a[i], #[trigger] a[j]) == w(b[i], b[j]),
    ensures
        sum_pairs(a, w) == sum_pairs(b, w),
    decreases a.len(),
{
    if a.len() > 0 {
        let n = a.len() - 1;
        let ia = a.drop_last();
        let ib = b.drop_last();
        assert forall|i: int, j: int| 0 <= i < j < ia.len() implies w(#[trigger] ia[i], #[trigger] ia[j]) == w(ib[i], ib[j]) by {
            assert(w(a[i], a[j]) == w(b[i], b[j]));
        }
        lemma_sum_pairs_pointwise(ia, ib, w);
        lemma_sum_with_as_tasks(ia, a[n], w);
        lemma_sum_with_as_tasks(ib, b[n], w);
        assert forall|i: int| 0 <= i < ia.len() implies (|t: Task| w(t, a[n]))(#[trigger] ia[i]) == (|t: Task| w(t, b[n]))(ib[i]) by {
            assert(w(a[i], a[n]) == w(b[i], b[n]));
        }
        lemma_sum_tasks_pointwise_with(ia, ib, |t: Task| w(t, a[n]), |t: Task| w(t, b[n]));
    }
}

/// Two sums over tasks agree when the weights agree position by position.
pub proof fn lemma_sum_tasks_pointwise_with(a: Seq<Task>, b: Seq<Task>, wa: spec_fn(Task) -> int, wb: spec_fn(Task) -> int)
    requires
        a.len() == b.len(),
        forall|i: int| 0 <= i < a.len() ==> wa(#[trigger] a[i]) == wb(b[i]),
    ensures
        sum_tasks(a, wa) == sum_tasks(b, wb),
    decreases a.len(),
{
    if a.len() > 0 {
        lemma_sum_tasks_pointwise_with(a.drop_last(), b.drop_last(), wa, wb);
        assert(wa(a[a.len() - 1]) == wb(b[b.len() - 1]));
    }
}

/// The sum over (task, fact) combinations, as a sum over tasks.
pub proof fn lemma_sum_joined_as_tasks(tasks: Seq<Task>, facts: Seq<Candidate>, w: spec_fn(Task, Candidate) -> int)
    ensures
        sum_joined(tasks, facts, w) == sum_tasks(tasks, |t: Task| sum_facts(t, facts, w)),
    decreases tasks.len(),
{
    if tasks.len() > 0 {
        lemma_sum_joined_as_tasks(tasks.drop_last(), facts, w);
    }
}

/// Two tasks that weigh the same against every fact have the same fact sum.
pub proof fn lemma_sum_facts_same_weights(a: Task, b: Task, facts: Seq<Candidate>, w: spec_fn(Task, Candidate) -> int)
    requires
        forall|c: Candidate| #[trigger] w(a, c) == w(b, c),
    ensures
        sum_facts(a, facts, w) == sum_facts(b, facts, w),
    decreases facts.len(),
{
    if facts.len() > 0 {
        lemma_sum_facts_same_weights(a, b, facts.drop_last(), w);
        assert(w(a, facts.last()) == w(b, facts.last()));
    }
}

} // verus!
