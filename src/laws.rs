//! Properties of tasks and runs that hold for every input.
use vstd::prelude::*;
use crate::runner::{count_true, lemma_count_true_bound, Phase, RunnerModel};
use crate::task::{StatusModel, Step, TaskKind, TaskModel};

verus! {

/// Taking `a` steps and then `b` more is taking `a + b` steps.
pub proof fn lemma_steps_split(m: TaskModel, a: nat, b: nat)
    ensures
        m.steps(a + b) == m.steps(a).steps(b),
    decreases a,
{
    if a > 0 {
        lemma_steps_split(m.step().0, (a - 1) as nat, b);
        assert((a + b - 1) as nat == ((a - 1) as nat + b) as nat);
    }
}

/// A task with nothing left to do stays as it is, however often it is stepped.
pub proof fn lemma_done_is_fixed(m: TaskModel, k: nat)
    requires
        m.is_done(),
    ensures
        m.step() == (m, Step::Done),
        m.steps(k) == m,
    decreases k,
{
    if k > 0 {
        lemma_done_is_fixed(m, (k - 1) as nat);
    }
}

/// Stepping keeps a well-formed task well-formed.
pub proof fn lemma_steps_wf(m: TaskModel, k: nat)
    requires
        m.wf(),
    ensures
        m.steps(k).wf(),
        m.steps(k).kind == m.kind,
        m.steps(k).amount == m.amount,
        m.steps(k).label == m.label,
    decreases k,
{
    if k > 0 {
        lemma_steps_wf(m.step().0, (k - 1) as nat);
    }
}

/// Every completion signal and every join is accounted for exactly once: once
/// the signals are drained, each of the tasks handed out at the start has
/// signalled, and no more signals were counted than tasks; once the workers
/// are joined, each task has been taken back exactly once, at its own index,
/// with the label, kind and amount it was handed out with.
pub proof fn lemma_exact_accounting(r: RunnerModel)
    requires
        r.wf(),
    ensures
        r.signal_count() <= r.count,
        r.join_count() <= r.count,
        r.join_count() <= r.signal_count(),
        (r.phase is Drained || r.phase is Joined || r.phase is Done) ==> r.signal_count() == r.count
            && forall|i: int| 0 <= i < r.count ==> #[trigger] r.signalled[i],
        (r.phase is Joined || r.phase is Done) ==> r.join_count() == r.count
            && forall|i: int| 0 <= i < r.count ==> (#[trigger] r.results[i]) is Some
            && r.results[i].unwrap().same_task(r.started[i]),
{
    lemma_count_true_bound(r.signalled);
    lemma_count_true_bound(r.joined());
    if r.phase is Joined || r.phase is Done {
        assert forall|i: int| 0 <= i < r.count implies (#[trigger] r.results[i]) is Some by {
            assert(r.joined()[i]);
        }
    }
    if r.phase is Running {
        assert(r.join_count() == 0);
    }
}

/// A bounded task's position never goes down and never passes its total,
/// whatever comes next: a step of its run loop, a failure or a cancellation.
pub proof fn lemma_bounded_progress(m: TaskModel, reason: Seq<char>, k: nat)
    requires
        m.wf(),
        m.kind is Bounded,
    ensures
        m.position <= m.step().0.position <= m.amount,
        m.step().0.wf(),
        m.fail(reason).position == m.position,
        m.fail(reason).wf(),
        m.cancel().position == m.position,
        m.cancel().wf(),
        m.position <= m.steps(k).position <= m.amount,
    decreases k,
{
    if k > 0 {
        lemma_bounded_progress(m.step().0, reason, (k - 1) as nat);
    }
}

/// A task that fails before its run loop looks again advances no further,
/// stays failed, stops at its next poll (an unbounded task after its one
/// wait), and ends with a message that holds the reason. A later request to
/// cancel does not hide the failure.
pub proof fn lemma_failure_stops_progress(m: TaskModel, reason: Seq<char>, k: nat)
    requires
        m.wf(),
        !m.status.is_terminal(),
    ensures
        m.fail(reason).steps(k).position == m.position,
        m.fail(reason).steps(k).status == StatusModel::Failed(reason),
        m.fail(reason).cancel() == m.fail(reason),
        m.fail(reason).steps(2).is_done(),
        m.fail(reason).steps(k).final_message() == m.label + " failed: "@ + reason,
    decreases k,
{
    let f = m.fail(reason);
    lemma_fail_steps(f, reason, k);
    lemma_fail_steps(f, reason, 2);
    lemma_steps_wf(f, k);
}

proof fn lemma_fail_steps(f: TaskModel, reason: Seq<char>, k: nat)
    requires
        f.status == StatusModel::Failed(reason),
    ensures
        f.steps(k).position == f.position,
        f.steps(k).status == f.status,
        f.steps(k).label == f.label,
        k >= 2 ==> f.steps(k).is_done(),
        k >= 1 && (f.kind is Bounded || f.waited) ==> f.steps(k).is_done(),
    decreases k,
{
    if k > 0 {
        lemma_fail_steps(f.step().0, reason, (k - 1) as nat);
    }
}

/// Cancellation asked for before a poll point: a bounded task stops at that
/// poll, where it stands, and ends as cancelled, not as plainly finished. An
/// unbounded task is not cut short: asked before its wait or during it, the
/// cancellation shows only at the step after the wait has elapsed.
pub proof fn lemma_cancel_before_poll(m: TaskModel)
    requires
        m.wf(),
        !m.status.is_terminal(),
    ensures
        m.kind is Bounded ==> m.cancel().step() == (
            TaskModel { status: StatusModel::Finished, cancelled: true, ..m },
            Step::Done,
        ),
        m.kind is Unbounded && !m.waited ==> m.cancel().step() == (
            TaskModel { status: StatusModel::CancelRequested, waited: true, ..m },
            Step::Wait(m.amount as u64),
        ),
        m.kind is Unbounded && !m.waited ==> m.step().0.cancel().step() == (
            TaskModel { status: StatusModel::Finished, cancelled: true, waited: true, ..m },
            Step::Done,
        ),
        m.kind is Unbounded && m.waited ==> m.cancel().step() == (
            TaskModel { status: StatusModel::Finished, cancelled: true, ..m },
            Step::Done,
        ),
        m.cancel().steps(2).status == StatusModel::Finished,
        m.cancel().steps(2).cancelled,
        m.cancel().steps(2).position == m.position,
        m.cancel().steps(2).is_done(),
        m.cancel().steps(2).final_message() == m.label + " cancelled"@,
{
    let c = m.cancel();
    reveal_with_fuel(TaskModel::steps, 3);
    if m.kind is Bounded {
        lemma_done_is_fixed(c.step().0, 1);
    } else if m.waited {
        lemma_done_is_fixed(c.step().0, 1);
    }
}

/// Once a task has nothing left to do, its final state does not depend on
/// when it is looked at: any two step counts at which it is done give the
/// same state, and so the same status.
pub proof fn lemma_outcome_is_deterministic(m: TaskModel, k1: nat, k2: nat)
    requires
        m.steps(k1).is_done(),
        m.steps(k2).is_done(),
    ensures
        m.steps(k1) == m.steps(k2),
{
    if k1 <= k2 {
        lemma_steps_split(m, k1, (k2 - k1) as nat);
        lemma_done_is_fixed(m.steps(k1), (k2 - k1) as nat);
    } else {
        lemma_steps_split(m, k2, (k1 - k2) as nat);
        lemma_done_is_fixed(m.steps(k2), (k1 - k2) as nat);
    }
}

/// A task run with no outside event ends in the same way every time: a
/// bounded one finished at its total after `total + 1` steps, an unbounded one
/// finished after two.
pub proof fn lemma_undisturbed_run_finishes(m: TaskModel)
    requires
        m.wf(),
        m.status is Running,
        m.position == 0,
        !m.waited,
    ensures
        m.kind is Bounded ==> m.steps(m.amount + 1) == (TaskModel {
            status: StatusModel::Finished,
            position: m.amount,
            ..m
        }),
        m.kind is Unbounded ==> m.steps(2) == (TaskModel {
            status: StatusModel::Finished,
            waited: true,
            ..m
        }),
{
    reveal_with_fuel(TaskModel::steps, 3);
    if m.kind is Bounded {
        lemma_bounded_run(m, m.amount);
        lemma_steps_split(m, m.amount, 1);
    }
}

proof fn lemma_bounded_run(m: TaskModel, k: nat)
    requires
        m.wf(),
        m.kind is Bounded,
        m.status is Running,
        m.position + k <= m.amount,
    ensures
        m.steps(k) == (TaskModel { position: m.position + k, ..m }),
    decreases k,
{
    if k > 0 {
        lemma_bounded_run(m.step().0, (k - 1) as nat);
    }
}

/// The tasks that a run ends with do not depend on the order in which their
/// workers were joined: when two joins are accepted one after the other, they
/// are also accepted in the other order, and lead to the same state.
pub proof fn lemma_join_order_irrelevant(
    r: RunnerModel,
    i: int,
    j: int,
    a: TaskModel,
    b: TaskModel,
)
    requires
        r.wf(),
        r.join_ok(i, a),
        r.join(i, a).join_ok(j, b),
    ensures
        r.join_ok(j, b),
        r.join(j, b).join_ok(i, a),
        r.join(i, a).join(j, b) == r.join(j, b).join(i, a),
{
    assert(r.join(i, a).results[i] is Some);
    assert(r.join(i, a).join(j, b).results =~= r.join(j, b).join(i, a).results);
}

/// Likewise for completion signals: two signals accepted in one order are
/// accepted in the other, and lead to the same state.
pub proof fn lemma_signal_order_irrelevant(r: RunnerModel, i: int, j: int)
    requires
        r.wf(),
        r.signal_ok(i),
        r.signal(i).signal_ok(j),
    ensures
        r.signal_ok(j),
        r.signal(j).signal_ok(i),
        r.signal(i).signal(j) == r.signal(j).signal(i),
{
    assert(r.signal(i).signal(j).signalled =~= r.signal(j).signal(i).signalled);
}

} // verus!
