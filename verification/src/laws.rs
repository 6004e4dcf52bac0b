use vstd::prelude::*;

use crate::model::{
    all_appended, appended_of, failure_record, history_at, is_trace, lemma_history_at_prefix,
    soft_result, step_failure, StepView,
};
use crate::record::RecordView;
use crate::task::Task;

verus! {

/// The number of records the first `i` steps appended, added up in step order.
pub open spec fn count_sum(steps: Seq<StepView>, i: int) -> int
    decreases i,
{
    if i <= 0 {
        0
    } else {
        count_sum(steps, i - 1) + appended_of(steps[i - 1]).len()
    }
}

/// The history after `i` steps holds exactly the records counted so far.
proof fn lemma_history_at_len(steps: Seq<StepView>, i: int)
    ensures
        history_at(steps, i).len() as int == count_sum(steps, i),
    decreases i,
{
    if i > 0 {
        lemma_history_at_len(steps, i - 1);
    }
}

/// The history after `j` steps stands unchanged at the front of the history
/// after any later step.
proof fn lemma_history_at_extends(steps: Seq<StepView>, j: int, i: int)
    requires
        0 <= j <= i,
    ensures
        history_at(steps, j).len() <= history_at(steps, i).len(),
        history_at(steps, i).subrange(0, history_at(steps, j).len() as int) == history_at(
            steps,
            j,
        ),
    decreases i,
{
    if j < i {
        lemma_history_at_extends(steps, j, i - 1);
        assert(history_at(steps, i).subrange(0, history_at(steps, j).len() as int) =~= history_at(
            steps,
            j,
        ));
    } else {
        assert(history_at(steps, i).subrange(0, history_at(steps, j).len() as int) =~= history_at(
            steps,
            j,
        ));
    }
}

/// Law: when every task of a run succeeds, the trace covers every task, the
/// returned history's record count is the sum of the counts the tasks
/// appended, and each task's records stand contiguously in task order.
pub proof fn lemma_all_success_result<T: Task>(tasks: Seq<T>, steps: Seq<StepView>)
    requires
        is_trace(tasks, steps),
        all_appended(steps),
    ensures
        steps.len() == tasks.len(),
        soft_result(steps) == history_at(steps, steps.len() as int),
        soft_result(steps).len() as int == count_sum(steps, steps.len() as int),
        forall|j: int|
            0 <= j < steps.len() ==> soft_result(steps).subrange(
                history_at(steps, j).len() as int,
                history_at(steps, j + 1).len() as int,
            ) == appended_of(#[trigger] steps[j]),
{
    lemma_history_at_len(steps, steps.len() as int);
    assert forall|j: int| 0 <= j < steps.len() implies soft_result(steps).subrange(
        history_at(steps, j).len() as int,
        history_at(steps, j + 1).len() as int,
    ) == appended_of(#[trigger] steps[j]) by {
        lemma_history_at_extends(steps, j + 1, steps.len() as int);
        assert(history_at(steps, j + 1) == history_at(steps, j) + appended_of(steps[j]));
        assert(soft_result(steps).subrange(
            history_at(steps, j).len() as int,
            history_at(steps, j + 1).len() as int,
        ) =~= appended_of(steps[j]));
    }
}

/// Law: when a task fails under the soft-fail policy, the run's history is
/// what the earlier tasks appended followed by exactly one synthetic record
/// bearing the failure's message; the failure bears the failing task's name,
/// every earlier step succeeded, and no later task contributes anything.
pub proof fn lemma_soft_failure_shape<T: Task>(tasks: Seq<T>, steps: Seq<StepView>)
    requires
        is_trace(tasks, steps),
        steps.len() > 0,
        steps.last() is Failed,
    ensures
        soft_result(steps) == history_at(steps, steps.len() - 1) + seq![
            failure_record(step_failure(steps.last())),
        ],
        step_failure(steps.last()).task == tasks[steps.len() - 1].task_name(),
        forall|j: int| 0 <= j < steps.len() - 1 ==> (#[trigger] steps[j]) is Appended,
{
    assert(steps[steps.len() - 1] is Failed);
    assert forall|j: int| 0 <= j < steps.len() - 1 implies (#[trigger] steps[j]) is Appended by {
        if steps[j] is Failed {
            assert(j == steps.len() - 1);
        }
    }
}

/// Each task admits at most one outcome on any given history.
pub open spec fn deterministic<T: Task>(tasks: Seq<T>) -> bool {
    forall|i: int, h: Seq<RecordView>, s1: StepView, s2: StepView|
        0 <= i < tasks.len() && #[trigger] tasks[i].allows(h, s1) && #[trigger] tasks[i].allows(
            h,
            s2,
        ) ==> s1 == s2
}

/// Two finished traces of deterministic tasks agree step by step as far as
/// the shorter one reaches.
#[verifier::rlimit(50)]
proof fn lemma_trace_prefix_agree<T: Task>(
    tasks: Seq<T>,
    s1: Seq<StepView>,
    s2: Seq<StepView>,
    i: int,
)
    requires
        deterministic(tasks),
        is_trace(tasks, s1),
        is_trace(tasks, s2),
        0 <= i <= s1.len(),
        i <= s2.len(),
    ensures
        forall|j: int| 0 <= j < i ==> s1[j] == s2[j],
    decreases i,
{
    if i > 0 {
        lemma_trace_prefix_agree(tasks, s1, s2, i - 1);
        lemma_history_at_prefix(s1, s2, i - 1);
        assert(tasks[i - 1].allows(history_at(s1, i - 1), s1[i - 1]));
        assert(tasks[i - 1].allows(history_at(s2, i - 1), s2[i - 1]));
        assert(s1[i - 1] == s2[i - 1]);
    }
}

/// Law: a pipeline of deterministic tasks has exactly one finished trace, so
/// running it twice from scratch yields histories equal in content and order.
pub proof fn lemma_deterministic_runs_agree<T: Task>(
    tasks: Seq<T>,
    s1: Seq<StepView>,
    s2: Seq<StepView>,
)
    requires
        deterministic(tasks),
        is_trace(tasks, s1),
        is_trace(tasks, s2),
    ensures
        s1 == s2,
        soft_result(s1) == soft_result(s2),
{
    if s1.len() <= s2.len() {
        lemma_traces_equal(tasks, s1, s2);
    } else {
        lemma_traces_equal(tasks, s2, s1);
    }
}

/// Of two finished traces of deterministic tasks, the shorter is the whole of
/// the longer: a trace ends only where every task ran or one failed, and a
/// failure pins the trace's length.
proof fn lemma_traces_equal<T: Task>(tasks: Seq<T>, s1: Seq<StepView>, s2: Seq<StepView>)
    requires
        deterministic(tasks),
        is_trace(tasks, s1),
        is_trace(tasks, s2),
        s1.len() <= s2.len(),
    ensures
        s1 == s2,
{
    lemma_trace_prefix_agree(tasks, s1, s2, s1.len() as int);
    if s1.len() < s2.len() {
        assert(s1.last() is Failed);
        assert(s2[s1.len() - 1] is Failed);
        assert(false);
    } else {
        assert(s1 =~= s2);
    }
}

} // verus!
