use vstd::prelude::*;

use crate::failure::{Failure, FailureView};
use crate::history::History;
use crate::record::RecordView;
use crate::task::Task;

verus! {

/// One task's contribution to a run: the records it appended on success, or
/// the failure it raised.
pub enum StepView {
    Appended(Seq<RecordView>),
    Failed(FailureView),
}

/// The records a step appended; a failed step appended none.
pub open spec fn appended_of(step: StepView) -> Seq<RecordView> {
    match step {
        StepView::Appended(rs) => rs,
        StepView::Failed(_) => Seq::empty(),
    }
}

/// The failure a failed step raised.
pub open spec fn step_failure(step: StepView) -> FailureView
    recommends
        step is Failed,
{
    step->Failed_0
}

/// The step recorded for one task call: what the call's result added to the
/// history `h` it was given, or the failure it returned.
pub open spec fn step_of(h: Seq<RecordView>, r: Result<History, Failure>) -> StepView {
    match r {
        Ok(out) => StepView::Appended(out@.skip(h.len() as int)),
        Err(f) => StepView::Failed(f@),
    }
}

/// The history accumulated after the first `i` steps of a run that starts
/// from the empty history.
pub open spec fn history_at(steps: Seq<StepView>, i: int) -> Seq<RecordView>
    decreases i,
{
    if i <= 0 {
        Seq::empty()
    } else {
        history_at(steps, i - 1) + appended_of(steps[i - 1])
    }
}

/// `history_at` reads only the steps before `i`, so it is unmoved by what
/// stands at `i` and after.
pub proof fn lemma_history_at_prefix(s1: Seq<StepView>, s2: Seq<StepView>, i: int)
    requires
        i <= s1.len(),
        i <= s2.len(),
        forall|j: int| 0 <= j < i ==> s1[j] == s2[j],
    ensures
        history_at(s1, i) == history_at(s2, i),
    decreases i,
{
    if i > 0 {
        lemma_history_at_prefix(s1, s2, i - 1);
    }
}

/// The synthetic record that the soft-fail policy appends for a failure: one
/// `"output"` key whose value is the failure's rendered message.
pub open spec fn failure_record(f: FailureView) -> RecordView {
    Map::empty().insert("output"@, f.message)
}

/// Every step of the trace succeeded.
pub open spec fn all_appended(steps: Seq<StepView>) -> bool {
    forall|i: int| 0 <= i < steps.len() ==> (#[trigger] steps[i]) is Appended
}

/// A finished run of `tasks` from the empty history: each step was a possible
/// outcome of its task on the history accumulated before it, a failure ends
/// the trace at once, and the trace covers every task unless one failed.
pub open spec fn is_trace<T: Task>(tasks: Seq<T>, steps: Seq<StepView>) -> bool {
    &&& steps.len() <= tasks.len()
    &&& forall|i: int|
        0 <= i < steps.len() ==> tasks[i].allows(history_at(steps, i), #[trigger] steps[i])
    &&& forall|i: int|
        0 <= i < steps.len() && (#[trigger] steps[i]) is Failed ==> i == steps.len() - 1
            && step_failure(steps[i]).task == tasks[i].task_name()
    &&& steps.len() < tasks.len() ==> steps.len() > 0 && steps.last() is Failed
}

/// The history that the soft-fail policy returns for a finished trace: all
/// records appended before a failure, then the one synthetic record if a
/// failure ended the trace.
pub open spec fn soft_result(steps: Seq<StepView>) -> Seq<RecordView> {
    if steps.len() > 0 && steps.last() is Failed {
        history_at(steps, steps.len() - 1) + seq![failure_record(step_failure(steps.last()))]
    } else {
        history_at(steps, steps.len() as int)
    }
}

} // verus!
