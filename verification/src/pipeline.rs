use vstd::prelude::*;

use crate::failure::{Failure, FailureView};
use crate::history::History;
use crate::model::{
    all_appended, failure_record, history_at, is_trace, lemma_history_at_prefix, soft_result,
    step_failure, step_of, StepView,
};
use crate::record::{Record, RecordView};
use crate::task::Task;

verus! {

/// What the pipeline does with a task failure, chosen at construction and
/// applied uniformly to every task: absorb it into the history as one
/// synthetic record and report success, or end the run with no history.
#[derive(Clone, Copy, Debug, PartialEq, Eq)]
pub enum Policy {
    SoftFail,
    HardFail,
}

/// The terminal outcome of a hard-failed run: the failure that ended it. No
/// partial history comes with it; a caller of a hard-fail pipeline treats it
/// as fatal.
#[derive(Debug, PartialEq, Eq)]
pub struct PipelineError {
    failure: Failure,
}

impl View for PipelineError {
    type V = FailureView;

    closed spec fn view(&self) -> FailureView {
        self.failure@
    }
}

impl PipelineError {
    pub fn new(failure: Failure) -> (e: PipelineError)
        ensures
            e@ == failure@,
    {
        PipelineError { failure }
    }

    /// The failure that ended the run.
    pub fn failure(&self) -> (f: &Failure)
        ensures
            f@ == self@,
    {
        &self.failure
    }
}

/// An ordered sequence of tasks with a failure policy, both fixed at
/// construction. A run executes the tasks in declared order, each on the
/// history accumulated so far; after the first failure no further task runs.
pub struct Pipeline<T: Task> {
    tasks: Vec<T>,
    policy: Policy,
}

impl<T: Task> Pipeline<T> {
    /// The tasks, in execution order.
    pub closed spec fn spec_tasks(&self) -> Seq<T> {
        self.tasks@
    }

    /// The configured failure policy.
    pub closed spec fn spec_policy(&self) -> Policy {
        self.policy
    }

    pub fn new(tasks: Vec<T>, policy: Policy) -> (p: Pipeline<T>)
        ensures
            p.spec_tasks() == tasks@,
            p.spec_policy() == policy,
    {
        Pipeline { tasks, policy }
    }

    /// Runs the whole sequence from the empty history. The result is exactly
    /// what some finished trace of the tasks yields: under the soft-fail
    /// policy always a history, with one synthetic record closing it when a
    /// task failed; under the hard-fail policy a history only when every task
    /// succeeded, else the terminal failure and no history at all.
    pub fn start(&self) -> (r: Result<History, PipelineError>)
        ensures
            self.spec_tasks().len() == 0 ==> (r matches Ok(h) && h@ == Seq::<
                RecordView,
            >::empty()),
            self.spec_policy() is SoftFail ==> (r matches Ok(h) && (exists|steps: Seq<StepView>|
                #[trigger] is_trace(self.spec_tasks(), steps) && h@ == soft_result(steps))),
            self.spec_policy() is HardFail ==> (match r {
                Ok(h) => exists|steps: Seq<StepView>|
                    #[trigger] is_trace(self.spec_tasks(), steps) && steps.len()
                        == self.spec_tasks().len() && all_appended(steps) && h@ == history_at(
                        steps,
                        steps.len() as int,
                    ),
                Err(e) => exists|steps: Seq<StepView>|
                    #[trigger] is_trace(self.spec_tasks(), steps) && steps.len() > 0
                        && steps.last() is Failed && e@ == step_failure(steps.last()),
            }),
    {
        let mut history = History::new();
        let ghost mut steps: Seq<StepView> = Seq::empty();
        let mut i: usize = 0;
        while i < self.tasks.len()
            invariant
                i <= self.tasks@.len(),
                steps.len() == i,
                all_appended(steps),
                forall|j: int|
                    0 <= j < i ==> self.tasks@[j].allows(
                        history_at(steps, j),
                        #[trigger] steps[j],
                    ),
                history@ == history_at(steps, i as int),
            decreases self.tasks@.len() - i,
        {
            let ghost pre = history@;
            let ghost old_steps = steps;
            match self.tasks[i].run(&history) {
                Ok(out) => {
                    proof {
                        let step = step_of(pre, Result::<History, Failure>::Ok(out));
                        steps = steps.push(step);
                        assert forall|j: int| 0 <= j < i + 1 implies self.tasks@[j].allows(
                            history_at(steps, j),
                            #[trigger] steps[j],
                        ) by {
                            lemma_history_at_prefix(old_steps, steps, j);
                        }
                        lemma_history_at_prefix(old_steps, steps, i as int);
                        assert(out@ =~= pre + out@.skip(pre.len() as int));
                    }
                    history = out;
                },
                Err(f) => {
                    proof {
                        let step = step_of(pre, Result::<History, Failure>::Err(f));
                        steps = steps.push(step);
                        assert forall|j: int| 0 <= j < i implies self.tasks@[j].allows(
                            history_at(steps, j),
                            #[trigger] steps[j],
                        ) by {
                            lemma_history_at_prefix(old_steps, steps, j);
                        }
                        lemma_history_at_prefix(old_steps, steps, i as int);
                        assert(is_trace(self.spec_tasks(), steps));
                    }
                    match self.policy {
                        Policy::SoftFail => {
                            let ghost failed = f@;
                            let message = f.into_message();
                            let rec = Record::new().set("output".to_owned(), message);
                            history.push_record(rec);
                            proof {
                                assert(rec@ =~= failure_record(failed));
                                assert(history@ == soft_result(steps));
                            }
                            return Ok(history);
                        },
                        Policy::HardFail => {
                            return Err(PipelineError::new(f));
                        },
                    }
                },
            }
            i = i + 1;
        }
        proof {
            assert(is_trace(self.spec_tasks(), steps));
            assert(history@ == soft_result(steps));
        }
        Ok(history)
    }
}

} // verus!
