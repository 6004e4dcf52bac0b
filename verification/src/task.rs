use vstd::prelude::*;

use crate::failure::{
    spec_failure_message, render_failure_message, Failure, FailureView, MyError,
};
use crate::history::History;
use crate::model::{step_of, StepView};
use crate::record::{Record, RecordView};

verus! {

/// A named, stateless unit of work. A task reads the history accumulated so
/// far and returns either that history extended with its own records, or a
/// failure carrying its name. `allows` says which outcomes a call may have,
/// so that a run's result can be pinned to its tasks' behaviour.
pub trait Task: Sized {
    /// The task's declared name.
    spec fn task_name(&self) -> Seq<char>;

    /// Holds of the steps that one call of the task on history `h` may take.
    spec fn allows(&self, h: Seq<RecordView>, step: StepView) -> bool;

    /// Runs the task on the accumulated history. On success the returned
    /// history extends the given one; on failure the failure bears the
    /// task's name.
    fn run(&self, history: &History) -> (r: Result<History, Failure>)
        ensures
            self.allows(history@, step_of(history@, r)),
            r matches Ok(out) ==> out@.len() >= history@.len() && out@.subrange(
                0,
                history@.len() as int,
            ) == history@,
            r matches Err(f) ==> f@.task == self.task_name(),
    ;
}

/// The outcomes a `BasicTask` built from `f` under `name` may have on history
/// `h`: exactly the outcomes of `f`, with a success's records taken as what it
/// appended and a failure re-wrapped under the task's name.
pub open spec fn basic_task_allows<F: Fn(&History) -> Result<History, MyError>>(
    f: &F,
    name: Seq<char>,
    h: Seq<RecordView>,
    step: StepView,
) -> bool {
    exists|hist: &History, inner: Result<History, MyError>|
        hist@ == h && #[trigger] f.ensures((hist,), inner) && step == (match inner {
            Ok(out) => StepView::Appended(out@.skip(h.len() as int)),
            Err(e) => StepView::Failed(
                FailureView { task: name, message: spec_failure_message(name, e@) },
            ),
        })
}

/// A task made of a name and a function from history to a new history or an
/// error. The function must accept any history and, on success, return the
/// given history with its own records appended at the end; its error is
/// re-wrapped here, so nothing past the task boundary sees it raw.
pub struct BasicTask<F> where F: Fn(&History) -> Result<History, MyError> {
    id: String,
    f: F,
}

impl<F> BasicTask<F> where F: Fn(&History) -> Result<History, MyError> {
    #[verifier::type_invariant]
    spec fn wf(&self) -> bool {
        &&& forall|h: &History| #[trigger] self.f.requires((h,))
        &&& forall|h: &History, r: Result<History, MyError>|
            #[trigger] self.f.ensures((h,), r) ==> (r matches Ok(out) ==> out@.len() >= h@.len()
                && out@.subrange(0, h@.len() as int) == h@)
    }

    pub fn new(name: String, f: F) -> (t: BasicTask<F>)
        requires
            forall|h: &History| #[trigger] f.requires((h,)),
            forall|h: &History, r: Result<History, MyError>|
                #[trigger] f.ensures((h,), r) ==> (r matches Ok(out) ==> out@.len() >= h@.len()
                    && out@.subrange(0, h@.len() as int) == h@),
        ensures
            t.task_name() == name@,
            forall|h: Seq<RecordView>, step: StepView| #[trigger]
                t.allows(h, step) == basic_task_allows(&f, name@, h, step),
    {
        BasicTask { id: name, f }
    }
}

impl<F> Task for BasicTask<F> where F: Fn(&History) -> Result<History, MyError> {
    closed spec fn task_name(&self) -> Seq<char> {
        self.id@
    }

    closed spec fn allows(&self, h: Seq<RecordView>, step: StepView) -> bool {
        basic_task_allows(&self.f, self.id@, h, step)
    }

    fn run(&self, history: &History) -> (r: Result<History, Failure>) {
        proof {
            use_type_invariant(self);
        }
        let res = (self.f)(history);
        let ghost inner = res;
        let r: Result<History, Failure> = match res {
            Ok(out) => Ok(out),
            Err(e) => {
                let message = render_failure_message(&self.id, e.details());
                Err(Failure::new(self.id.clone(), message))
            },
        };
        proof {
            assert(self.f.ensures((history,), inner));
        }
        r
    }
}

/// The record `{"output": "Hello, world!"}` that `simple_task` appends.
pub open spec fn hello_record() -> RecordView {
    Map::empty().insert("output"@, "Hello, world!"@)
}

/// A task function that appends one greeting record to the history it is
/// given and fails on no input.
pub fn simple_task(history: &History) -> (r: Result<History, MyError>)
    ensures
        r matches Ok(out) && out@ == history@ + seq![hello_record()],
{
    let rec = Record::new().set("output".to_owned(), "Hello, world!".to_owned());
    Ok(history.appended(rec))
}

/// A task function that fails on every input, with cause `"unknown"`.
pub fn simple_error(_history: &History) -> (r: Result<History, MyError>)
    ensures
        r matches Err(e) && e@ == "unknown"@,
{
    Err(MyError::new("unknown"))
}

} // verus!
