use vstd::prelude::*;

use vstd::string::StringExecFns;

verus! {

/// The mathematical value of a task failure: the failing task's name and the
/// rendered message that wraps the inner cause.
pub struct FailureView {
    pub task: Seq<char>,
    pub message: Seq<char>,
}

/// What a task failure carries out of the task boundary: the task's declared
/// name and a human-readable message naming the task and the inner cause. Raw
/// task-internal errors never reach the pipeline in any other shape.
#[derive(Debug, PartialEq, Eq)]
pub struct Failure {
    task: String,
    message: String,
}

impl View for Failure {
    type V = FailureView;

    closed spec fn view(&self) -> FailureView {
        FailureView { task: self.task@, message: self.message@ }
    }
}

impl Failure {
    pub fn new(task: String, message: String) -> (f: Failure)
        ensures
            f@ == (FailureView { task: task@, message: message@ }),
    {
        Failure { task, message }
    }

    /// The name of the task that failed.
    pub fn task_name(&self) -> (r: &String)
        ensures
            r@ == self@.task,
    {
        &self.task
    }

    /// The rendered message, inner cause included.
    pub fn message(&self) -> (r: &String)
        ensures
            r@ == self@.message,
    {
        &self.message
    }

    /// Gives up the failure for its rendered message.
    pub fn into_message(self) -> (r: String)
        ensures
            r@ == self@.message,
    {
        self.message
    }
}

/// A task-internal error: a plain description of what went wrong inside a
/// task's own logic, before the task boundary wraps it.
#[derive(Debug, PartialEq, Eq)]
pub struct MyError {
    details: String,
}

impl View for MyError {
    type V = Seq<char>;

    closed spec fn view(&self) -> Seq<char> {
        self.details@
    }
}

impl MyError {
    pub fn new(msg: &str) -> (e: MyError)
        ensures
            e@ == msg@,
    {
        MyError { details: msg.to_owned() }
    }

    /// The error's description.
    pub fn details(&self) -> (r: &String)
        ensures
            r@ == self@,
    {
        &self.details
    }
}

/// The message a failure of task `task` with inner cause `cause` renders to.
pub open spec fn spec_failure_message(task: Seq<char>, cause: Seq<char>) -> Seq<char> {
    "Error in basic task \""@ + task + "\" with message: \""@ + cause + "\""@
}

/// Builds the message that names the failing task and quotes the inner cause.
pub fn render_failure_message(task: &String, cause: &String) -> (r: String)
    ensures
        r@ == spec_failure_message(task@, cause@),
{
    let mut s = String::new();
    s.append("Error in basic task \"");
    s.append(task.as_str());
    s.append("\" with message: \"");
    s.append(cause.as_str());
    s.append("\"");
    s
}

} // verus!
