use taskpipe::failure::{render_failure_message, MyError};
use taskpipe::history::History;
use taskpipe::pipeline::{Pipeline, Policy};
use taskpipe::record::Record;
use taskpipe::task::{simple_error, simple_task, BasicTask, Task};

type TaskFn = fn(&History) -> Result<History, MyError>;

const RENDERED_FAILURE: &str = "Error in basic task \"kiss my ass\" with message: \"unknown\"";

fn output_record(value: &str) -> Record {
    Record::new().set("output".to_string(), value.to_string())
}

fn append_alpha(h: &History) -> Result<History, MyError> {
    Ok(h.appended(output_record("alpha")))
}

fn append_beta_twice(h: &History) -> Result<History, MyError> {
    Ok(h.appended(output_record("beta")).appended(output_record("beta")))
}

fn demo_pipeline(policy: Policy) -> Pipeline<BasicTask<TaskFn>> {
    let tasks = vec![
        BasicTask::new("hello world".to_string(), simple_task as TaskFn),
        BasicTask::new("kiss my ass".to_string(), simple_error as TaskFn),
        BasicTask::new("hello world".to_string(), simple_task as TaskFn),
    ];
    Pipeline::new(tasks, policy)
}

fn output_of(h: &History, i: usize) -> String {
    h.record_at(i).get("output").expect("record has an output entry").clone()
}

#[test]
fn empty_pipeline_soft_fail_returns_empty_history() {
    let p: Pipeline<BasicTask<TaskFn>> = Pipeline::new(Vec::new(), Policy::SoftFail);
    let h = p.start().expect("an empty pipeline must succeed");
    assert_eq!(h.len(), 0);
}

#[test]
fn empty_pipeline_hard_fail_returns_empty_history() {
    let p: Pipeline<BasicTask<TaskFn>> = Pipeline::new(Vec::new(), Policy::HardFail);
    let h = p.start().expect("an empty pipeline must succeed");
    assert_eq!(h.len(), 0);
}

#[test]
fn all_success_pipeline_appends_in_task_order() {
    let tasks = vec![
        BasicTask::new("first".to_string(), append_alpha as TaskFn),
        BasicTask::new("second".to_string(), append_beta_twice as TaskFn),
    ];
    let p = Pipeline::new(tasks, Policy::SoftFail);
    let h = p.start().expect("an all-success pipeline must succeed");
    assert_eq!(h.len(), 3);
    assert_eq!(output_of(&h, 0), "alpha");
    assert_eq!(output_of(&h, 1), "beta");
    assert_eq!(output_of(&h, 2), "beta");
}

#[test]
fn soft_fail_pipeline_stops_at_first_failure() {
    let h = demo_pipeline(Policy::SoftFail).start().expect("soft-fail must return a history");
    assert_eq!(h.len(), 2);
    assert_eq!(output_of(&h, 0), "Hello, world!");
    assert_eq!(output_of(&h, 1), RENDERED_FAILURE);
}

#[test]
fn hard_fail_pipeline_returns_no_history() {
    let r = demo_pipeline(Policy::HardFail).start();
    let e = r.expect_err("hard-fail must not return a history");
    assert_eq!(e.failure().task_name().as_str(), "kiss my ass");
    assert_eq!(e.failure().message().as_str(), RENDERED_FAILURE);
}

#[test]
fn rerunning_pipeline_gives_equal_history() {
    let p = demo_pipeline(Policy::SoftFail);
    let h1 = p.start().expect("first run must succeed");
    let h2 = p.start().expect("second run must succeed");
    assert_eq!(h1, h2);
    let all_success = Pipeline::new(
        vec![
            BasicTask::new("first".to_string(), append_alpha as TaskFn),
            BasicTask::new("second".to_string(), append_beta_twice as TaskFn),
        ],
        Policy::SoftFail,
    );
    let g1 = all_success.start().expect("first run must succeed");
    let g2 = all_success.start().expect("second run must succeed");
    assert_eq!(g1, g2);
}

#[test]
fn hello_then_failure_joined_output() {
    let h = demo_pipeline(Policy::SoftFail).start().expect("soft-fail must return a history");
    let mut outputs: Vec<String> = Vec::new();
    for i in 0..h.len() {
        outputs.push(output_of(&h, i));
    }
    assert_eq!(
        outputs.join(" "),
        "Hello, world! Error in basic task \"kiss my ass\" with message: \"unknown\""
    );
}

#[test]
fn record_set_get_and_overwrite() {
    let empty = Record::new();
    assert_eq!(empty.get("output"), None);
    let first = empty.set("output".to_string(), "one".to_string());
    let second = first.set("output".to_string(), "two".to_string());
    assert_eq!(first.get("output"), Some(&"one".to_string()));
    assert_eq!(second.get("output"), Some(&"two".to_string()));
    assert_eq!(second.get("missing"), None);
}

#[test]
fn record_duplicate_is_equal() {
    let r = output_record("alpha").set("extra".to_string(), "beta".to_string());
    assert_eq!(r.duplicate(), r);
}

#[test]
fn history_appended_leaves_original_alone() {
    let h = History::new();
    let grown = h.appended(output_record("alpha"));
    assert_eq!(h.len(), 0);
    assert_eq!(grown.len(), 1);
    assert_eq!(output_of(&grown, 0), "alpha");
}

#[test]
fn history_push_record_appends_at_end() {
    let mut h = History::new().appended(output_record("alpha"));
    h.push_record(output_record("beta"));
    assert_eq!(h.len(), 2);
    assert_eq!(output_of(&h, 0), "alpha");
    assert_eq!(output_of(&h, 1), "beta");
}

#[test]
fn my_error_carries_details() {
    let e = MyError::new("unknown");
    assert_eq!(e.details().as_str(), "unknown");
}

#[test]
fn render_failure_message_quotes_name_and_cause() {
    let msg = render_failure_message(&"kiss my ass".to_string(), &"unknown".to_string());
    assert_eq!(msg, RENDERED_FAILURE);
}

#[test]
fn simple_task_appends_greeting() {
    let h = simple_task(&History::new()).expect("simple_task must succeed");
    assert_eq!(h.len(), 1);
    assert_eq!(output_of(&h, 0), "Hello, world!");
    let longer = simple_task(&h).expect("simple_task must succeed");
    assert_eq!(longer.len(), 2);
    assert_eq!(output_of(&longer, 0), "Hello, world!");
    assert_eq!(output_of(&longer, 1), "Hello, world!");
}

#[test]
fn simple_error_fails_with_unknown() {
    let e = simple_error(&History::new()).expect_err("simple_error must fail");
    assert_eq!(e.details().as_str(), "unknown");
}

#[test]
fn basic_task_wraps_failure_under_its_name() {
    let t = BasicTask::new("kiss my ass".to_string(), simple_error as TaskFn);
    let f = t.run(&History::new()).expect_err("the task must fail");
    assert_eq!(f.task_name().as_str(), "kiss my ass");
    assert_eq!(f.message().as_str(), RENDERED_FAILURE);
}

#[test]
fn basic_task_passes_success_through() {
    let t = BasicTask::new("hello world".to_string(), simple_task as TaskFn);
    let base = History::new().appended(output_record("alpha"));
    let h = t.run(&base).expect("the task must succeed");
    assert_eq!(h.len(), 2);
    assert_eq!(output_of(&h, 0), "alpha");
    assert_eq!(output_of(&h, 1), "Hello, world!");
}
