//! A minimal sequential task pipeline: an ordered list of named tasks, each
//! reading the records accumulated so far and appending its own, with a
//! selectable policy for what a task failure does to the rest of the run.

pub mod failure;
pub mod history;
pub mod laws;
pub mod model;
pub mod pipeline;
pub mod record;
pub mod task;
