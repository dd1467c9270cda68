//! Per-task execution contexts for a single-address-space kernel on x86-64.
//!
//! The crate decides what has to happen when a task is given its stacks, its
//! first register frame, its thread-local storage and its timer tick, and
//! hands those decisions out as short programs of platform operations. A
//! reference model of the platform gives the programs their meaning, and the
//! properties of each program are proved against that model.

pub mod config;
pub mod frame;
pub mod machine;
pub mod stacks;
pub mod task;
pub mod entry;
pub mod timer;
