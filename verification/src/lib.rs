//! Disposable databases for tests that need a real database connection.
//!
//! Every test invocation gets a database of its own: it is created under a
//! fresh name, migrated, handed to the test body and dropped again, whatever
//! the body did. This crate holds the rules of that lifecycle as a state
//! machine without I/O. The caller performs each [`lifecycle::Action`] with
//! its database driver and reports what happened as a [`lifecycle::Event`].

pub mod lifecycle;
pub mod name;
pub mod outcome;
pub mod statement;
pub mod trace;

pub use lifecycle::{Action, Event, Lifecycle, State};
pub use name::test_db_name;
pub use outcome::{ExecutionOutcome, HarnessError, Pending, TestOutcome};
