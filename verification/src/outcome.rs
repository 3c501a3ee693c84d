//! What a test invocation ends with, and the failures on the way there.

use vstd::prelude::*;

verus! {

/// What running the test body gave. It is made when the body is invoked and
/// read once, after teardown, to decide between returning and re-raising.
#[derive(Debug, PartialEq, Eq)]
pub enum ExecutionOutcome<T, P> {
    /// The body returned a value.
    Success(T),
    /// The body failed or ended abnormally; `P` is what it failed with.
    Failure(P),
}

/// A failure that waits while the database is torn down.
#[derive(Debug, PartialEq, Eq)]
pub enum Pending<P, E> {
    /// The connection to the new database could not be opened.
    Connect(E),
    /// A migration failed.
    Migration(E),
    /// The test body failed with this payload.
    TestBody(P),
}

/// Why an invocation did not return normally. `P` is the payload of a failing
/// test body, `E` the error of the database driver or the migration engine.
#[derive(Debug, PartialEq, Eq)]
pub enum HarnessError<P, E> {
    /// A connection could not be opened.
    Connect(E),
    /// `CREATE DATABASE` failed; nothing was created.
    DatabaseCreation(E),
    /// A migration failed; the database was dropped afterwards.
    Migration(E),
    /// The test body failed; the database was dropped afterwards.
    TestBody(P),
    /// `DROP DATABASE` failed. `pending` is the failure that was waiting for
    /// the teardown, if there was one: both are reported.
    DatabaseTeardown { error: E, pending: Option<Pending<P, E>> },
}

/// How an invocation ends.
#[derive(Debug, PartialEq, Eq)]
pub enum TestOutcome<T, P, E> {
    /// The body's value goes back to the caller.
    Returned(T),
    /// The failure is raised again to the caller.
    Reraised(HarnessError<P, E>),
}

impl<P, E> Pending<P, E> {
    /// The error this failure is raised as once teardown has succeeded.
    pub open spec fn raised(self) -> HarnessError<P, E> {
        match self {
            Pending::Connect(e) => HarnessError::Connect(e),
            Pending::Migration(e) => HarnessError::Migration(e),
            Pending::TestBody(p) => HarnessError::TestBody(p),
        }
    }

    /// The error this failure is raised as once teardown has succeeded.
    pub fn into_error(self) -> (error: HarnessError<P, E>)
        ensures
            error == self.raised(),
    {
        match self {
            Pending::Connect(e) => HarnessError::Connect(e),
            Pending::Migration(e) => HarnessError::Migration(e),
            Pending::TestBody(p) => HarnessError::TestBody(p),
        }
    }
}

impl<T, P> ExecutionOutcome<T, P> {
    /// The body's outcome as it waits for teardown: the value, or the
    /// failure with its payload untouched.
    pub open spec fn captured<E>(self) -> Result<T, Pending<P, E>> {
        match self {
            ExecutionOutcome::Success(value) => Ok(value),
            ExecutionOutcome::Failure(payload) => Err(Pending::TestBody(payload)),
        }
    }

    /// Reads a `Result` as an outcome: `Ok` is success, `Err` is failure.
    pub fn capture(result: Result<T, P>) -> (outcome: Self)
        ensures
            outcome == match result {
                Ok(value) => ExecutionOutcome::Success(value),
                Err(payload) => ExecutionOutcome::Failure(payload),
            },
    {
        match result {
            Ok(value) => ExecutionOutcome::Success(value),
            Err(payload) => ExecutionOutcome::Failure(payload),
        }
    }
}

impl<P, E> HarnessError<P, E> {
    /// The payload of the test body's failure, where this error reports one,
    /// alone or beside a failed teardown.
    pub open spec fn body_payload(self) -> Option<P> {
        match self {
            HarnessError::TestBody(p) => Some(p),
            HarnessError::DatabaseTeardown { pending: Some(Pending::TestBody(p)), .. } => Some(p),
            _ => None,
        }
    }

    /// Tells whether this error reports the driver or engine error `e`.
    pub open spec fn reports(self, e: E) -> bool {
        match self {
            HarnessError::Connect(x) => x == e,
            HarnessError::DatabaseCreation(x) => x == e,
            HarnessError::Migration(x) => x == e,
            HarnessError::TestBody(_) => false,
            HarnessError::DatabaseTeardown { error, pending } => error == e || match pending {
                Some(Pending::Connect(x)) => x == e,
                Some(Pending::Migration(x)) => x == e,
                _ => false,
            },
        }
    }
}

} // verus!
