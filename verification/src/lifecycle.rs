//! The lifecycle of one ephemeral database, as a state machine without I/O.
//!
//! A [`Lifecycle`] tells its caller what to do next ([`Lifecycle::action`]),
//! takes the answer ([`Lifecycle::step`]) and, once nothing is left to do,
//! gives the outcome ([`Lifecycle::conclude`]). One invocation goes
//!
//! `Init → ControlConnected → DatabaseCreated → ScopedConnected → Migrated →
//! BodyExecuted → DatabaseDropped`
//!
//! and ends as `Returned` or `Reraised`. A failure before the database exists
//! ends the invocation at once. A failure after that is kept until the
//! database has been dropped.

use vstd::prelude::*;
use crate::name::{sanitize, sanitized, test_db_name, valid_identifier, name_with_suffix};
use crate::outcome::{ExecutionOutcome, HarnessError, Pending, TestOutcome};
use crate::statement::{
    create_statement,
    create_statement_text,
    drop_statement,
    drop_statement_text,
    scoped_connection_string,
    scoped_connection_text,
};

verus! {

/// Where an invocation stands.
#[derive(Debug, PartialEq, Eq)]
pub enum State<T, P, E> {
    /// Nothing has happened yet.
    Init,
    /// The control connection to the server is open.
    ControlConnected,
    /// The database exists. From here on it is owed a teardown.
    DatabaseCreated,
    /// The connection to the new database is open.
    ScopedConnected,
    /// All pending migrations have been applied.
    Migrated,
    /// The test body has run and its outcome is captured.
    BodyExecuted(ExecutionOutcome<T, P>),
    /// The connection to the new database could not be opened; the database
    /// is still to be dropped.
    ScopedConnectFailed(E),
    /// A migration failed; the database is still to be dropped.
    MigrationFailed(E),
    /// The database has been dropped. What was captured waits to be
    /// surfaced.
    DatabaseDropped(Result<T, Pending<P, E>>),
    /// `DROP DATABASE` failed. `pending` is the failure that was waiting.
    TeardownFailed { error: E, pending: Option<Pending<P, E>> },
    /// The control connection could not be opened; nothing was created.
    ControlConnectFailed(E),
    /// `CREATE DATABASE` failed; nothing was created.
    CreationFailed(E),
}

/// What the caller reports back after performing an [`Action`].
#[derive(Debug, PartialEq, Eq)]
pub enum Event<T, P, E> {
    /// The connection was opened, the statement executed or the migrations
    /// applied.
    Completed,
    /// The connection, the statement or a migration failed with this error.
    Failed(E),
    /// The test body is over, one way or the other.
    BodyFinished(ExecutionOutcome<T, P>),
}

/// What the caller is to do next.
#[derive(Debug, PartialEq, Eq)]
pub enum Action {
    /// Open the control connection with this connection string.
    ConnectControl { connection_string: String },
    /// Execute this statement on the control connection.
    CreateDatabase { statement: String },
    /// Open a second connection, to the new database, with this connection
    /// string.
    ConnectScoped { connection_string: String },
    /// Apply the pending migrations through the scoped connection.
    ApplyMigrations,
    /// Run the test body with the scoped connection and capture its outcome,
    /// abnormal termination included.
    RunBody,
    /// Close the scoped connection if it is still open, then execute this
    /// statement on the control connection.
    DropDatabase { statement: String },
    /// Nothing is left to do: close the control connection and surface the
    /// outcome.
    Surface,
}

/// An [`Action`] as contracts see it.
pub enum Command {
    ConnectControl { connection_string: Seq<char> },
    CreateDatabase { statement: Seq<char> },
    ConnectScoped { connection_string: Seq<char> },
    ApplyMigrations,
    RunBody,
    DropDatabase { statement: Seq<char> },
    Surface,
}

impl View for Action {
    type V = Command;

    open spec fn view(&self) -> Command {
        match self {
            Action::ConnectControl { connection_string } => Command::ConnectControl {
                connection_string: connection_string@,
            },
            Action::CreateDatabase { statement } => Command::CreateDatabase {
                statement: statement@,
            },
            Action::ConnectScoped { connection_string } => Command::ConnectScoped {
                connection_string: connection_string@,
            },
            Action::ApplyMigrations => Command::ApplyMigrations,
            Action::RunBody => Command::RunBody,
            Action::DropDatabase { statement } => Command::DropDatabase { statement: statement@ },
            Action::Surface => Command::Surface,
        }
    }
}

impl<T, P, E> State<T, P, E> {
    /// Nothing is left to do: the outcome can be surfaced.
    pub open spec fn settled(self) -> bool {
        match self {
            State::DatabaseDropped(_) => true,
            State::TeardownFailed { .. } => true,
            State::ControlConnectFailed(_) => true,
            State::CreationFailed(_) => true,
            _ => false,
        }
    }

    /// The database exists and has not been dropped: a teardown is owed.
    pub open spec fn owes_teardown(self) -> bool {
        match self {
            State::DatabaseCreated => true,
            State::ScopedConnected => true,
            State::Migrated => true,
            State::BodyExecuted(_) => true,
            State::ScopedConnectFailed(_) => true,
            State::MigrationFailed(_) => true,
            _ => false,
        }
    }

    /// What waits for the teardown: the body's value or the first failure
    /// after the database was created.
    pub open spec fn captured(self) -> Option<Result<T, Pending<P, E>>> {
        match self {
            State::BodyExecuted(outcome) => Some(outcome.captured()),
            State::ScopedConnectFailed(e) => Some(Err(Pending::Connect(e))),
            State::MigrationFailed(e) => Some(Err(Pending::Migration(e))),
            _ => None,
        }
    }

    /// Tells whether `event` answers what this state asks for.
    pub open spec fn accepts(self, event: Event<T, P, E>) -> bool {
        match self {
            State::Migrated => event is BodyFinished,
            _ => !self.settled() && !(event is BodyFinished),
        }
    }

    /// The state after `event`. An event that the state does not accept
    /// changes nothing.
    pub open spec fn next(self, event: Event<T, P, E>) -> Self {
        match (self, event) {
            (State::Init, Event::Completed) => State::ControlConnected,
            (State::Init, Event::Failed(e)) => State::ControlConnectFailed(e),
            (State::ControlConnected, Event::Completed) => State::DatabaseCreated,
            (State::ControlConnected, Event::Failed(e)) => State::CreationFailed(e),
            (State::DatabaseCreated, Event::Completed) => State::ScopedConnected,
            (State::DatabaseCreated, Event::Failed(e)) => State::ScopedConnectFailed(e),
            (State::ScopedConnected, Event::Completed) => State::Migrated,
            (State::ScopedConnected, Event::Failed(e)) => State::MigrationFailed(e),
            (State::Migrated, Event::BodyFinished(outcome)) => State::BodyExecuted(outcome),
            (_, Event::Completed) => match self.captured() {
                Some(captured) => State::DatabaseDropped(captured),
                None => self,
            },
            (_, Event::Failed(e)) => match self.captured() {
                Some(Ok(_)) => State::TeardownFailed { error: e, pending: None },
                Some(Err(failure)) => State::TeardownFailed { error: e, pending: Some(failure) },
                None => self,
            },
            _ => self,
        }
    }

    /// How the invocation ends, once the state is settled.
    pub open spec fn outcome(self) -> Option<TestOutcome<T, P, E>> {
        match self {
            State::DatabaseDropped(Ok(value)) => Some(TestOutcome::Returned(value)),
            State::DatabaseDropped(Err(failure)) => Some(TestOutcome::Reraised(failure.raised())),
            State::TeardownFailed { error, pending } => Some(
                TestOutcome::Reraised(HarnessError::DatabaseTeardown { error, pending }),
            ),
            State::ControlConnectFailed(e) => Some(TestOutcome::Reraised(HarnessError::Connect(e))),
            State::CreationFailed(e) => Some(
                TestOutcome::Reraised(HarnessError::DatabaseCreation(e)),
            ),
            _ => None,
        }
    }
}

/// What a lifecycle in `state` asks of its caller, for the server behind
/// `base` and the database `name`.
pub open spec fn command<T, P, E>(state: State<T, P, E>, base: Seq<char>, name: Seq<char>) -> Command {
    match state {
        State::Init => Command::ConnectControl { connection_string: base },
        State::ControlConnected => Command::CreateDatabase {
            statement: create_statement_text(name),
        },
        State::DatabaseCreated => Command::ConnectScoped {
            connection_string: scoped_connection_text(base, name),
        },
        State::ScopedConnected => Command::ApplyMigrations,
        State::Migrated => Command::RunBody,
        State::BodyExecuted(_) => Command::DropDatabase { statement: drop_statement_text(name) },
        State::ScopedConnectFailed(_) => Command::DropDatabase {
            statement: drop_statement_text(name),
        },
        State::MigrationFailed(_) => Command::DropDatabase {
            statement: drop_statement_text(name),
        },
        _ => Command::Surface,
    }
}

/// One invocation's database: the server it lives on, its name, and how far
/// the invocation has come.
#[derive(Debug)]
pub struct Lifecycle<T, P, E> {
    base: String,
    name: String,
    state: State<T, P, E>,
}

/// A [`Lifecycle`] as contracts see it.
pub struct LifecycleView<T, P, E> {
    /// The connection string of the server.
    pub base: Seq<char>,
    /// The name of the database.
    pub name: Seq<char>,
    pub state: State<T, P, E>,
}

impl<T, P, E> View for Lifecycle<T, P, E> {
    type V = LifecycleView<T, P, E>;

    closed spec fn view(&self) -> LifecycleView<T, P, E> {
        LifecycleView { base: self.base@, name: self.name@, state: self.state }
    }
}

impl<T, P, E> Lifecycle<T, P, E> {
    #[verifier::type_invariant]
    spec fn named_safely(self) -> bool {
        valid_identifier(self.name@)
    }

    /// A lifecycle at its start, for the server that `base` connects to and
    /// a database called `name`. The name is sanitized first, so that it can
    /// stand in a statement; a valid identifier is taken as it is.
    pub fn new(base: &str, name: &str) -> (lifecycle: Self)
        ensures
            lifecycle@.base == base@,
            lifecycle@.name == sanitized(name@),
            lifecycle@.state == State::<T, P, E>::Init,
            valid_identifier(lifecycle@.name),
            valid_identifier(name@) ==> lifecycle@.name == name@,
    {
        Lifecycle { base: String::from_str(base), name: sanitize(name), state: State::Init }
    }

    /// A lifecycle at its start for one invocation of the test
    /// `test_identifier`: the database gets a fresh name,
    /// `<test_identifier>_<suffix>` with a random suffix, sanitized.
    pub fn begin(base: &str, test_identifier: &str) -> (lifecycle: Self)
        ensures
            lifecycle@.base == base@,
            lifecycle@.state == State::<T, P, E>::Init,
            valid_identifier(lifecycle@.name),
            exists|suffix: u32|
                lifecycle@.name == sanitized(#[trigger] name_with_suffix(test_identifier@, suffix)),
            valid_identifier(test_identifier@) ==> exists|suffix: u32|
                lifecycle@.name == #[trigger] name_with_suffix(test_identifier@, suffix),
    {
        let name = test_db_name(test_identifier);
        Self::new(base, name.as_str())
    }

    /// The name of the database, a valid identifier.
    pub fn name(&self) -> (name: &str)
        ensures
            name@ == self@.name,
            valid_identifier(name@),
    {
        proof {
            use_type_invariant(self);
        }
        self.name.as_str()
    }

    /// The connection string of the server.
    pub fn base(&self) -> (base: &str)
        ensures
            base@ == self@.base,
    {
        self.base.as_str()
    }

    /// Where the invocation stands.
    pub fn state(&self) -> (state: &State<T, P, E>)
        ensures
            *state == self@.state,
    {
        &self.state
    }

    /// What the caller is to do next.
    pub fn action(&self) -> (action: Action)
        ensures
            action@ == command(self@.state, self@.base, self@.name),
            valid_identifier(self@.name),
    {
        proof {
            use_type_invariant(self);
        }
        match &self.state {
            State::Init => Action::ConnectControl { connection_string: self.base.clone() },
            State::ControlConnected => Action::CreateDatabase {
                statement: create_statement(self.name.as_str()),
            },
            State::DatabaseCreated => Action::ConnectScoped {
                connection_string: scoped_connection_string(
                    self.base.as_str(),
                    self.name.as_str(),
                ),
            },
            State::ScopedConnected => Action::ApplyMigrations,
            State::Migrated => Action::RunBody,
            State::BodyExecuted(_) => Action::DropDatabase {
                statement: drop_statement(self.name.as_str()),
            },
            State::ScopedConnectFailed(_) => Action::DropDatabase {
                statement: drop_statement(self.name.as_str()),
            },
            State::MigrationFailed(_) => Action::DropDatabase {
                statement: drop_statement(self.name.as_str()),
            },
            _ => Action::Surface,
        }
    }

    /// Tells whether nothing is left to do.
    pub fn is_settled(&self) -> (settled: bool)
        ensures
            settled == self@.state.settled(),
    {
        match &self.state {
            State::DatabaseDropped(_) => true,
            State::TeardownFailed { .. } => true,
            State::ControlConnectFailed(_) => true,
            State::CreationFailed(_) => true,
            _ => false,
        }
    }

    /// Tells whether `event` answers the pending action.
    pub fn accepts(&self, event: &Event<T, P, E>) -> (accepted: bool)
        ensures
            accepted == self@.state.accepts(*event),
    {
        match (&self.state, event) {
            (State::Migrated, Event::BodyFinished(_)) => true,
            (State::Migrated, _) => false,
            (_, Event::BodyFinished(_)) => false,
            _ => !self.is_settled(),
        }
    }

    /// Takes the answer to the pending action and moves on. The server and
    /// the name stay. An event that does not answer the pending action
    /// changes nothing.
    pub fn step(self, event: Event<T, P, E>) -> (after: Self)
        ensures
            after@.base == self@.base,
            after@.name == self@.name,
            after@.state == self@.state.next(event),
            !self@.state.accepts(event) ==> after@ == self@,
    {
        proof {
            use_type_invariant(&self);
        }
        let Lifecycle { base, name, state } = self;
        let state = match (state, event) {
            (State::Init, Event::Completed) => State::ControlConnected,
            (State::Init, Event::Failed(e)) => State::ControlConnectFailed(e),
            (State::ControlConnected, Event::Completed) => State::DatabaseCreated,
            (State::ControlConnected, Event::Failed(e)) => State::CreationFailed(e),
            (State::DatabaseCreated, Event::Completed) => State::ScopedConnected,
            (State::DatabaseCreated, Event::Failed(e)) => State::ScopedConnectFailed(e),
            (State::ScopedConnected, Event::Completed) => State::Migrated,
            (State::ScopedConnected, Event::Failed(e)) => State::MigrationFailed(e),
            (State::Migrated, Event::BodyFinished(outcome)) => State::BodyExecuted(outcome),
            (State::BodyExecuted(ExecutionOutcome::Success(value)), Event::Completed) => {
                State::DatabaseDropped(Ok(value))
            },
            (State::BodyExecuted(ExecutionOutcome::Failure(payload)), Event::Completed) => {
                State::DatabaseDropped(Err(Pending::TestBody(payload)))
            },
            (State::ScopedConnectFailed(f), Event::Completed) => State::DatabaseDropped(
                Err(Pending::Connect(f)),
            ),
            (State::MigrationFailed(f), Event::Completed) => State::DatabaseDropped(
                Err(Pending::Migration(f)),
            ),
            (State::BodyExecuted(ExecutionOutcome::Success(_)), Event::Failed(e)) => {
                State::TeardownFailed { error: e, pending: None }
            },
            (State::BodyExecuted(ExecutionOutcome::Failure(payload)), Event::Failed(e)) => {
                State::TeardownFailed { error: e, pending: Some(Pending::TestBody(payload)) }
            },
            (State::ScopedConnectFailed(f), Event::Failed(e)) => State::TeardownFailed {
                error: e,
                pending: Some(Pending::Connect(f)),
            },
            (State::MigrationFailed(f), Event::Failed(e)) => State::TeardownFailed {
                error: e,
                pending: Some(Pending::Migration(f)),
            },
            (state, _) => state,
        };
        Lifecycle { base, name, state }
    }

    /// Ends the invocation: gives the outcome of a settled lifecycle. One
    /// that is not settled comes back as it was.
    pub fn conclude(self) -> (result: Result<TestOutcome<T, P, E>, Self>)
        ensures
            match result {
                Ok(outcome) => self@.state.outcome() == Some(outcome),
                Err(unsettled) => !self@.state.settled() && unsettled@ == self@,
            },
            result is Ok <==> self@.state.settled(),
    {
        proof {
            use_type_invariant(&self);
        }
        let Lifecycle { base, name, state } = self;
        match state {
            State::DatabaseDropped(Ok(value)) => Ok(TestOutcome::Returned(value)),
            State::DatabaseDropped(Err(failure)) => Ok(TestOutcome::Reraised(failure.into_error())),
            State::TeardownFailed { error, pending } => Ok(
                TestOutcome::Reraised(HarnessError::DatabaseTeardown { error, pending }),
            ),
            State::ControlConnectFailed(e) => Ok(TestOutcome::Reraised(HarnessError::Connect(e))),
            State::CreationFailed(e) => Ok(
                TestOutcome::Reraised(HarnessError::DatabaseCreation(e)),
            ),
            state => Err(Lifecycle { base, name, state }),
        }
    }
}

} // verus!
