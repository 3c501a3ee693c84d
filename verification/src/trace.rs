//! Whole invocations: what holds of every sequence of answers that a caller
//! can give to a lifecycle.
//!
//! A trace is the sequence of events that a caller reported, in order, each
//! answering the action that was pending when it came. The lemmas here speak
//! of all such traces from `State::Init`: teardown runs exactly once when the
//! database was created and never otherwise, no failure is lost, and what the
//! test body failed with reaches the caller untouched.

use vstd::prelude::*;
use crate::lifecycle::{command, Command, Event, State};
use crate::outcome::{ExecutionOutcome, HarnessError, Pending, TestOutcome};
use crate::statement::{create_statement_text, drop_statement_text, scoped_connection_text};

verus! {

/// The state that the events lead to, taken in order from `state`.
pub open spec fn run<T, P, E>(state: State<T, P, E>, events: Seq<Event<T, P, E>>) -> State<
    T,
    P,
    E,
>
    decreases events.len(),
{
    if events.len() == 0 {
        state
    } else {
        run(state, events.drop_last()).next(events.last())
    }
}

/// The state of an invocation after its first `i` events: the one in which
/// event `i` arrives.
pub open spec fn state_at<T, P, E>(events: Seq<Event<T, P, E>>, i: int) -> State<T, P, E> {
    run(State::Init, events.take(i))
}

/// The state of an invocation after all its events.
pub open spec fn final_state<T, P, E>(events: Seq<Event<T, P, E>>) -> State<T, P, E> {
    state_at(events, events.len() as int)
}

/// Every event answers the action that was pending when it arrived.
pub open spec fn valid_trace<T, P, E>(events: Seq<Event<T, P, E>>) -> bool {
    forall|i: int| 0 <= i < events.len() ==> (#[trigger] state_at(events, i)).accepts(events[i])
}

/// The action that event `i` answers, for the server `base` and the database
/// `name`.
pub open spec fn issued<T, P, E>(
    events: Seq<Event<T, P, E>>,
    base: Seq<char>,
    name: Seq<char>,
    i: int,
) -> Command {
    command(state_at(events, i), base, name)
}

/// Event `i` reports that the database was created.
pub open spec fn created_at<T, P, E>(events: Seq<Event<T, P, E>>, i: int) -> bool {
    &&& 0 <= i < events.len()
    &&& state_at(events, i) is ControlConnected
    &&& events[i] is Completed
}

/// The database was created at some point of the invocation.
pub open spec fn created<T, P, E>(events: Seq<Event<T, P, E>>) -> bool {
    exists|i: int| created_at(events, i)
}

/// Event `i` answers the teardown: it arrives while something is captured
/// and waits for the database to be dropped.
pub open spec fn teardown_at<T, P, E>(events: Seq<Event<T, P, E>>, i: int) -> bool {
    &&& 0 <= i < events.len()
    &&& state_at(events, i).captured() is Some
}

/// The databases on the server after the first `i` actions of an invocation,
/// on a server where a statement that completed took effect and one that
/// failed changed nothing.
pub open spec fn databases_after<T, P, E>(
    before: Set<Seq<char>>,
    name: Seq<char>,
    events: Seq<Event<T, P, E>>,
    i: int,
) -> Set<Seq<char>>
    decreases i,
{
    if i <= 0 {
        before
    } else {
        let earlier = databases_after(before, name, events, i - 1);
        if !(events[i - 1] is Completed) {
            earlier
        } else if state_at(events, i - 1) is ControlConnected {
            earlier.insert(name)
        } else if teardown_at(events, i - 1) {
            earlier.remove(name)
        } else {
            earlier
        }
    }
}

/// The number of events that lead to a state.
spec fn stage<T, P, E>(state: State<T, P, E>) -> int {
    match state {
        State::Init => 0,
        State::ControlConnected => 1,
        State::ControlConnectFailed(_) => 1,
        State::DatabaseCreated => 2,
        State::CreationFailed(_) => 2,
        State::ScopedConnected => 3,
        State::ScopedConnectFailed(_) => 3,
        State::Migrated => 4,
        State::MigrationFailed(_) => 4,
        State::BodyExecuted(_) => 5,
        State::DatabaseDropped(Err(Pending::Connect(_))) => 4,
        State::DatabaseDropped(Err(Pending::Migration(_))) => 5,
        State::DatabaseDropped(_) => 6,
        State::TeardownFailed { pending: Some(Pending::Connect(_)), .. } => 4,
        State::TeardownFailed { pending: Some(Pending::Migration(_)), .. } => 5,
        State::TeardownFailed { .. } => 6,
    }
}

proof fn lemma_state_at_start<T, P, E>(events: Seq<Event<T, P, E>>)
    ensures
        state_at(events, 0) == State::<T, P, E>::Init,
{
    assert(events.take(0).len() == 0);
}

proof fn lemma_state_at_next<T, P, E>(events: Seq<Event<T, P, E>>, i: int)
    requires
        0 <= i < events.len(),
    ensures
        state_at(events, i + 1) == state_at(events, i).next(events[i]),
{
    let prefix = events.take(i + 1);
    assert(prefix.drop_last() =~= events.take(i));
    assert(prefix.last() == events[i]);
}

/// An accepted event moves the clock by one.
proof fn lemma_stage_advances<T, P, E>(state: State<T, P, E>, event: Event<T, P, E>)
    requires
        state.accepts(event),
    ensures
        stage(state.next(event)) == stage(state) + 1,
        !state.settled(),
{
}

/// In a valid trace the state after `i` events is at stage `i`.
proof fn lemma_stage_counts<T, P, E>(events: Seq<Event<T, P, E>>, i: int)
    requires
        valid_trace(events),
        0 <= i <= events.len(),
    ensures
        stage(state_at(events, i)) == i,
    decreases i,
{
    if i == 0 {
        lemma_state_at_start(events);
    } else {
        lemma_stage_counts(events, i - 1);
        lemma_state_at_next(events, i - 1);
        lemma_stage_advances(state_at(events, i - 1), events[i - 1]);
    }
}

/// Unfolds a valid trace: its states follow from one another, each stands at
/// the stage of its index, and none before the last is settled.
proof fn lemma_unfold<T, P, E>(events: Seq<Event<T, P, E>>)
    requires
        valid_trace(events),
    ensures
        events.len() <= 6,
        state_at(events, 0) == State::<T, P, E>::Init,
        forall|i: int|
            0 <= i < events.len() ==> (#[trigger] state_at(events, i)).accepts(events[i])
                && state_at(events, i + 1) == state_at(events, i).next(events[i]),
        forall|i: int| 0 <= i <= events.len() ==> stage(#[trigger] state_at(events, i)) == i,
{
    lemma_state_at_start(events);
    assert forall|i: int| 0 <= i < events.len() implies (#[trigger] state_at(
        events,
        i,
    )).accepts(events[i]) && state_at(events, i + 1) == state_at(events, i).next(events[i]) by {
        lemma_state_at_next(events, i);
    }
    assert forall|i: int| 0 <= i <= events.len() implies stage(#[trigger] state_at(events, i))
        == i by {
        lemma_stage_counts(events, i);
    }
    lemma_stage_counts(events, events.len() as int);
}

/// An invocation is over after six answers at most, and until it is settled
/// there is always something to do next.
pub proof fn lemma_invocation_ends<T, P, E>(
    events: Seq<Event<T, P, E>>,
    base: Seq<char>,
    name: Seq<char>,
)
    requires
        valid_trace(events),
    ensures
        events.len() <= 6,
        final_state(events).settled() <==> command(final_state(events), base, name) is Surface,
        events.len() == 6 ==> final_state(events).settled(),
{
    lemma_unfold(events);
    if events.len() == 6 {
        lemma_final_of_six(events);
    }
}

proof fn lemma_final_of_six<T, P, E>(events: Seq<Event<T, P, E>>)
    requires
        valid_trace(events),
        events.len() == 6,
    ensures
        final_state(events).settled(),
{
    lemma_unfold(events);
    let s5 = state_at(events, 5);
    assert(state_at(events, 6) == s5.next(events[5]));
    assert(s5.accepts(events[5]));
    assert(stage(s5) == 5);
}

/// The actions come in one order. The control connection is opened first and
/// the database created second. The scoped connection is opened only once the
/// database exists, migrations run only through an open scoped connection,
/// and the body runs only after the migrations have been applied. Teardown
/// begins only after all of that is over: when the body ran, after its
/// outcome was captured.
pub proof fn lemma_order_of_actions<T, P, E>(
    events: Seq<Event<T, P, E>>,
    base: Seq<char>,
    name: Seq<char>,
    i: int,
)
    requires
        valid_trace(events),
        0 <= i < events.len(),
    ensures
        issued(events, base, name, i) is ConnectControl <==> i == 0,
        issued(events, base, name, i) is CreateDatabase <==> i == 1,
        issued(events, base, name, i) is ConnectScoped <==> i == 2,
        issued(events, base, name, i) is ConnectScoped ==> created_at(events, 1),
        issued(events, base, name, i) is DropDatabase <==> teardown_at(events, i),
        created_at(events, i) ==> i == 1,
        issued(events, base, name, i) is ApplyMigrations ==> i == 3 && events[2] is Completed,
        issued(events, base, name, i) is RunBody ==> i == 4 && events[3] is Completed,
        issued(events, base, name, i) is RunBody ==> events[i] is BodyFinished,
        issued(events, base, name, i) is DropDatabase ==> i >= 3 && i == events.len() - 1,
        issued(events, base, name, i) is DropDatabase ==> forall|j: int|
            0 <= j < events.len() && issued(events, base, name, j) is RunBody ==> j < i,
        !(issued(events, base, name, i) is Surface),
{
    lemma_unfold(events);
    let s = state_at(events, i);
    assert(s.accepts(events[i]));
    assert(stage(s) == i);
    if i >= 1 {
        assert(state_at(events, i) == state_at(events, i - 1).next(events[i - 1]));
        assert(state_at(events, i - 1).accepts(events[i - 1]));
        assert(stage(state_at(events, i - 1)) == i - 1);
    }
    if i >= 2 {
        assert(state_at(events, i - 1) == state_at(events, i - 2).next(events[i - 2]));
        assert(state_at(events, i - 2).accepts(events[i - 2]));
        assert(stage(state_at(events, i - 2)) == i - 2);
    }
    if issued(events, base, name, i) is DropDatabase {
        assert(state_at(events, i + 1) == s.next(events[i]));
        assert(state_at(events, i + 1).settled());
        if i + 1 < events.len() {
            assert(state_at(events, i + 1).accepts(events[i + 1]));
        }
        assert forall|j: int|
            0 <= j < events.len() && issued(events, base, name, j) is RunBody implies j < i by {
            assert(stage(state_at(events, j)) == j);
        }
    }
}

/// The texts that go to the server speak of one database throughout: the one
/// that is created is the one that is connected to and the one that is
/// dropped.
pub proof fn lemma_one_database<T, P, E>(
    events: Seq<Event<T, P, E>>,
    base: Seq<char>,
    name: Seq<char>,
    i: int,
)
    requires
        valid_trace(events),
        0 <= i < events.len(),
    ensures
        i == 0 ==> issued(events, base, name, i) == (Command::ConnectControl {
            connection_string: base,
        }),
        i == 1 ==> issued(events, base, name, i) == (Command::CreateDatabase {
            statement: create_statement_text(name),
        }),
        i == 2 ==> issued(events, base, name, i) == (Command::ConnectScoped {
            connection_string: scoped_connection_text(base, name),
        }),
        issued(events, base, name, i) is DropDatabase ==> issued(events, base, name, i) == (
        Command::DropDatabase { statement: drop_statement_text(name) }),
{
    lemma_order_of_actions(events, base, name, i);
}

/// The control connection outlives the scoped connection. In an invocation
/// that is over, whatever is done through the scoped connection (opening it,
/// the migrations, the test body) comes after the control connection was
/// opened and before the teardown, which is the last action and goes through
/// the control connection.
pub proof fn lemma_control_outlives_scoped<T, P, E>(
    events: Seq<Event<T, P, E>>,
    base: Seq<char>,
    name: Seq<char>,
    i: int,
)
    requires
        valid_trace(events),
        final_state(events).settled(),
        0 <= i < events.len(),
        issued(events, base, name, i) is ConnectScoped || issued(
            events,
            base,
            name,
            i,
        ) is ApplyMigrations || issued(events, base, name, i) is RunBody,
    ensures
        issued(events, base, name, 0) is ConnectControl,
        events[0] is Completed,
        0 < i < events.len() - 1,
        issued(events, base, name, events.len() - 1) is DropDatabase,
{
    lemma_unfold(events);
    lemma_order_of_actions(events, base, name, i);
    lemma_order_of_actions(events, base, name, 0);
    let n = events.len() as int;
    assert(state_at(events, 0).accepts(events[0]));
    assert(state_at(events, 1) == state_at(events, 0).next(events[0]));
    assert(stage(state_at(events, 1)) == 1);
    assert(stage(state_at(events, n)) == n);
    assert(state_at(events, i).accepts(events[i]));
    assert(state_at(events, i + 1) == state_at(events, i).next(events[i]));
    let last = state_at(events, n - 1);
    assert(last.accepts(events[n - 1]));
    assert(state_at(events, n) == last.next(events[n - 1]));
    assert(stage(last) == n - 1);
}

/// Only the second answer can report the creation.
proof fn lemma_created_second<T, P, E>(events: Seq<Event<T, P, E>>)
    requires
        valid_trace(events),
    ensures
        created(events) <==> created_at(events, 1),
        forall|j: int| created_at(events, j) ==> j == 1,
{
    lemma_unfold(events);
    assert forall|j: int| created_at(events, j) implies j == 1 by {
        assert(stage(state_at(events, j)) == j);
    }
}

/// Once the database exists, no step skips its teardown. From a state that
/// owes the teardown, every later state of the invocation owes it still or
/// has it behind: the invocation cannot be over in between.
pub proof fn lemma_teardown_is_never_skipped<T, P, E>(events: Seq<Event<T, P, E>>, i: int, j: int)
    requires
        valid_trace(events),
        0 <= i <= j <= events.len(),
        state_at(events, i).owes_teardown(),
    ensures
        state_at(events, j).owes_teardown() || state_at(events, j) is DatabaseDropped || state_at(
            events,
            j,
        ) is TeardownFailed,
        state_at(events, j).settled() ==> j == events.len() && teardown_at(events, j - 1),
    decreases j - i,
{
    lemma_unfold(events);
    if i < j {
        lemma_teardown_is_never_skipped(events, i, j - 1);
        let earlier = state_at(events, j - 1);
        assert(earlier.accepts(events[j - 1]));
        assert(state_at(events, j) == earlier.next(events[j - 1]));
        if j < events.len() {
            assert(state_at(events, j).accepts(events[j]));
        }
    }
}

/// Teardown runs exactly once for a database that was created: in an
/// invocation that is over and in which `CREATE DATABASE` completed, the last
/// action is the one `DROP DATABASE` of that invocation, and the invocation
/// ends in `DatabaseDropped` if the drop completed and in `TeardownFailed` if
/// it did not.
pub proof fn lemma_teardown_exactly_once<T, P, E>(
    events: Seq<Event<T, P, E>>,
    base: Seq<char>,
    name: Seq<char>,
)
    requires
        valid_trace(events),
        final_state(events).settled(),
        created(events),
    ensures
        events.len() >= 4,
        issued(events, base, name, events.len() - 1) == (Command::DropDatabase {
            statement: drop_statement_text(name),
        }),
        forall|j: int|
            0 <= j < events.len() && issued(events, base, name, j) is DropDatabase ==> j
                == events.len() - 1,
        events.last() is Completed <==> final_state(events) is DatabaseDropped,
        events.last() is Failed <==> final_state(events) is TeardownFailed,
{
    lemma_unfold(events);
    lemma_created_second(events);
    let n = events.len() as int;
    assert(state_at(events, 2) == state_at(events, 1).next(events[1]));
    assert(stage(state_at(events, n)) == n);
    assert(n >= 3) by {
        if n == 2 {
            assert(state_at(events, 2) is DatabaseCreated);
        }
    }
    let last = state_at(events, n - 1);
    assert(state_at(events, n) == last.next(events[n - 1]));
    assert(last.accepts(events[n - 1]));
    assert(stage(last) == n - 1);
    assert(n >= 4) by {
        if n == 3 {
            assert(state_at(events, 2) == state_at(events, 1).next(events[1]));
        }
    }
    assert forall|j: int|
        0 <= j < events.len() && issued(events, base, name, j) is DropDatabase implies j == n
        - 1 by {
        lemma_order_of_actions(events, base, name, j);
    }
}

/// Nothing is torn down that was not created: the teardown is issued only in
/// an invocation whose `CREATE DATABASE` completed.
pub proof fn lemma_no_teardown_without_creation<T, P, E>(
    events: Seq<Event<T, P, E>>,
    base: Seq<char>,
    name: Seq<char>,
    i: int,
)
    requires
        valid_trace(events),
        0 <= i < events.len(),
        issued(events, base, name, i) is DropDatabase,
    ensures
        created(events),
        forall|j: int| created_at(events, j) ==> j < i,
{
    lemma_created_second(events);
    lemma_unfold(events);
    lemma_order_of_actions(events, base, name, i);
    assert(state_at(events, 2) == state_at(events, 1).next(events[1]));
    assert(state_at(events, 3) == state_at(events, 2).next(events[2]));
    assert(state_at(events, 1).accepts(events[1]));
    assert(stage(state_at(events, 1)) == 1);
    assert(stage(state_at(events, 2)) == 2);
    assert(stage(state_at(events, 3)) == 3);
}

/// Where the control connection cannot be opened the invocation is over at
/// once: it raises the connection error, and neither `CREATE DATABASE` nor
/// `DROP DATABASE` is ever issued.
pub proof fn lemma_connect_failure_issues_nothing<T, P, E>(
    events: Seq<Event<T, P, E>>,
    base: Seq<char>,
    name: Seq<char>,
    error: E,
)
    requires
        valid_trace(events),
        events.len() > 0,
        events[0] == Event::<T, P, E>::Failed(error),
    ensures
        events.len() == 1,
        final_state(events).outcome() == Some(
            TestOutcome::<T, P, E>::Reraised(HarnessError::Connect(error)),
        ),
        forall|i: int|
            0 <= i < events.len() ==> !(issued(events, base, name, i) is CreateDatabase) && !(
            issued(events, base, name, i) is DropDatabase),
{
    lemma_unfold(events);
    assert(state_at(events, 1) == state_at(events, 0).next(events[0]));
    if events.len() > 1 {
        assert(state_at(events, 1).accepts(events[1]));
    }
}

/// Where `CREATE DATABASE` fails the invocation is over at once: it raises
/// the creation error, and no `DROP DATABASE` is issued.
pub proof fn lemma_creation_failure_issues_no_teardown<T, P, E>(
    events: Seq<Event<T, P, E>>,
    base: Seq<char>,
    name: Seq<char>,
    error: E,
)
    requires
        valid_trace(events),
        events.len() > 1,
        events[1] == Event::<T, P, E>::Failed(error),
    ensures
        events.len() == 2,
        final_state(events).outcome() == Some(
            TestOutcome::<T, P, E>::Reraised(HarnessError::DatabaseCreation(error)),
        ),
        forall|i: int|
            0 <= i < events.len() ==> !(issued(events, base, name, i) is DropDatabase),
{
    lemma_unfold(events);
    assert(state_at(events, 1) == state_at(events, 0).next(events[0]));
    assert(state_at(events, 2) == state_at(events, 1).next(events[1]));
    assert(state_at(events, 0).accepts(events[0]));
    assert(state_at(events, 1).accepts(events[1]));
    assert(stage(state_at(events, 1)) == 1);
    if events.len() > 2 {
        assert(state_at(events, 2).accepts(events[2]));
    }
}

/// What the test body failed with reaches the caller as it was. In an
/// invocation that is over and whose body failed with `payload`, the teardown
/// was issued after the body, and the outcome raises exactly `payload`: alone
/// where the drop completed, beside the teardown error where it failed.
pub proof fn lemma_failure_fidelity<T, P, E>(
    events: Seq<Event<T, P, E>>,
    base: Seq<char>,
    name: Seq<char>,
    i: int,
    payload: P,
)
    requires
        valid_trace(events),
        final_state(events).settled(),
        0 <= i < events.len(),
        events[i] == Event::<T, P, E>::BodyFinished(ExecutionOutcome::Failure(payload)),
    ensures
        i == 4 && events.len() == 6,
        issued(events, base, name, 5) is DropDatabase,
        events[5] is Completed ==> final_state(events).outcome() == Some(
            TestOutcome::<T, P, E>::Reraised(HarnessError::TestBody(payload)),
        ),
        events[5] matches Event::Failed(error) ==> final_state(events).outcome() == Some(
            TestOutcome::<T, P, E>::Reraised(
                HarnessError::DatabaseTeardown {
                    error,
                    pending: Some(Pending::TestBody(payload)),
                },
            ),
        ),
        (final_state(events).outcome() matches Some(TestOutcome::Reraised(raised))
            && raised.body_payload() == Some(payload)),
{
    lemma_body_outcome_waits(events, i);
}

/// What the test body returned reaches the caller as it was, unless the
/// teardown failed: then the teardown error is raised, with nothing pending.
pub proof fn lemma_success_returned<T, P, E>(
    events: Seq<Event<T, P, E>>,
    base: Seq<char>,
    name: Seq<char>,
    i: int,
    value: T,
)
    requires
        valid_trace(events),
        final_state(events).settled(),
        0 <= i < events.len(),
        events[i] == Event::<T, P, E>::BodyFinished(ExecutionOutcome::Success(value)),
    ensures
        i == 4 && events.len() == 6,
        issued(events, base, name, 5) is DropDatabase,
        events[5] is Completed ==> final_state(events).outcome() == Some(
            TestOutcome::<T, P, E>::Returned(value),
        ),
        events[5] matches Event::Failed(error) ==> final_state(events).outcome() == Some(
            TestOutcome::<T, P, E>::Reraised(
                HarnessError::DatabaseTeardown { error, pending: None },
            ),
        ),
{
    lemma_body_outcome_waits(events, i);
}

/// The body's outcome is captured at the fifth answer and kept through the
/// teardown, which the sixth answers.
proof fn lemma_body_outcome_waits<T, P, E>(events: Seq<Event<T, P, E>>, i: int)
    requires
        valid_trace(events),
        final_state(events).settled(),
        0 <= i < events.len(),
        events[i] is BodyFinished,
    ensures
        i == 4,
        events.len() == 6,
        state_at(events, 5) == State::<T, P, E>::BodyExecuted(events[4]->BodyFinished_0),
        final_state(events) == state_at(events, 5).next(events[5]),
        events[5] is Completed || events[5] is Failed,
{
    lemma_unfold(events);
    let n = events.len() as int;
    assert(state_at(events, i).accepts(events[i]));
    assert(stage(state_at(events, i)) == i);
    assert(state_at(events, i + 1) == state_at(events, i).next(events[i]));
    assert(state_at(events, 5) is BodyExecuted);
    assert(n >= 6);
    assert(state_at(events, 6) == state_at(events, 5).next(events[5]));
    assert(state_at(events, 5).accepts(events[5]));
}

/// No failure is lost. In an invocation that is over, every error that the
/// driver or the migration engine reported is part of what is raised. An
/// error before the database exists is raised as it is. An error of the
/// scoped connection or of a migration is raised after the teardown, alone
/// where the drop completed and beside the teardown error where it failed. An
/// error of the teardown itself is always raised.
pub proof fn lemma_no_failure_is_lost<T, P, E>(
    events: Seq<Event<T, P, E>>,
    base: Seq<char>,
    name: Seq<char>,
    i: int,
    error: E,
)
    requires
        valid_trace(events),
        final_state(events).settled(),
        0 <= i < events.len(),
        events[i] == Event::<T, P, E>::Failed(error),
    ensures
        (final_state(events).outcome() matches Some(TestOutcome::Reraised(raised))
            && raised.reports(error)),
        issued(events, base, name, i) is ConnectControl ==> final_state(events).outcome() == Some(
            TestOutcome::<T, P, E>::Reraised(HarnessError::Connect(error)),
        ),
        issued(events, base, name, i) is CreateDatabase ==> final_state(events).outcome() == Some(
            TestOutcome::<T, P, E>::Reraised(HarnessError::DatabaseCreation(error)),
        ),
        issued(events, base, name, i) is ConnectScoped ==> events.len() == i + 2 && issued(
            events,
            base,
            name,
            i + 1,
        ) is DropDatabase && final_state(events).outcome() == Some(
            TestOutcome::<T, P, E>::Reraised(
                match events[i + 1] {
                    Event::Failed(teardown) => HarnessError::DatabaseTeardown {
                        error: teardown,
                        pending: Some(Pending::Connect(error)),
                    },
                    _ => HarnessError::Connect(error),
                },
            ),
        ),
        issued(events, base, name, i) is ApplyMigrations ==> events.len() == i + 2 && issued(
            events,
            base,
            name,
            i + 1,
        ) is DropDatabase && final_state(events).outcome() == Some(
            TestOutcome::<T, P, E>::Reraised(
                match events[i + 1] {
                    Event::Failed(teardown) => HarnessError::DatabaseTeardown {
                        error: teardown,
                        pending: Some(Pending::Migration(error)),
                    },
                    _ => HarnessError::Migration(error),
                },
            ),
        ),
        issued(events, base, name, i) is DropDatabase ==> final_state(events).outcome() == Some(
            TestOutcome::<T, P, E>::Reraised(
                HarnessError::DatabaseTeardown {
                    error,
                    pending: match state_at(events, i).captured() {
                        Some(Err(failure)) => Some(failure),
                        _ => None,
                    },
                },
            ),
        ),
{
    lemma_unfold(events);
    let n = events.len() as int;
    let s = state_at(events, i);
    assert(s.accepts(events[i]));
    assert(stage(s) == i);
    assert(state_at(events, i + 1) == s.next(events[i]));
    assert(stage(state_at(events, i + 1)) == i + 1);
    if i + 1 < n {
        let t = state_at(events, i + 1);
        assert(t.accepts(events[i + 1]));
        assert(state_at(events, i + 2) == t.next(events[i + 1]));
        assert(state_at(events, i + 2).settled());
        if i + 2 < n {
            assert(state_at(events, i + 2).accepts(events[i + 2]));
        }
    }
}

/// An invocation returns normally only when nothing failed: its body
/// returned the value, every other answer was a completion, and the database
/// was dropped.
pub proof fn lemma_returned_means_clean<T, P, E>(events: Seq<Event<T, P, E>>, value: T)
    requires
        valid_trace(events),
        final_state(events).outcome() == Some(TestOutcome::<T, P, E>::Returned(value)),
    ensures
        events.len() == 6,
        events[4] == Event::<T, P, E>::BodyFinished(ExecutionOutcome::Success(value)),
        forall|i: int| 0 <= i < 6 && i != 4 ==> events[i] is Completed,
        final_state(events) is DatabaseDropped,
{
    lemma_unfold(events);
    let n = events.len() as int;
    assert(stage(state_at(events, n)) == n);
    assert(n == 6);
    assert(state_at(events, 1) == state_at(events, 0).next(events[0]));
    assert(state_at(events, 2) == state_at(events, 1).next(events[1]));
    assert(state_at(events, 3) == state_at(events, 2).next(events[2]));
    assert(state_at(events, 4) == state_at(events, 3).next(events[3]));
    assert(state_at(events, 5) == state_at(events, 4).next(events[4]));
    assert(state_at(events, 6) == state_at(events, 5).next(events[5]));
    assert(state_at(events, 0).accepts(events[0]));
    assert(state_at(events, 1).accepts(events[1]));
    assert(state_at(events, 2).accepts(events[2]));
    assert(state_at(events, 3).accepts(events[3]));
    assert(state_at(events, 4).accepts(events[4]));
    assert(state_at(events, 5).accepts(events[5]));
    assert(stage(state_at(events, 1)) == 1);
    assert(stage(state_at(events, 2)) == 2);
    assert(stage(state_at(events, 3)) == 3);
    assert(stage(state_at(events, 4)) == 4);
    assert(stage(state_at(events, 5)) == 5);
}

/// The database of an invocation does not outlive it. Once the invocation is
/// over, on a server where a completed statement took effect, the database
/// `name` is gone if the invocation created it, whatever the test body did,
/// unless the invocation ends in `TeardownFailed`, and then the outcome says
/// so. An invocation that created nothing leaves the server as it found it.
pub proof fn lemma_cleanup<T, P, E>(
    before: Set<Seq<char>>,
    name: Seq<char>,
    events: Seq<Event<T, P, E>>,
)
    requires
        valid_trace(events),
        final_state(events).settled(),
    ensures
        created(events) && !(final_state(events) is TeardownFailed) ==> !databases_after(
            before,
            name,
            events,
            events.len() as int,
        ).contains(name),
        !created(events) ==> databases_after(before, name, events, events.len() as int)
            == before,
        final_state(events) is TeardownFailed <==> (final_state(events).outcome() matches Some(
            TestOutcome::Reraised(raised),
        ) && raised is DatabaseTeardown),
        forall|other: Seq<char>|
            other != name ==> (databases_after(
                before,
                name,
                events,
                events.len() as int,
            ).contains(other) <==> before.contains(other)),
{
    lemma_unfold(events);
    lemma_created_second(events);
    let empty = Seq::<char>::empty();
    let n = events.len() as int;
    assert(stage(state_at(events, n)) == n);
    assert(n >= 1);
    assert forall|i: int| 0 <= i < n implies (state_at(events, i) is ControlConnected <==> i
        == 1) && (teardown_at(events, i) ==> i == n - 1 && i >= 3 && created_at(events, 1)) by {
        lemma_order_of_actions(events, empty, empty, i);
        if teardown_at(events, i) {
            lemma_no_teardown_without_creation(events, empty, empty, i);
        }
    }
    reveal_with_fuel(databases_after, 7);
    let d = |i: int| databases_after(before, name, events, i);
    assert(d(0) == before);
    assert(d(1) == before);
    if n >= 2 {
        if created_at(events, 1) {
            lemma_teardown_exactly_once(events, empty, empty);
            assert(teardown_at(events, n - 1));
            assert(d(2) == before.insert(name));
            assert forall|i: int| 2 <= i < n implies #[trigger] d(i) == before.insert(name) by {
                lemma_databases_steady(before, name, events, 2, i);
            }
            assert(d(n - 1) == before.insert(name));
            if events.last() is Completed {
                assert(d(n) == before.insert(name).remove(name));
            } else {
                assert(final_state(events) is TeardownFailed);
                assert(d(n) == before.insert(name));
            }
        } else {
            assert(n == 2) by {
                assert(state_at(events, 2) == state_at(events, 1).next(events[1]));
                assert(state_at(events, 1).accepts(events[1]));
                assert(stage(state_at(events, 1)) == 1);
                if n > 2 {
                    assert(state_at(events, 2).accepts(events[2]));
                }
            }
            assert(d(2) == before);
        }
    }
}

/// Between creation and teardown the server's databases do not change.
proof fn lemma_databases_steady<T, P, E>(
    before: Set<Seq<char>>,
    name: Seq<char>,
    events: Seq<Event<T, P, E>>,
    from: int,
    to: int,
)
    requires
        2 <= from <= to,
        forall|i: int|
            from <= i < to ==> !(#[trigger] state_at(events, i) is ControlConnected)
                && !teardown_at(events, i),
    ensures
        databases_after(before, name, events, to) == databases_after(before, name, events, from),
    decreases to - from,
{
    if from < to {
        lemma_databases_steady(before, name, events, from, to - 1);
    }
}

} // verus!
