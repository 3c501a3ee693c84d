use glow_plug::lifecycle::{Action, Event, Lifecycle, State};
use glow_plug::name::{is_identifier, test_db_name};
use glow_plug::outcome::{ExecutionOutcome, HarnessError, Pending, TestOutcome};

const BASE: &str = "postgres://tester@localhost";

/// A database of the stand-in server: its name and its tables with their
/// row counts.
struct Database {
    name: String,
    tables: Vec<(String, u32)>,
}

/// A stand-in for a database server. It keeps what it was asked.
struct Server {
    reachable: bool,
    refuses_scoped: bool,
    refuses_drop: bool,
    databases: Vec<Database>,
    connections: Vec<String>,
    statements: Vec<String>,
}

fn server() -> Server {
    Server {
        reachable: true,
        refuses_scoped: false,
        refuses_drop: false,
        databases: Vec::new(),
        connections: Vec::new(),
        statements: Vec::new(),
    }
}

impl Server {
    fn has(&self, name: &str) -> bool {
        self.databases.iter().any(|d| d.name == name)
    }

    fn connect(&mut self, connection_string: &str) -> Result<Option<String>, String> {
        self.connections.push(connection_string.to_string());
        if !self.reachable {
            return Err("server unreachable".to_string());
        }
        if connection_string == BASE {
            return Ok(None);
        }
        let name = match connection_string.strip_prefix(BASE).and_then(|r| r.strip_prefix("/")) {
            Some(name) => name,
            None => return Err("unknown server".to_string()),
        };
        if self.refuses_scoped || !self.has(name) {
            return Err(format!("database {} does not exist", name));
        }
        Ok(Some(name.to_string()))
    }

    fn execute(&mut self, statement: &str) -> Result<(), String> {
        self.statements.push(statement.to_string());
        let body = match statement.strip_suffix(";") {
            Some(body) => body,
            None => return Err("syntax error".to_string()),
        };
        if let Some(name) = body.strip_prefix("CREATE DATABASE ") {
            if !is_identifier(name) {
                return Err("syntax error".to_string());
            }
            if self.has(name) {
                return Err(format!("database {} already exists", name));
            }
            self.databases.push(Database { name: name.to_string(), tables: Vec::new() });
            return Ok(());
        }
        if let Some(name) = body.strip_prefix("DROP DATABASE ") {
            if self.refuses_drop {
                return Err(format!("database {} is being accessed", name));
            }
            if !self.has(name) {
                return Err(format!("database {} does not exist", name));
            }
            self.databases.retain(|d| d.name != name);
            return Ok(());
        }
        Err("syntax error".to_string())
    }

    fn table(&mut self, database: &str, table: &str) -> Option<&mut (String, u32)> {
        let database = self.databases.iter_mut().find(|d| d.name == database)?;
        database.tables.iter_mut().find(|t| t.0 == table)
    }

    /// Creates each table of the set that is not there yet. A table called
    /// `broken` cannot be created.
    fn apply_pending(&mut self, database: &str, migrations: &[&str]) -> Result<(), String> {
        for table in migrations {
            if *table == "broken" {
                return Err("migration broken failed".to_string());
            }
            if self.table(database, table).is_none() {
                match self.databases.iter_mut().find(|d| d.name == database) {
                    Some(d) => d.tables.push((table.to_string(), 0)),
                    None => return Err("no such database".to_string()),
                }
            }
        }
        Ok(())
    }

    fn insert(&mut self, database: &str, table: &str) -> Result<(), String> {
        match self.table(database, table) {
            Some(t) => {
                t.1 += 1;
                Ok(())
            }
            None => Err(format!("relation {} does not exist", table)),
        }
    }

    fn count(&mut self, database: &str, table: &str) -> Result<u32, String> {
        match self.table(database, table) {
            Some(t) => Ok(t.1),
            None => Err(format!("relation {} does not exist", table)),
        }
    }
}

/// Performs one action on the stand-in server and says what happened.
fn perform<T>(
    server: &mut Server,
    action: Action,
    scoped: &mut Option<String>,
    migrations: &[&str],
    body: &mut Option<Box<dyn FnOnce(&mut Server, &str) -> Result<T, String>>>,
) -> Option<Event<T, String, String>> {
    let event = match action {
        Action::ConnectControl { connection_string } => match server.connect(&connection_string) {
            Ok(_) => Event::Completed,
            Err(e) => Event::Failed(e),
        },
        Action::CreateDatabase { statement } => match server.execute(&statement) {
            Ok(()) => Event::Completed,
            Err(e) => Event::Failed(e),
        },
        Action::ConnectScoped { connection_string } => match server.connect(&connection_string) {
            Ok(database) => {
                *scoped = database;
                Event::Completed
            }
            Err(e) => Event::Failed(e),
        },
        Action::ApplyMigrations => {
            let database = scoped.clone().unwrap();
            match server.apply_pending(&database, migrations) {
                Ok(()) => Event::Completed,
                Err(e) => Event::Failed(e),
            }
        }
        Action::RunBody => {
            let database = scoped.take().unwrap();
            let body = body.take().unwrap();
            Event::BodyFinished(ExecutionOutcome::capture(body(server, &database)))
        }
        Action::DropDatabase { statement } => {
            *scoped = None;
            match server.execute(&statement) {
                Ok(()) => Event::Completed,
                Err(e) => Event::Failed(e),
            }
        }
        Action::Surface => return None,
    };
    Some(event)
}

/// Runs one invocation to its end on the stand-in server.
fn drive<T: 'static>(
    server: &mut Server,
    lifecycle: Lifecycle<T, String, String>,
    migrations: &[&str],
    body: impl FnOnce(&mut Server, &str) -> Result<T, String> + 'static,
) -> TestOutcome<T, String, String> {
    let mut lifecycle = lifecycle;
    let mut scoped: Option<String> = None;
    let mut body: Option<Box<dyn FnOnce(&mut Server, &str) -> Result<T, String>>> =
        Some(Box::new(body));
    let mut answers = 0;
    while let Some(event) = perform(server, lifecycle.action(), &mut scoped, migrations, &mut body) {
        assert!(!lifecycle.is_settled());
        assert!(lifecycle.accepts(&event));
        lifecycle = lifecycle.step(event);
        answers += 1;
        assert!(answers <= 6);
    }
    assert!(lifecycle.is_settled());
    match lifecycle.conclude() {
        Ok(outcome) => outcome,
        Err(_) => panic!("a settled lifecycle has an outcome"),
    }
}

fn insert_one_and_count(server: &mut Server, database: &str) -> Result<u32, String> {
    server.insert(database, "users")?;
    server.count(database, "users")
}

fn fresh(name: &str) -> Lifecycle<u32, String, String> {
    Lifecycle::new(BASE, name)
}

#[test]
fn users_crud_returns_after_cleanup() {
    let mut server = server();
    let outcome = drive(&mut server, fresh("users_crud_42"), &["users"], |server, database| {
        assert_eq!(database, "users_crud_42");
        let count = insert_one_and_count(server, database)?;
        if count == 1 {
            Ok(count)
        } else {
            Err(format!("assertion failed: count == 1, got {}", count))
        }
    });
    assert_eq!(outcome, TestOutcome::Returned(1));
    assert!(!server.has("users_crud_42"));
    assert!(server.databases.is_empty());
    assert_eq!(
        server.statements,
        vec!["CREATE DATABASE users_crud_42;".to_string(), "DROP DATABASE users_crud_42;".to_string()]
    );
    assert_eq!(
        server.connections,
        vec![BASE.to_string(), "postgres://tester@localhost/users_crud_42".to_string()]
    );
}

#[test]
fn users_crud_with_random_suffix_returns_after_cleanup() {
    let mut server = server();
    let lifecycle: Lifecycle<u32, String, String> = Lifecycle::begin(BASE, "users_crud");
    let name = lifecycle.name().to_string();
    assert!(name.starts_with("users_crud_"));
    assert!(name["users_crud_".len()..].parse::<u32>().is_ok());
    assert_eq!(lifecycle.base(), BASE);
    assert_eq!(*lifecycle.state(), State::Init);
    let outcome = drive(&mut server, lifecycle, &["users"], insert_one_and_count);
    assert_eq!(outcome, TestOutcome::Returned(1));
    assert!(server.databases.is_empty());
    assert_eq!(server.statements, vec![format!("CREATE DATABASE {};", name), format!("DROP DATABASE {};", name)]);
}

#[test]
fn users_crud_failed_assertion_is_reraised_after_drop() {
    let mut server = server();
    let outcome = drive(&mut server, fresh("users_crud_42"), &["users"], |server, database| {
        let count = insert_one_and_count(server, database)?;
        if count == 2 {
            Ok(count)
        } else {
            Err("assertion failed: count == 2".to_string())
        }
    });
    assert_eq!(
        outcome,
        TestOutcome::Reraised(HarnessError::TestBody("assertion failed: count == 2".to_string()))
    );
    assert!(!server.has("users_crud_42"));
    assert_eq!(server.statements.last().unwrap(), "DROP DATABASE users_crud_42;");
    assert_eq!(server.statements.len(), 2);
}

#[test]
fn unreachable_server_issues_no_statement() {
    let mut server = server();
    server.reachable = false;
    let outcome = drive(&mut server, fresh("users_crud_42"), &["users"], insert_one_and_count);
    assert_eq!(
        outcome,
        TestOutcome::Reraised(HarnessError::Connect("server unreachable".to_string()))
    );
    assert!(server.statements.is_empty());
    assert_eq!(server.connections, vec![BASE.to_string()]);
}

#[test]
fn name_clash_fails_creation_and_drops_nothing() {
    let mut server = server();
    server.databases.push(Database { name: "users_crud_42".to_string(), tables: Vec::new() });
    let outcome = drive(&mut server, fresh("users_crud_42"), &["users"], insert_one_and_count);
    assert_eq!(
        outcome,
        TestOutcome::Reraised(HarnessError::DatabaseCreation(
            "database users_crud_42 already exists".to_string()
        ))
    );
    assert_eq!(server.statements, vec!["CREATE DATABASE users_crud_42;".to_string()]);
    assert_eq!(server.connections, vec![BASE.to_string()]);
    assert!(server.has("users_crud_42"));
}

#[test]
fn failed_scoped_connection_still_drops_the_database() {
    let mut server = server();
    server.refuses_scoped = true;
    let outcome = drive(&mut server, fresh("users_crud_42"), &["users"], insert_one_and_count);
    assert_eq!(
        outcome,
        TestOutcome::Reraised(HarnessError::Connect(
            "database users_crud_42 does not exist".to_string()
        ))
    );
    assert!(server.databases.is_empty());
    assert_eq!(
        server.statements,
        vec!["CREATE DATABASE users_crud_42;".to_string(), "DROP DATABASE users_crud_42;".to_string()]
    );
}

#[test]
fn failed_migration_still_drops_the_database_and_skips_the_body() {
    let mut server = server();
    let outcome = drive(&mut server, fresh("users_crud_42"), &["users", "broken"], |_, _| {
        panic!("the body does not run after a failed migration")
    });
    let expected: TestOutcome<u32, String, String> =
        TestOutcome::Reraised(HarnessError::Migration("migration broken failed".to_string()));
    assert_eq!(outcome, expected);
    assert!(server.databases.is_empty());
    assert_eq!(server.statements.len(), 2);
    assert_eq!(server.statements[1], "DROP DATABASE users_crud_42;");
}

#[test]
fn failed_teardown_is_raised_beside_the_body_failure() {
    let mut server = server();
    server.refuses_drop = true;
    let outcome = drive(&mut server, fresh("users_crud_42"), &["users"], |_, _| {
        Err::<u32, String>("boom".to_string())
    });
    assert_eq!(
        outcome,
        TestOutcome::Reraised(HarnessError::DatabaseTeardown {
            error: "database users_crud_42 is being accessed".to_string(),
            pending: Some(Pending::TestBody("boom".to_string())),
        })
    );
    assert_eq!(server.statements.len(), 2);
    assert!(server.has("users_crud_42"));
}

#[test]
fn failed_teardown_is_raised_after_a_passing_body() {
    let mut server = server();
    server.refuses_drop = true;
    let outcome = drive(&mut server, fresh("users_crud_42"), &["users"], insert_one_and_count);
    assert_eq!(
        outcome,
        TestOutcome::Reraised(HarnessError::DatabaseTeardown {
            error: "database users_crud_42 is being accessed".to_string(),
            pending: None,
        })
    );
}

#[test]
fn failed_teardown_is_raised_beside_the_migration_failure() {
    let mut server = server();
    server.refuses_drop = true;
    let outcome = drive(&mut server, fresh("users_crud_42"), &["broken"], insert_one_and_count);
    assert_eq!(
        outcome,
        TestOutcome::Reraised(HarnessError::DatabaseTeardown {
            error: "database users_crud_42 is being accessed".to_string(),
            pending: Some(Pending::Migration("migration broken failed".to_string())),
        })
    );
}

#[test]
fn failed_teardown_is_raised_beside_the_connection_failure() {
    let mut lifecycle: Lifecycle<u32, String, String> = fresh("users_crud_42");
    lifecycle = lifecycle.step(Event::Completed);
    lifecycle = lifecycle.step(Event::Completed);
    lifecycle = lifecycle.step(Event::Failed("refused".to_string()));
    assert_eq!(*lifecycle.state(), State::ScopedConnectFailed("refused".to_string()));
    assert_eq!(
        lifecycle.action(),
        Action::DropDatabase { statement: "DROP DATABASE users_crud_42;".to_string() }
    );
    lifecycle = lifecycle.step(Event::Failed("busy".to_string()));
    assert_eq!(
        lifecycle.conclude().ok(),
        Some(TestOutcome::Reraised(HarnessError::DatabaseTeardown {
            error: "busy".to_string(),
            pending: Some(Pending::Connect("refused".to_string())),
        }))
    );
}

#[test]
fn body_payload_reaches_the_caller_unchanged() {
    let payloads: Vec<Vec<u8>> = vec![vec![], vec![0], vec![1, 2, 3], vec![255; 40]];
    for payload in payloads {
        let mut lifecycle: Lifecycle<(), Vec<u8>, String> = Lifecycle::new(BASE, "t_1");
        for _ in 0..4 {
            lifecycle = lifecycle.step(Event::Completed);
        }
        lifecycle = lifecycle.step(Event::BodyFinished(ExecutionOutcome::Failure(payload.clone())));
        assert_eq!(*lifecycle.state(), State::BodyExecuted(ExecutionOutcome::Failure(payload.clone())));
        assert!(!lifecycle.is_settled());
        lifecycle = lifecycle.step(Event::Completed);
        assert_eq!(*lifecycle.state(), State::DatabaseDropped(Err(Pending::TestBody(payload.clone()))));
        assert_eq!(
            lifecycle.conclude().ok(),
            Some(TestOutcome::Reraised(HarnessError::TestBody(payload)))
        );
    }
}

#[test]
fn states_follow_one_another() {
    let mut lifecycle: Lifecycle<u8, String, String> = Lifecycle::new(BASE, "t_1");
    assert_eq!(*lifecycle.state(), State::Init);
    assert_eq!(lifecycle.action(), Action::ConnectControl { connection_string: BASE.to_string() });
    lifecycle = lifecycle.step(Event::Completed);
    assert_eq!(*lifecycle.state(), State::ControlConnected);
    assert_eq!(
        lifecycle.action(),
        Action::CreateDatabase { statement: "CREATE DATABASE t_1;".to_string() }
    );
    lifecycle = lifecycle.step(Event::Completed);
    assert_eq!(*lifecycle.state(), State::DatabaseCreated);
    assert_eq!(
        lifecycle.action(),
        Action::ConnectScoped { connection_string: "postgres://tester@localhost/t_1".to_string() }
    );
    lifecycle = lifecycle.step(Event::Completed);
    assert_eq!(*lifecycle.state(), State::ScopedConnected);
    assert_eq!(lifecycle.action(), Action::ApplyMigrations);
    lifecycle = lifecycle.step(Event::Completed);
    assert_eq!(*lifecycle.state(), State::Migrated);
    assert_eq!(lifecycle.action(), Action::RunBody);
    lifecycle = lifecycle.step(Event::BodyFinished(ExecutionOutcome::Success(9)));
    assert_eq!(*lifecycle.state(), State::BodyExecuted(ExecutionOutcome::Success(9)));
    assert_eq!(
        lifecycle.action(),
        Action::DropDatabase { statement: "DROP DATABASE t_1;".to_string() }
    );
    lifecycle = lifecycle.step(Event::Completed);
    assert_eq!(*lifecycle.state(), State::DatabaseDropped(Ok(9)));
    assert_eq!(lifecycle.action(), Action::Surface);
    assert!(lifecycle.is_settled());
    assert_eq!(lifecycle.conclude().ok(), Some(TestOutcome::Returned(9)));
}

#[test]
fn event_that_answers_nothing_changes_nothing() {
    let mut lifecycle: Lifecycle<u8, String, String> = Lifecycle::new(BASE, "t_1");
    let early = Event::BodyFinished(ExecutionOutcome::Success(1));
    assert!(!lifecycle.accepts(&early));
    lifecycle = lifecycle.step(early);
    assert_eq!(*lifecycle.state(), State::Init);
    for _ in 0..4 {
        lifecycle = lifecycle.step(Event::Completed);
    }
    assert_eq!(*lifecycle.state(), State::Migrated);
    assert!(!lifecycle.accepts(&Event::Completed));
    assert!(!lifecycle.accepts(&Event::Failed("x".to_string())));
    lifecycle = lifecycle.step(Event::Completed);
    lifecycle = lifecycle.step(Event::Failed("x".to_string()));
    assert_eq!(*lifecycle.state(), State::Migrated);
    lifecycle = lifecycle.step(Event::BodyFinished(ExecutionOutcome::Success(1)));
    lifecycle = lifecycle.step(Event::Completed);
    assert_eq!(*lifecycle.state(), State::DatabaseDropped(Ok(1)));
    assert!(!lifecycle.accepts(&Event::Completed));
    lifecycle = lifecycle.step(Event::Completed);
    lifecycle = lifecycle.step(Event::Failed("late".to_string()));
    lifecycle = lifecycle.step(Event::BodyFinished(ExecutionOutcome::Failure("late".to_string())));
    assert_eq!(*lifecycle.state(), State::DatabaseDropped(Ok(1)));
    assert_eq!(lifecycle.name(), "t_1");
    assert_eq!(lifecycle.base(), BASE);
}

#[test]
fn unsettled_lifecycle_has_no_outcome_yet() {
    let mut lifecycle: Lifecycle<u8, String, String> = Lifecycle::new(BASE, "t_1");
    lifecycle = lifecycle.step(Event::Completed);
    lifecycle = lifecycle.step(Event::Completed);
    let back = match lifecycle.conclude() {
        Ok(_) => panic!("the database is still to be dropped"),
        Err(back) => back,
    };
    assert_eq!(*back.state(), State::DatabaseCreated);
    assert_eq!(back.name(), "t_1");
    assert_eq!(back.base(), BASE);
}

#[test]
fn unsafe_name_is_sanitized_before_it_reaches_a_statement() {
    let mut server = server();
    server.databases.push(Database { name: "prod".to_string(), tables: Vec::new() });
    let lifecycle: Lifecycle<u32, String, String> =
        Lifecycle::new(BASE, "x; DROP DATABASE prod; --_7");
    assert_eq!(lifecycle.name(), "x__DROP_DATABASE_prod_____7");
    let outcome = drive(&mut server, lifecycle, &["users"], insert_one_and_count);
    assert_eq!(outcome, TestOutcome::Returned(1));
    assert_eq!(
        server.statements,
        vec![
            "CREATE DATABASE x__DROP_DATABASE_prod_____7;".to_string(),
            "DROP DATABASE x__DROP_DATABASE_prod_____7;".to_string()
        ]
    );
    assert!(server.has("prod"));
    assert_eq!(server.databases.len(), 1);
}

#[test]
fn sanitized_names_stay_distinct() {
    let mut names: Vec<String> = Vec::new();
    for suffix in 0..150u32 {
        let lifecycle: Lifecycle<(), String, String> =
            Lifecycle::new(BASE, &glow_plug::name::database_name("9 lives-ë", suffix));
        assert_eq!(lifecycle.name(), format!("_9_lives___{}", suffix));
        names.push(lifecycle.name().to_string());
    }
    for i in 0..names.len() {
        for j in 0..i {
            assert_ne!(names[i], names[j]);
        }
    }
}

#[test]
fn capture_reads_a_result() {
    let ok: ExecutionOutcome<u8, String> = ExecutionOutcome::capture(Ok(3));
    assert_eq!(ok, ExecutionOutcome::Success(3));
    let failed: ExecutionOutcome<u8, String> = ExecutionOutcome::capture(Err("no".to_string()));
    assert_eq!(failed, ExecutionOutcome::Failure("no".to_string()));
}

#[test]
fn pending_failure_is_raised_as_its_own_error() {
    let connect: Pending<u8, String> = Pending::Connect("c".to_string());
    assert_eq!(connect.into_error(), HarnessError::Connect("c".to_string()));
    let migration: Pending<u8, String> = Pending::Migration("m".to_string());
    assert_eq!(migration.into_error(), HarnessError::Migration("m".to_string()));
    let body: Pending<u8, String> = Pending::TestBody(4);
    assert_eq!(body.into_error(), HarnessError::TestBody(4));
}

#[test]
fn many_invocations_side_by_side_do_not_clash() {
    let mut server = server();
    let mut names: Vec<String> = Vec::new();
    let mut lifecycles: Vec<Option<Lifecycle<u32, String, String>>> = Vec::new();
    let mut scoped: Vec<Option<String>> = Vec::new();
    let mut bodies: Vec<Option<Box<dyn FnOnce(&mut Server, &str) -> Result<u32, String>>>> = Vec::new();
    for _ in 0..128 {
        let lifecycle: Lifecycle<u32, String, String> =
            Lifecycle::new(BASE, &test_db_name("users_crud"));
        names.push(lifecycle.name().to_string());
        lifecycles.push(Some(lifecycle));
        scoped.push(None);
        bodies.push(Some(Box::new(insert_one_and_count)));
    }
    for i in 0..names.len() {
        for j in 0..i {
            assert_ne!(names[i], names[j]);
        }
    }
    // One action of each invocation in turn, until all are over.
    let mut most_at_once = 0;
    for _ in 0..7 {
        for i in 0..lifecycles.len() {
            let lifecycle = lifecycles[i].take().unwrap();
            let next = match perform(&mut server, lifecycle.action(), &mut scoped[i], &["users"], &mut bodies[i]) {
                Some(event) => lifecycle.step(event),
                None => lifecycle,
            };
            lifecycles[i] = Some(next);
        }
        if server.databases.len() > most_at_once {
            most_at_once = server.databases.len();
        }
    }
    assert_eq!(most_at_once, 128);
    for lifecycle in lifecycles {
        assert_eq!(lifecycle.unwrap().conclude().ok(), Some(TestOutcome::Returned(1)));
    }
    assert!(server.databases.is_empty());
    assert_eq!(server.statements.len(), 256);
}
