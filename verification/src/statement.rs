//! The texts that go to the database server: the two administrative
//! statements and the connection string of the new database.

use vstd::prelude::*;

verus! {

/// `CREATE DATABASE <name>;`
pub open spec fn create_statement_text(name: Seq<char>) -> Seq<char> {
    "CREATE DATABASE "@ + name + ";"@
}

/// `DROP DATABASE <name>;`
pub open spec fn drop_statement_text(name: Seq<char>) -> Seq<char> {
    "DROP DATABASE "@ + name + ";"@
}

/// `<base>/<name>`: the server's connection string with the database
/// appended.
pub open spec fn scoped_connection_text(base: Seq<char>, name: Seq<char>) -> Seq<char> {
    base + "/"@ + name
}

/// The statement that creates the database `name`.
pub fn create_statement(name: &str) -> (statement: String)
    ensures
        statement@ == create_statement_text(name@),
{
    let mut statement = String::from_str("CREATE DATABASE ");
    statement.append(name);
    statement.append(";");
    statement
}

/// The statement that drops the database `name`.
pub fn drop_statement(name: &str) -> (statement: String)
    ensures
        statement@ == drop_statement_text(name@),
{
    let mut statement = String::from_str("DROP DATABASE ");
    statement.append(name);
    statement.append(";");
    statement
}

/// The connection string of the database `name` on the server that `base`
/// leads to.
pub fn scoped_connection_string(base: &str, name: &str) -> (connection_string: String)
    ensures
        connection_string@ == scoped_connection_text(base@, name@),
{
    let mut connection_string = String::from_str(base);
    connection_string.append("/");
    connection_string.append(name);
    connection_string
}

} // verus!
