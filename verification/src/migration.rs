//! Copying tables to another database: what is asked and what is reported.

use vstd::prelude::*;
use vstd::string::StringExecFns;

verus! {

/// The kind of database to copy to.
#[derive(Clone, Copy, Debug, PartialEq, Eq, Structural)]
pub enum DatabaseType {
    Postgresql,
    Mysql,
    Sqlite,
    SqlServer,
    Oracle,
    Odbc,
}

/// The kind of database that a name in lower case stands for.
pub open spec fn database_type_named(name: Seq<char>) -> Option<DatabaseType> {
    if name == "postgresql"@ || name == "postgres"@ {
        Some(DatabaseType::Postgresql)
    } else if name == "mysql"@ || name == "mariadb"@ {
        Some(DatabaseType::Mysql)
    } else if name == "sqlite"@ {
        Some(DatabaseType::Sqlite)
    } else if name == "sqlserver"@ || name == "mssql"@ {
        Some(DatabaseType::SqlServer)
    } else if name == "oracle"@ {
        Some(DatabaseType::Oracle)
    } else if name == "odbc"@ {
        Some(DatabaseType::Odbc)
    } else {
        None
    }
}

fn is_text(name: &String, wanted: &str) -> (same: bool)
    ensures
        same == (name@ == wanted@),
{
    let other = String::from_str(wanted);
    *name == other
}

/// Finds the kind of database that a name in lower case stands for.
pub fn parse_database_type(name: &str) -> (kind: Option<DatabaseType>)
    ensures
        kind == database_type_named(name@),
{
    let given = String::from_str(name);
    if is_text(&given, "postgresql") || is_text(&given, "postgres") {
        Some(DatabaseType::Postgresql)
    } else if is_text(&given, "mysql") || is_text(&given, "mariadb") {
        Some(DatabaseType::Mysql)
    } else if is_text(&given, "sqlite") {
        Some(DatabaseType::Sqlite)
    } else if is_text(&given, "sqlserver") || is_text(&given, "mssql") {
        Some(DatabaseType::SqlServer)
    } else if is_text(&given, "oracle") {
        Some(DatabaseType::Oracle)
    } else if is_text(&given, "odbc") {
        Some(DatabaseType::Odbc)
    } else {
        None
    }
}

/// How to reach the database to copy to.
#[derive(Clone, Debug)]
pub struct DatabaseConnection {
    /// The kind of database.
    pub db_type: DatabaseType,
    /// The connection string, or a data source name.
    pub connection_string: String,
    /// What else the connection needs.
    pub params: Option<crate::names::NameMap<String>>,
}

/// How far a migration has come.
#[derive(Clone, Copy, Debug, PartialEq, Eq, Structural)]
pub enum MigrationStatus {
    Pending,
    Running,
    Completed,
    Failed,
}

/// What became of one table.
#[derive(Clone, Debug)]
pub struct TableMigrationDetail {
    /// The table's name.
    pub table_name: String,
    /// How far its migration has come.
    pub status: MigrationStatus,
    /// How many of its records were copied.
    pub records_migrated: u64,
    /// Why it failed, if it did.
    pub error: Option<String>,
}

/// What became of a migration.
#[derive(Clone, Debug)]
pub struct MigrationResult {
    /// How far the migration has come.
    pub status: MigrationStatus,
    /// How many tables were copied.
    pub tables_migrated: u64,
    /// How many records were copied.
    pub records_migrated: u64,
    /// How long it took, in milliseconds.
    pub duration_ms: u64,
    /// Why it failed, if it did.
    pub error: Option<String>,
    /// What became of each table.
    pub table_details: Vec<TableMigrationDetail>,
}

/// What a migration is asked to do.
#[derive(Clone, Debug)]
pub struct MigrationOptions {
    /// The tables to copy; all where none are named.
    pub tables: Option<Vec<String>>,
    /// How many records go in one batch.
    pub batch_size: Option<usize>,
    /// Whether missing tables are created.
    pub create_tables: Option<bool>,
    /// Whether tables are emptied before records are inserted.
    pub truncate_before_insert: Option<bool>,
}

impl Default for MigrationOptions {
    /// All tables, batches of 1000 records, tables created and not
    /// emptied.
    fn default() -> (options: MigrationOptions)
        ensures
            options.tables.is_none(),
            options.batch_size == Some(1000usize),
            options.create_tables == Some(true),
            options.truncate_before_insert == Some(false),
    {
        MigrationOptions {
            tables: None,
            batch_size: Some(1000),
            create_tables: Some(true),
            truncate_before_insert: Some(false),
        }
    }
}

impl MigrationResult {
    /// The report of a migration that failed before it copied anything.
    pub fn failed(error: String, duration_ms: u64) -> (result: MigrationResult)
        ensures
            result.status == MigrationStatus::Failed,
            result.tables_migrated == 0,
            result.records_migrated == 0,
            result.duration_ms == duration_ms,
            result.error == Some(error),
            result.table_details@.len() == 0,
    {
        MigrationResult {
            status: MigrationStatus::Failed,
            tables_migrated: 0,
            records_migrated: 0,
            duration_ms,
            error: Some(error),
            table_details: Vec::new(),
        }
    }
}

/// The connection string that is tried first for what a user gave: the
/// text itself where it holds an equals sign, else the text as a data
/// source name.
pub open spec fn first_attempt(given: Seq<char>) -> Seq<char> {
    if given.contains('=') {
        given
    } else {
        "DSN="@ + given
    }
}

/// The connection string that is tried where the first fails: the first
/// with a semicolon at its end.
pub open spec fn second_attempt(first: Seq<char>) -> Seq<char> {
    if first.len() > 0 && first.last() == ';' {
        first
    } else {
        first + ";"@
    }
}

/// The two connection strings to try in turn for what a user gave.
pub fn connection_attempts(given: &str) -> (attempts: (String, String))
    ensures
        attempts.0@ == first_attempt(given@),
        attempts.1@ == second_attempt(first_attempt(given@)),
{
    let len: usize = given.unicode_len();
    let mut at: usize = 0;
    while at < len && given.get_char(at) != '='
        invariant
            at <= len,
            len == given@.len(),
            forall|j: int| 0 <= j < at ==> given@[j] != '=',
        decreases len - at,
    {
        at += 1;
    }
    let first = if at < len {
        String::from_str(given)
    } else {
        String::from_str("DSN=").concat(given)
    };
    let first_len: usize = first.as_str().unicode_len();
    let closed: bool = first_len > 0 && first.as_str().get_char(first_len - 1) == ';';
    let second = if closed {
        first.clone()
    } else {
        first.clone().concat(";")
    };
    (first, second)
}

} // verus!
