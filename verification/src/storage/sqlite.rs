//! The relational storage engine: one SQLite table of tips. `store`
//! flushes and bulk-inserts; `random` samples one row; `search` matches a
//! LIKE pattern against title and content; `flush` deletes all rows. The
//! database calls run through trusted wrappers — what comes back depends on
//! the disk — and everything done with what they return is verified.

use vstd::prelude::*;

use rusqlite::OptionalExtension;

use crate::model::{entities_model, Entity, StorageError};
use crate::storage::{normalize_path, Storage};
use crate::text::{i64_to_string, spec_i64_dec};

verus! {

#[verifier::external_type_specification]
#[verifier::external_body]
pub struct ExConnection(rusqlite::Connection);

/// Relies on `rusqlite::Connection::open`: opens (creating on demand) the
/// database file at the path; the outcome depends on the disk.
#[verifier::external_body]
fn open_connection(path: &str) -> (r: Result<rusqlite::Connection, String>) {
    rusqlite::Connection::open(path).map_err(|e| e.to_string())
}

/// Relies on `rusqlite::Connection::execute`: runs one parameterless SQL
/// statement; the outcome depends on the database on disk.
#[verifier::external_body]
fn execute_sql(con: &rusqlite::Connection, sql: &str) -> (r: Result<usize, String>) {
    con.execute(sql, ()).map_err(|e| e.to_string())
}

/// Relies on rusqlite's prepared statements: inserts one (title, content)
/// row into the tips table; the outcome depends on the database on disk.
#[verifier::external_body]
fn insert_tip_row(con: &rusqlite::Connection, title: &str, content: &str) -> (r: Result<
    (),
    String,
>) {
    let res = con
        .prepare_cached("INSERT INTO laravel_tips (title, content) VALUES (?, ?);")
        .and_then(|mut stmt| stmt.execute((title, content)));
    match res {
        Ok(_) => Ok(()),
        Err(e) => Err(e.to_string()),
    }
}

/// Relies on rusqlite's query API: fetches one row in random order, or none
/// when the table is empty; which row comes back depends on the database on
/// disk and on SQLite's random ordering.
#[verifier::external_body]
fn query_random_row(con: &rusqlite::Connection) -> (r: Result<Option<(i64, String, String)>, String,
>) {
    let res = con
        .prepare("SELECT id, title, content FROM laravel_tips ORDER BY RANDOM() LIMIT 1")
        .and_then(|mut q| {
            q.query_row((), |row| Ok((row.get(0)?, row.get(1)?, row.get(2)?))).optional()
        });
    res.map_err(|e| e.to_string())
}

/// Relies on rusqlite's query API: the rows whose title or content matches
/// the LIKE pattern; which rows come back depends on the database on disk.
#[verifier::external_body]
fn query_like_rows(con: &rusqlite::Connection, pattern: &str) -> (r: Result<
    Vec<(i64, String, String)>,
    String,
>) {
    let res = con
        .prepare_cached("SELECT id, title, content FROM laravel_tips WHERE title LIKE ? OR content LIKE ?")
        .and_then(|mut q| {
            q.query_map((pattern, pattern), |row| Ok((row.get(0)?, row.get(1)?, row.get(2)?)))?
                .collect::<Result<Vec<(i64, String, String)>, rusqlite::Error>>()
        });
    res.map_err(|e| e.to_string())
}

/// The entity a table row denotes: the auto-increment id as decimal text,
/// and the title and content as stored.
pub open spec fn row_model(row: (i64, String, String)) -> (Seq<char>, Seq<char>, Seq<char>) {
    (spec_i64_dec(row.0 as int), row.1@, row.2@)
}

/// The entities a sequence of table rows denotes, in order.
pub open spec fn rows_model(rows: Seq<(i64, String, String)>) -> Seq<
    (Seq<char>, Seq<char>, Seq<char>),
> {
    rows.map_values(|row: (i64, String, String)| row_model(row))
}

/// Builds the entity a table row denotes.
pub fn entity_from_row(row: (i64, String, String)) -> (e: Entity)
    ensures
        e.model() == row_model(row),
{
    let (id, title, content) = row;
    Entity { id: i64_to_string(id), title, content }
}

/// What `random` returns for the row the engine handed back: no row means
/// an empty table, which is an empty result, not an error.
pub fn random_outcome(row: Option<(i64, String, String)>) -> (r: Option<Entity>)
    ensures
        match row {
            Option::None => r is None,
            Option::Some(t) => r matches Some(e) && e.model() == row_model(t),
        },
{
    match row {
        Option::None => Option::None,
        Option::Some(t) => Option::Some(entity_from_row(t)),
    }
}

/// Builds the entities the engine's result rows denote, in order.
pub fn entities_from_rows(rows: Vec<(i64, String, String)>) -> (es: Vec<Entity>)
    ensures
        entities_model(es@) == rows_model(rows@),
{
    let ghost rm = rows_model(rows@);
    let mut es: Vec<Entity> = Vec::new();
    proof {
        assert(entities_model(es@) =~= rm.take(0));
    }
    let n = rows.len();
    let mut i: usize = 0;
    while i < n
        invariant
            i <= n,
            n == rows.len(),
            rm == rows_model(rows@),
            entities_model(es@) == rm.take(i as int),
        decreases n - i,
    {
        let ghost before = entities_model(es@);
        let row = &rows[i];
        let e = entity_from_row((row.0, row.1.clone(), row.2.clone()));
        proof {
            assert(rows@[i as int] == (rows@[i as int].0, rows@[i as int].1, rows@[i as int].2));
            assert(e.model() == rm[i as int]);
        }
        let ghost emodel = e.model();
        es.push(e);
        proof {
            assert(entities_model(es@) =~= before.push(emodel));
            assert(rm.take(i + 1) =~= rm.take(i as int).push(rm[i as int]));
        }
        i = i + 1;
    }
    proof {
        assert(rm.take(n as int) =~= rm);
    }
    es
}

/// The LIKE pattern for a substring search: the keyword between wildcards.
pub fn like_pattern(keyword: &str) -> (r: String)
    ensures
        r@ == "%"@ + keyword@ + "%"@,
{
    String::from_str("%").concat(keyword).concat("%")
}

/// The relational engine's configuration: the directory holding the
/// database file.
pub struct SqliteStorage {
    pub path: Option<String>,
}

impl SqliteStorage {
    /// A relational engine over the given directory; an absent value falls
    /// back to the default directory.
    pub fn new(path: Option<String>) -> (s: Self)
        ensures
            s.path == path,
    {
        SqliteStorage { path }
    }

    fn connection(&self) -> (r: Result<rusqlite::Connection, StorageError>)
        ensures
            r matches Err(e) ==> (e is Engine || e is PathResolution),
            self.path matches Option::Some(_) ==> (r matches Err(e) ==> e is Engine),
    {
        match self.path() {
            Ok(p) => match open_connection(p.as_str()) {
                Ok(con) => Ok(con),
                Err(m) => Err(StorageError::Engine(m)),
            },
            Err(e) => Err(e),
        }
    }

    /// Creates the tips table on first use; every read or write operation
    /// calls this, so the table exists lazily.
    pub fn create_table_if_not_exists(&self) -> (r: Result<(), StorageError>)
        ensures
            r matches Err(e) ==> (e is Engine || e is PathResolution),
            self.path matches Option::Some(_) ==> (r matches Err(e) ==> e is Engine),
    {
        let con = match self.connection() {
            Ok(con) => con,
            Err(e) => { return Err(e) },
        };
        match execute_sql(
            &con,
            "CREATE TABLE IF NOT EXISTS laravel_tips (id INTEGER PRIMARY KEY AUTOINCREMENT, title TEXT NOT NULL, content TEXT NOT NULL, created_at DATETIME DEFAULT CURRENT_TIMESTAMP);",
        ) {
            Ok(_) => Ok(()),
            Err(m) => Err(StorageError::Engine(m)),
        }
    }

    /// Replaces the whole dataset: deletes every row, then inserts the
    /// entities in order. The two steps are not wrapped in a transaction:
    /// a failure between them leaves the store empty, not rolled back.
    pub fn store(&self, entities: &Vec<Entity>) -> (r: Result<(), StorageError>)
        ensures
            r matches Err(e) ==> (e is Engine || e is PathResolution),
            self.path matches Option::Some(_) ==> (r matches Err(e) ==> e is Engine),
    {
        match self.flush() {
            Ok(_) => {},
            Err(e) => { return Err(e) },
        }
        let con = match self.connection() {
            Ok(con) => con,
            Err(e) => { return Err(e) },
        };
        let n = entities.len();
        for i in 0..n
            invariant
                n == entities.len(),
        {
            let e = &entities[i];
            match insert_tip_row(&con, e.title.as_str(), e.content.as_str()) {
                Ok(_) => {},
                Err(m) => { return Err(StorageError::Engine(m)) },
            }
        }
        Ok(())
    }

    /// One row sampled in random order, as an entity; an empty table is an
    /// empty result, not an error.
    pub fn random(&self) -> (r: Result<Option<Entity>, StorageError>)
        ensures
            r matches Err(e) ==> (e is Engine || e is PathResolution),
            self.path matches Option::Some(_) ==> (r matches Err(e) ==> e is Engine),
            r matches Ok(Some(e)) ==> exists|row: (i64, String, String)| e.model() == row_model(
                row,
            ),
    {
        match self.create_table_if_not_exists() {
            Ok(_) => {},
            Err(e) => { return Err(e) },
        }
        let con = match self.connection() {
            Ok(con) => con,
            Err(e) => { return Err(e) },
        };
        match query_random_row(&con) {
            Ok(row) => {
                let ghost row_snap = row;
                let out = random_outcome(row);
                proof {
                    match row_snap {
                        Option::Some(t) => {
                            assert(out->Some_0.model() == row_model(t));
                        },
                        Option::None => {},
                    }
                }
                Ok(out)
            },
            Err(m) => Err(StorageError::Engine(m)),
        }
    }

    /// Deletes every row; a store that was never written is created empty
    /// first, so flushing it succeeds silently.
    pub fn flush(&self) -> (r: Result<(), StorageError>)
        ensures
            r matches Err(e) ==> (e is Engine || e is PathResolution),
            self.path matches Option::Some(_) ==> (r matches Err(e) ==> e is Engine),
    {
        match self.create_table_if_not_exists() {
            Ok(_) => {},
            Err(e) => { return Err(e) },
        }
        let con = match self.connection() {
            Ok(con) => con,
            Err(e) => { return Err(e) },
        };
        match execute_sql(&con, "DELETE FROM laravel_tips") {
            Ok(_) => Ok(()),
            Err(m) => Err(StorageError::Engine(m)),
        }
    }
}

impl Storage for SqliteStorage {
    /// The relational engine can search.
    open spec fn spec_supports_search(&self) -> bool {
        true
    }

    fn supports_search(&self) -> (b: bool) {
        true
    }

    /// The path of the database file.
    fn path(&self) -> (r: Result<String, StorageError>)
        ensures
            self.path matches Option::Some(p) ==> r matches Ok(s) && s@ == p@ + "/"@ + ".db3"@,
            r matches Err(e) ==> e is PathResolution,
    {
        normalize_path(String::from_str(".db3"), self.path.clone())
    }

    /// The entities whose title or content contains the keyword, by a LIKE
    /// query over both columns; the group filter is accepted but not
    /// modeled in the schema, so it is ignored.
    fn search(&self, keyword: &str, group: Option<&str>) -> (r: Result<
        Vec<Entity>,
        StorageError,
    >)
        ensures
            r matches Err(e) ==> (e is Engine || e is PathResolution),
            self.path matches Option::Some(_) ==> (r matches Err(e) ==> e is Engine),
            r matches Ok(es) ==> exists|rows: Seq<(i64, String, String)>|
                entities_model(es@) == rows_model(rows),
    {
        let _ = group;
        match self.create_table_if_not_exists() {
            Ok(_) => {},
            Err(e) => { return Err(e) },
        }
        let con = match self.connection() {
            Ok(con) => con,
            Err(e) => { return Err(e) },
        };
        let pattern = like_pattern(keyword);
        match query_like_rows(&con, pattern.as_str()) {
            Ok(rows) => {
                let ghost rws = rows@;
                let es = entities_from_rows(rows);
                proof {
                    assert(entities_model(es@) == rows_model(rws));
                }
                Ok(es)
            },
            Err(m) => Err(StorageError::Engine(m)),
        }
    }
}

} // verus!
