use vstd::prelude::*;

use crate::engine::{
    attempt_calls, attempted, compile_then, exec_outcome, lemma_ran, prepared_call, ran, result_of,
    run_calls, run_with, str_views, Connection, Engine, EngineCall, Entity, Prepared, QueryResult,
};
use crate::error::{owned, ErrorKind, RediSQLError, SQLite3Error};

verus! {

pub const CREATE_METADATA_TABLE: &'static str =
    "CREATE TABLE IF NOT EXISTS RediSQLMetadata(data_type TEXT, key TEXT, value TEXT);";

pub const INSERT_METADATA: &'static str = "INSERT INTO RediSQLMetadata VALUES(?1, ?2, ?3);";

pub const ENABLE_FOREIGN_KEY: &'static str = "PRAGMA foreign_keys = ON;";

pub const UPDATE_STATEMENT_METADATA: &'static str =
    "UPDATE RediSQLMetadata SET value = ?1 WHERE data_type = 'statement' AND key = ?2";

pub const REMOVE_STATEMENT_METADATA: &'static str =
    "DELETE FROM RediSQLMetadata WHERE data_type = 'statement' AND key = ?1";

pub const SELECT_STATEMENT_METADATA: &'static str =
    "SELECT * FROM RediSQLMetadata WHERE data_type = 'statement';";

pub const SELECT_PATH_METADATA: &'static str =
    "SELECT value FROM RediSQLMetadata WHERE data_type = 'path' AND key = 'path';";

pub const FIND_METADATA_TABLE: &'static str =
    "SELECT name FROM sqlite_master WHERE type='table' AND name='RediSQLMetadata';";

pub const UPDATE_PATH_METADATA: &'static str =
    "UPDATE RediSQLMetadata SET value = ?1 WHERE data_type = 'path' AND key = 'path'";

/// Creates the metadata table unless the instance already has it.
pub fn create_metadata_table<E: Engine>(db: &mut Connection<E>) -> (r: Result<(), SQLite3Error>)
    ensures
        attempted(old(db).calls(), final(db).calls(), CREATE_METADATA_TABLE@, seq![], r is Ok),
        r is Ok ==> ran(old(db).calls(), final(db).calls(), CREATE_METADATA_TABLE@, seq![]),
{
    let mut v: Vec<&str> = Vec::new();
    proof {
        assert(str_views(v@) =~= seq![]);
    }
    run_with(db, CREATE_METADATA_TABLE, &v)
}

/// Adds one `(data_type, key, value)` row to the metadata table.
pub fn insert_metadata<E: Engine>(db: &mut Connection<E>, data_type: &str, key: &str, value: &str) -> (r: Result<(), SQLite3Error>)
    ensures
        attempted(old(db).calls(), final(db).calls(), INSERT_METADATA@, seq![data_type@, key@, value@], r is Ok),
        r is Ok ==> ran(old(db).calls(), final(db).calls(), INSERT_METADATA@, seq![data_type@, key@, value@]),
{
    let mut v: Vec<&str> = Vec::new();
    v.push(data_type);
    v.push(key);
    v.push(value);
    proof {
        assert(str_views(v@) =~= seq![data_type@, key@, value@]);
    }
    run_with(db, INSERT_METADATA, &v)
}

/// Turns on the engine's checks of foreign keys.
pub fn enable_foreign_key<E: Engine>(db: &mut Connection<E>) -> (r: Result<(), SQLite3Error>)
    ensures
        attempted(old(db).calls(), final(db).calls(), ENABLE_FOREIGN_KEY@, seq![], r is Ok),
        r is Ok ==> ran(old(db).calls(), final(db).calls(), ENABLE_FOREIGN_KEY@, seq![]),
{
    let mut v: Vec<&str> = Vec::new();
    proof {
        assert(str_views(v@) =~= seq![]);
    }
    run_with(db, ENABLE_FOREIGN_KEY, &v)
}

/// Compiles the new text of a statement and records it under the identifier.
pub fn update_statement<E: Engine>(db: &mut Connection<E>, identifier: &str, statement: &str) -> (r: Result<
    Prepared,
    RediSQLError,
>)
    ensures
        r is Err ==> r->Err_0.kind == ErrorKind::Engine,
        compile_then(old(db).calls(), final(db).calls(), statement@, UPDATE_STATEMENT_METADATA@, seq![statement@, identifier@], r is Ok),
        r matches Ok(p) ==> ran(
            old(db).calls().push(prepared_call(statement@, p)),
            final(db).calls(),
            UPDATE_STATEMENT_METADATA@,
            seq![statement@, identifier@],
        ),
{
    let prepared = db.prepare(statement);
    let ghost mid = db.calls();
    proof {
        assert(mid.take(old(db).calls().len() as int) =~= old(db).calls());
    }
    let stmt = match prepared {
        Ok(p) => p,
        Err(e) => {
            return Err(RediSQLError::from_engine(e));
        },
    };
    let res = update_statement_metadata(db, identifier, statement);
    proof {
        let n = old(db).calls().len() as int;
        assert(db.calls().take(mid.len() as int) == mid);
        assert(db.calls().take(n) =~= old(db).calls());
        assert(db.calls()[n] == mid[n]);
        assert(db.calls().take(n + 1) =~= mid);
    }
    engine_failure(res)?;
    Ok(stmt)
}

/// Deletes the record of the statement with the identifier.
pub fn remove_statement<E: Engine>(db: &mut Connection<E>, identifier: &str) -> (r: Result<(), RediSQLError>)
    ensures
        r is Err ==> r->Err_0.kind == ErrorKind::Engine,
        attempted(old(db).calls(), final(db).calls(), REMOVE_STATEMENT_METADATA@, seq![identifier@], r is Ok),
        r is Ok ==> ran(old(db).calls(), final(db).calls(), REMOVE_STATEMENT_METADATA@, seq![identifier@]),
{
    engine_failure(remove_statement_metadata(db, identifier))
}

/// An engine failure as a client sees it.
pub fn engine_failure<T>(r: Result<T, SQLite3Error>) -> (o: Result<T, RediSQLError>)
    ensures
        r is Ok <==> o is Ok,
        r matches Ok(v) ==> o matches Ok(w) && w == v,
        o is Err ==> o->Err_0.kind == ErrorKind::Engine,
{
    match r {
        Ok(v) => Ok(v),
        Err(e) => Err(RediSQLError::from_engine(e)),
    }
}

/// Compiles `sql` and runs it once, reporting a failure of either step as
/// an engine error.
pub fn run_once<E: Engine>(db: &mut Connection<E>, sql: &str) -> (r: Result<QueryResult, RediSQLError>)
    ensures
        exec_outcome(old(db).calls(), final(db).calls(), sql@, r),
        r is Ok ==> ran(old(db).calls(), final(db).calls(), sql@, seq![]),
{
    let prepared = db.prepare(sql);
    match prepared {
        Err(e) => {
            proof {
                assert(db.calls() == old(db).calls() + attempt_calls(sql@, None, None));
            }
            Err(RediSQLError::from_engine(e))
        },
        Ok(stmt) => {
            let res = db.execute(&stmt);
            proof {
                assert(db.calls() =~= old(db).calls() + attempt_calls(sql@, Some(stmt), result_of(res)));
                if res is Ok {
                    let q = res->Ok_0;
                    lemma_ran(old(db).calls(), stmt, sql@, seq![], q);
                    assert(db.calls() =~= old(db).calls() + run_calls(stmt, sql@, seq![], q));
                }
            }
            engine_failure(res)
        },
    }
}

/// Reads every statement row: `data_type`, `key` and `value`, row after row.
pub fn get_statement_metadata<E: Engine>(db: &mut Connection<E>) -> (r: Result<QueryResult, RediSQLError>)
    ensures
        exec_outcome(old(db).calls(), final(db).calls(), SELECT_STATEMENT_METADATA@, r),
        r is Ok ==> ran(old(db).calls(), final(db).calls(), SELECT_STATEMENT_METADATA@, seq![]),
{
    run_once(db, SELECT_STATEMENT_METADATA)
}

/// Reads the value of the path row.
pub fn get_path_metadata<E: Engine>(db: &mut Connection<E>) -> (r: Result<QueryResult, RediSQLError>)
    ensures
        exec_outcome(old(db).calls(), final(db).calls(), SELECT_PATH_METADATA@, r),
        r is Ok ==> ran(old(db).calls(), final(db).calls(), SELECT_PATH_METADATA@, seq![]),
{
    run_once(db, SELECT_PATH_METADATA)
}

/// Whether a lookup of the metadata table among the tables found it: it did
/// when the lookup ran and returned rows.
pub fn is_metadata_lookup_hit(lookup: &Result<QueryResult, RediSQLError>) -> (r: bool)
    ensures
        r == (lookup matches Ok(QueryResult::Array { .. })),
{
    match lookup {
        Ok(QueryResult::Array { .. }) => true,
        _ => false,
    }
}

/// Whether the instance holds a metadata table: exactly when looking it up
/// among the tables ran and returned rows.
pub fn is_redisql_database<E: Engine>(db: &mut Connection<E>) -> (r: bool)
    ensures
        exists|read: Result<QueryResult, RediSQLError>|
            #![trigger exec_outcome(old(db).calls(), final(db).calls(), FIND_METADATA_TABLE@, read)]
            exec_outcome(old(db).calls(), final(db).calls(), FIND_METADATA_TABLE@, read) && r == (
            read matches Ok(QueryResult::Array { .. })),
{
    let lookup = run_once(db, FIND_METADATA_TABLE);
    is_metadata_lookup_hit(&lookup)
}

/// How the path of an instance is found in what reading the path row gave.
pub open spec fn path_outcome(read: Result<QueryResult, RediSQLError>) -> Result<
    Seq<char>,
    ErrorKind,
> {
    match read {
        Err(e) => Err(e.kind),
        Ok(QueryResult::Array { array, .. }) => if array.len() == 0 {
            Err(ErrorKind::NotFound)
        } else {
            match array[0] {
                Entity::Text { text } => if text@.len() == 0 {
                    Err(ErrorKind::NotFound)
                } else {
                    Ok(text@)
                },
                _ => Err(ErrorKind::NotFound),
            }
        },
        _ => Err(ErrorKind::NotFound),
    }
}

/// The debug text of the error that reading the path row gives, when it
/// gives no path.
pub open spec fn path_error_text(read: Result<QueryResult, RediSQLError>) -> Seq<char> {
    match read {
        Err(e) => e.debug@,
        Ok(QueryResult::Array { array, .. }) => if array.len() == 0 {
            "Path not found"@
        } else {
            match array[0] {
                Entity::Text { text } => "Found empty path"@,
                _ => "Not found path as text of the database in metadata"@,
            }
        },
        _ => "Path not found"@,
    }
}

/// The path of an instance out of what reading its path row gave: the first
/// cell, when it is a non-empty text.
pub fn path_from_metadata(read: Result<QueryResult, RediSQLError>) -> (r: Result<
    String,
    RediSQLError,
>)
    ensures
        path_result_is(r, read),
{
    match read {
        Err(e) => Err(e),
        Ok(QueryResult::Array { array, .. }) => {
            if array.len() == 0 {
                return Err(
                    RediSQLError::new(
                        ErrorKind::NotFound,
                        owned("Path not found"),
                        owned("Couldn't find the path of the database in the metadata table"),
                    ),
                );
            }
            match &array[0] {
                Entity::Text { text } => {
                    if text.as_str().is_empty() {
                        Err(
                            RediSQLError::new(
                                ErrorKind::NotFound,
                                owned("Found empty path"),
                                owned(
                                    "The field of the path of the database is empty in the metadata table.",
                                ),
                            ),
                        )
                    } else {
                        Ok(text.clone())
                    }
                },
                _ => Err(
                    RediSQLError::new(
                        ErrorKind::NotFound,
                        owned("Not found path as text of the database in metadata"),
                        owned("The path of the database was expected to be of TEXT type."),
                    ),
                ),
            }
        },
        _ => Err(
            RediSQLError::new(
                ErrorKind::NotFound,
                owned("Path not found"),
                owned("Couldn't find the path of the database in the metadata table"),
            ),
        ),
    }
}

/// The backing path that the instance's metadata records.
pub fn get_path_from_db<E: Engine>(db: &mut Connection<E>) -> (r: Result<String, RediSQLError>)
    ensures
        r is Ok ==> r->Ok_0@.len() > 0,
        exists|read: Result<QueryResult, RediSQLError>|
            #![trigger path_outcome(read)]
            exec_outcome(old(db).calls(), final(db).calls(), SELECT_PATH_METADATA@, read)
                && path_result_is(r, read),
{
    let read = get_path_metadata(db);
    let ghost g = read;
    let r = path_from_metadata(read);
    proof {
        assert(path_result_is(r, g));
    }
    r
}

/// `r` is the path, or the error, that `read` gives.
pub open spec fn path_result_is(r: Result<String, RediSQLError>, read: Result<QueryResult, RediSQLError>) -> bool {
    match (r, path_outcome(read)) {
        (Ok(p), Ok(q)) => p@ == q,
        (Err(e), Err(k)) => e.kind == k && e.debug@ == path_error_text(read),
        _ => false,
    }
}

/// `after` is `before` followed by the set-up of a new instance's metadata:
/// the table created, foreign keys turned on, and the path row written, in
/// that order, ending at the first failure; `ok` says whether all of it
/// succeeded.
pub open spec fn set_up(before: Seq<EngineCall>, after: Seq<EngineCall>, path: Seq<char>, ok: bool) -> bool {
    exists|a: Seq<EngineCall>, ok1: bool|
        #![trigger attempted(before, a, CREATE_METADATA_TABLE@, seq![], ok1)]
        attempted(before, a, CREATE_METADATA_TABLE@, seq![], ok1) && if !ok1 {
            after == a && !ok
        } else {
            exists|b: Seq<EngineCall>, ok2: bool|
                #![trigger attempted(a, b, ENABLE_FOREIGN_KEY@, seq![], ok2)]
                attempted(a, b, ENABLE_FOREIGN_KEY@, seq![], ok2) && if !ok2 {
                    after == b && !ok
                } else {
                    attempted(b, after, INSERT_METADATA@, seq!["path"@, "path"@, path], ok)
                }
        }
}

/// Sets up the metadata of a new instance whose backing path is `path`: the
/// metadata table, foreign keys, and the path row.
pub fn set_up_metadata<E: Engine>(db: &mut Connection<E>, path: &str) -> (r: Result<(), SQLite3Error>)
    ensures
        set_up(old(db).calls(), final(db).calls(), path@, r is Ok),
{
    let t = create_metadata_table(db);
    let ghost a = db.calls();
    if t.is_err() {
        proof {
            assert(attempted(old(db).calls(), a, CREATE_METADATA_TABLE@, seq![], false));
        }
        return t;
    }
    let f = enable_foreign_key(db);
    let ghost b = db.calls();
    if f.is_err() {
        proof {
            assert(attempted(a, b, ENABLE_FOREIGN_KEY@, seq![], false));
            assert(attempted(old(db).calls(), a, CREATE_METADATA_TABLE@, seq![], true));
        }
        return f;
    }
    let r = insert_path_metadata(db, path);
    proof {
        assert(attempted(a, b, ENABLE_FOREIGN_KEY@, seq![], true));
        assert(attempted(old(db).calls(), a, CREATE_METADATA_TABLE@, seq![], true));
    }
    r
}

/// Records the instance's backing path.
pub fn insert_path_metadata<E: Engine>(db: &mut Connection<E>, path: &str) -> (r: Result<(), SQLite3Error>)
    ensures
        attempted(old(db).calls(), final(db).calls(), INSERT_METADATA@, seq!["path"@, "path"@, path@], r is Ok),
        r is Ok ==> ran(old(db).calls(), final(db).calls(), INSERT_METADATA@, seq!["path"@, "path"@, path@]),
{
    insert_metadata(db, "path", "path", path)
}

/// Rewrites the instance's recorded backing path.
pub fn update_path_metadata<E: Engine>(db: &mut Connection<E>, value: &str) -> (r: Result<(), SQLite3Error>)
    ensures
        attempted(old(db).calls(), final(db).calls(), UPDATE_PATH_METADATA@, seq![value@], r is Ok),
        r is Ok ==> ran(old(db).calls(), final(db).calls(), UPDATE_PATH_METADATA@, seq![value@]),
{
    let mut v: Vec<&str> = Vec::new();
    v.push(value);
    proof {
        assert(str_views(v@) =~= seq![value@]);
    }
    run_with(db, UPDATE_PATH_METADATA, &v)
}

/// Compiles a statement and records it under the identifier.
pub fn create_statement<E: Engine>(db: &mut Connection<E>, identifier: &str, statement: &str) -> (r: Result<
    Prepared,
    RediSQLError,
>)
    ensures
        r is Err ==> r->Err_0.kind == ErrorKind::Engine,
        compile_then(old(db).calls(), final(db).calls(), statement@, INSERT_METADATA@, seq!["statement"@, identifier@, statement@], r is Ok),
        r matches Ok(p) ==> ran(
            old(db).calls().push(prepared_call(statement@, p)),
            final(db).calls(),
            INSERT_METADATA@,
            seq!["statement"@, identifier@, statement@],
        ),
{
    let prepared = db.prepare(statement);
    let ghost mid = db.calls();
    proof {
        assert(mid.take(old(db).calls().len() as int) =~= old(db).calls());
    }
    let stmt = match prepared {
        Ok(p) => p,
        Err(e) => {
            return Err(RediSQLError::from_engine(e));
        },
    };
    let res = insert_metadata(db, "statement", identifier, statement);
    proof {
        let n = old(db).calls().len() as int;
        assert(db.calls().take(mid.len() as int) == mid);
        assert(db.calls().take(n) =~= old(db).calls());
        assert(db.calls()[n] == mid[n]);
        assert(db.calls().take(n + 1) =~= mid);
    }
    engine_failure(res)?;
    Ok(stmt)
}

/// Sets the text of the statement row with the key.
pub fn update_statement_metadata<E: Engine>(db: &mut Connection<E>, key: &str, value: &str) -> (r: Result<(), SQLite3Error>)
    ensures
        attempted(old(db).calls(), final(db).calls(), UPDATE_STATEMENT_METADATA@, seq![value@, key@], r is Ok),
        r is Ok ==> ran(old(db).calls(), final(db).calls(), UPDATE_STATEMENT_METADATA@, seq![value@, key@]),
{
    let mut v: Vec<&str> = Vec::new();
    v.push(value);
    v.push(key);
    proof {
        assert(str_views(v@) =~= seq![value@, key@]);
    }
    run_with(db, UPDATE_STATEMENT_METADATA, &v)
}

/// Deletes the statement row with the key.
pub fn remove_statement_metadata<E: Engine>(db: &mut Connection<E>, key: &str) -> (r: Result<(), SQLite3Error>)
    ensures
        attempted(old(db).calls(), final(db).calls(), REMOVE_STATEMENT_METADATA@, seq![key@], r is Ok),
        r is Ok ==> ran(old(db).calls(), final(db).calls(), REMOVE_STATEMENT_METADATA@, seq![key@]),
{
    let mut v: Vec<&str> = Vec::new();
    v.push(key);
    proof {
        assert(str_views(v@) =~= seq![key@]);
    }
    run_with(db, REMOVE_STATEMENT_METADATA, &v)
}

} // verus!
