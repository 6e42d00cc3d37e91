use std::cell::RefCell;
use std::collections::HashMap;

use redisql::cache::{ReplicationBook, StatementCache};
use redisql::engine::{Connection, Engine, Entity, Prepared, QueryResult};
use redisql::error::{ErrorKind, SQLite3Error};
use redisql::metadata::{
    create_metadata_table, enable_foreign_key, get_path_from_db, insert_path_metadata, is_redisql_database,
    path_from_metadata, INSERT_METADATA, REMOVE_STATEMENT_METADATA, SELECT_PATH_METADATA,
    SELECT_STATEMENT_METADATA, UPDATE_PATH_METADATA, UPDATE_STATEMENT_METADATA,
};
use redisql::stream::{HostContext, StreamContext, StreamField};
use redisql::worker::{
    create_backup, create_instance, do_copy, do_execute, do_query, execute_command, restore_previous_statements, Command,
    Instance, RedisContextSet, ReturnMethod, Step,
};

/// An engine that understands the metadata statements and a table `t` of
/// integers, enough to run the cache and the worker against.
#[derive(Default)]
struct FakeDb {
    next: u64,
    sql: HashMap<u64, String>,
    bound: HashMap<u64, Vec<String>>,
    table: RefCell<Vec<i64>>,
    meta: Vec<(String, String, String)>,
    has_meta_table: bool,
    calls: usize,
}

fn err(text: &str) -> SQLite3Error {
    SQLite3Error { code: 1, debug: text.to_string(), description: text.to_string() }
}

impl Engine for FakeDb {
    fn prepare(&mut self, sql: &str) -> Result<Prepared, SQLite3Error> {
        self.calls += 1;
        if sql.contains("BROKEN") {
            return Err(err("syntax error"));
        }
        self.next += 1;
        self.sql.insert(self.next, sql.to_string());
        self.bound.insert(self.next, Vec::new());
        let read_only = sql.starts_with("SELECT") || sql.starts_with("PRAGMA");
        Ok(Prepared { handle: self.next, read_only })
    }

    fn reset(&mut self, stmt: &Prepared) {
        self.calls += 1;
        self.bound.insert(stmt.handle, Vec::new());
    }

    fn bind_index(&mut self, stmt: &Prepared, index: i32, value: &str) -> Result<(), SQLite3Error> {
        self.calls += 1;
        let b = self.bound.get_mut(&stmt.handle).unwrap();
        let i = (index - 1) as usize;
        while b.len() <= i {
            b.push(String::new());
        }
        b[i] = value.to_string();
        Ok(())
    }

    fn bind_texts(&mut self, stmt: &Prepared, values: &Vec<String>) -> Result<(), SQLite3Error> {
        self.calls += 1;
        self.bound.insert(stmt.handle, values.clone());
        Ok(())
    }

    fn execute(&mut self, stmt: &Prepared) -> Result<QueryResult, SQLite3Error> {
        self.calls += 1;
        let sql = self.sql[&stmt.handle].clone();
        let b = self.bound[&stmt.handle].clone();
        if sql == INSERT_METADATA {
            self.meta.push((b[0].clone(), b[1].clone(), b[2].clone()));
            Ok(QueryResult::DONE { modified_rows: 1 })
        } else if sql == UPDATE_STATEMENT_METADATA {
            for row in self.meta.iter_mut() {
                if row.0 == "statement" && row.1 == b[1] {
                    row.2 = b[0].clone();
                }
            }
            Ok(QueryResult::DONE { modified_rows: 1 })
        } else if sql == REMOVE_STATEMENT_METADATA {
            self.meta.retain(|row| !(row.0 == "statement" && row.1 == b[0]));
            Ok(QueryResult::DONE { modified_rows: 1 })
        } else if sql == UPDATE_PATH_METADATA {
            for row in self.meta.iter_mut() {
                if row.0 == "path" && row.1 == "path" {
                    row.2 = b[0].clone();
                }
            }
            Ok(QueryResult::DONE { modified_rows: 1 })
        } else if sql == SELECT_STATEMENT_METADATA {
            let mut array = Vec::new();
            for row in self.meta.iter().filter(|r| r.0 == "statement") {
                array.push(Entity::Text { text: row.0.clone() });
                array.push(Entity::Text { text: row.1.clone() });
                array.push(Entity::Text { text: row.2.clone() });
            }
            let names = vec!["data_type".to_string(), "key".to_string(), "value".to_string()];
            Ok(QueryResult::Array { names, array })
        } else if sql == SELECT_PATH_METADATA {
            let array: Vec<Entity> = self
                .meta
                .iter()
                .filter(|r| r.0 == "path" && r.1 == "path")
                .map(|r| Entity::Text { text: r.2.clone() })
                .collect();
            if array.is_empty() {
                Ok(QueryResult::DONE { modified_rows: 0 })
            } else {
                Ok(QueryResult::Array { names: vec!["value".to_string()], array })
            }
        } else if sql.starts_with("CREATE TABLE IF NOT EXISTS RediSQLMetadata") {
            self.has_meta_table = true;
            Ok(QueryResult::OK)
        } else if sql.starts_with("SELECT name FROM sqlite_master") {
            if self.has_meta_table {
                let names = vec!["name".to_string()];
                let array = vec![Entity::Text { text: "RediSQLMetadata".to_string() }];
                Ok(QueryResult::Array { names, array })
            } else {
                Ok(QueryResult::DONE { modified_rows: 0 })
            }
        } else if sql == "INSERT INTO t VALUES(?1)" {
            let v: i64 = b.get(0).ok_or_else(|| err("missing parameter"))?.parse().map_err(|_| err("not an integer"))?;
            self.table.get_mut().push(v);
            Ok(QueryResult::DONE { modified_rows: 1 })
        } else if sql == "SELECT * FROM t" {
            let array = self.table.borrow().iter().map(|v| Entity::Integer { int: *v }).collect();
            Ok(QueryResult::Array { names: vec!["a".to_string()], array })
        } else {
            Ok(QueryResult::OK)
        }
    }

    fn open(_path: &str) -> Result<Self, SQLite3Error> {
        Ok(FakeDb::default())
    }

    fn backup_into(&mut self, destination: &mut Self) -> Result<(), SQLite3Error> {
        self.calls += 1;
        destination.table = self.table.clone();
        destination.meta = self.meta.clone();
        destination.has_meta_table = self.has_meta_table;
        Ok(())
    }
}

#[derive(Default)]
struct FakeHost {
    clock: u64,
    locks: usize,
    releases: usize,
    entries: Vec<Vec<StreamField>>,
}

impl HostContext for FakeHost {
    fn now(&mut self) -> u64 {
        self.clock
    }
    fn lock(&mut self) {
        self.locks += 1;
    }
    fn release(&mut self) {
        self.releases += 1;
    }
    fn append(&mut self, _stream: &str, fields: &Vec<StreamField>) -> Result<String, String> {
        self.entries.push(fields.clone());
        Ok(format!("{}-0", self.entries.len()))
    }
}

fn instance(path: &str) -> Instance<FakeDb> {
    let mut db = Connection::new(FakeDb::default());
    create_metadata_table(&mut db).unwrap();
    insert_path_metadata(&mut db, path).unwrap();
    Instance { db, book: ReplicationBook::new(), in_memory: false }
}

fn run(inst: &mut Instance<FakeDb>, cmd: Command, now: u64) -> Step {
    let mut slot: RedisContextSet<u32> = RedisContextSet::empty();
    let mut ctx = StreamContext::new(FakeHost::default());
    let step = execute_command(inst, &mut slot, 7u32, &mut ctx, cmd, now);
    assert!(slot.current.is_none());
    step
}

fn statement_keys(db: &Connection<FakeDb>) -> Vec<String> {
    let mut keys: Vec<String> =
        db.engine().meta.iter().filter(|r| r.0 == "statement").map(|r| r.1.clone()).collect();
    keys.sort();
    keys
}

fn strings(v: &[&str]) -> Vec<String> {
    v.iter().map(|s| s.to_string()).collect()
}

#[test]
fn compile_exec_then_query_mutating_statement() {
    let mut inst = instance("/data/db1");
    let step = run(
        &mut inst,
        Command::CompileStatement {
            identifier: "ins".to_string(),
            statement: "INSERT INTO t VALUES(?1)".to_string(),
        },
        0,
    );
    assert!(matches!(step, Step::Reply(Ok(QueryResult::OK))));
    let step = run(
        &mut inst,
        Command::ExecStatement { identifier: "ins".to_string(), arguments: strings(&["5"]), timeout: 100 },
        0,
    );
    assert!(matches!(step, Step::Reply(Ok(QueryResult::DONE { modified_rows: 1 }))));
    assert_eq!(*inst.db.engine().table.borrow(), vec![5]);
    let step = run(
        &mut inst,
        Command::QueryStatement {
            identifier: "ins".to_string(),
            arguments: vec![],
            timeout: 100,
            return_method: ReturnMethod::Reply,
        },
        0,
    );
    match step {
        Step::Reply(Err(e)) => assert_eq!(e.kind, ErrorKind::NotReadOnly),
        _ => panic!("expected a NotReadOnly error"),
    }
}

#[test]
fn second_insert_is_refused() {
    let mut inst = instance("/data/db1");
    let r = inst.book.insert_new_statement(&mut inst.db, "sel", "SELECT * FROM t");
    assert!(r.is_ok());
    let r = inst.book.insert_new_statement(&mut inst.db, "sel", "SELECT 1");
    assert_eq!(r.unwrap_err().kind, ErrorKind::AlreadyExists);
    assert_eq!(statement_keys(&inst.db), strings(&["sel"]));
}

#[test]
fn update_and_delete_of_absent_are_not_found() {
    let mut inst = instance("/data/db1");
    let r = inst.book.update_statement(&mut inst.db, "nope", "SELECT 1");
    assert_eq!(r.unwrap_err().kind, ErrorKind::NotFound);
    let r = inst.book.delete_statement(&mut inst.db, "nope");
    assert_eq!(r.unwrap_err().kind, ErrorKind::NotFound);
    let r = inst.book.exec_statement(&mut inst.db, "nope", &vec![]);
    assert_eq!(r.unwrap_err().kind, ErrorKind::NotFound);
    let r = inst.book.query_statement(&mut inst.db, "nope", &vec![]);
    assert_eq!(r.unwrap_err().kind, ErrorKind::NotFound);
}

#[test]
fn cache_and_metadata_rows_stay_in_step() {
    let mut inst = instance("/data/db1");
    inst.book.insert_new_statement(&mut inst.db, "a", "SELECT * FROM t").unwrap();
    inst.book.insert_new_statement(&mut inst.db, "b", "INSERT INTO t VALUES(?1)").unwrap();
    inst.book.insert_new_statement(&mut inst.db, "c", "SELECT 1").unwrap();
    inst.book.update_statement(&mut inst.db, "a", "SELECT 2").unwrap();
    inst.book.delete_statement(&mut inst.db, "b").unwrap();
    assert_eq!(statement_keys(&inst.db), strings(&["a", "c"]));
    assert!(inst.book.is_statement_present("a"));
    assert!(!inst.book.is_statement_present("b"));
    assert!(inst.book.is_statement_present("c"));
    let row = inst.db.engine().meta.iter().find(|r| r.0 == "statement" && r.1 == "a").unwrap();
    assert_eq!(row.2, "SELECT 2");
}

#[test]
fn engine_failure_commits_nothing() {
    let mut inst = instance("/data/db1");
    let r = inst.book.insert_new_statement(&mut inst.db, "bad", "BROKEN SQL");
    assert_eq!(r.unwrap_err().kind, ErrorKind::Engine);
    assert!(!inst.book.is_statement_present("bad"));
    assert!(statement_keys(&inst.db).is_empty());
}

#[test]
fn copy_carries_statements_and_keeps_destination_path() {
    let mut db1 = instance("/data/db1");
    db1.book.insert_new_statement(&mut db1.db, "sel", "SELECT * FROM t").unwrap();
    let mut db2 = instance("/data/db2");
    assert!(matches!(run(&mut db1, Command::MakeCopy, 0), Step::Copy));
    let r = do_copy(&mut db1.db, &mut db2);
    assert!(matches!(r, Ok(QueryResult::OK)));
    assert!(db2.book.is_statement_present("sel"));
    assert_eq!(get_path_from_db(&mut db2.db).unwrap(), "/data/db2");
    assert_eq!(get_path_from_db(&mut db1.db).unwrap(), "/data/db1");
}

#[test]
fn expired_query_does_no_engine_work() {
    let mut inst = instance("/data/db1");
    let calls = inst.db.engine().calls;
    let step = run(
        &mut inst,
        Command::Query {
            query: "SELECT * FROM t".to_string(),
            timeout: 10,
            return_method: ReturnMethod::Reply,
        },
        11,
    );
    match step {
        Step::Reply(Err(e)) => assert_eq!(e.kind, ErrorKind::Timeout),
        _ => panic!("expected a timeout"),
    }
    assert_eq!(inst.db.engine().calls, calls);
}

#[test]
fn stop_ends_the_loop() {
    let mut inst = instance("/data/db1");
    assert!(matches!(run(&mut inst, Command::Stop, 0), Step::Stop));
}

#[test]
fn exec_and_query_commands() {
    let mut inst = instance("/data/db1");
    let step = run(&mut inst, Command::Exec { query: "INSERT INTO t VALUES(?1)".to_string(), timeout: 5 }, 5);
    // no parameter was bound: the engine refuses it
    match step {
        Step::Reply(Err(e)) => assert_eq!(e.kind, ErrorKind::Engine),
        _ => panic!("expected an engine error"),
    }
    inst.db.engine().table.borrow_mut().push(3);
    let step = run(
        &mut inst,
        Command::Query { query: "SELECT * FROM t".to_string(), timeout: 5, return_method: ReturnMethod::Reply },
        5,
    );
    match step {
        Step::Reply(Ok(QueryResult::Array { array, .. })) => {
            assert!(matches!(array[0], Entity::Integer { int: 3 }))
        }
        _ => panic!("expected rows"),
    }
}

#[test]
fn do_query_refuses_mutating_sql() {
    let mut db = Connection::new(FakeDb::default());
    assert_eq!(do_query(&mut db, "INSERT INTO t VALUES(?1)").unwrap_err().kind, ErrorKind::NotReadOnly);
    assert_eq!(do_query(&mut db, "BROKEN").unwrap_err().kind, ErrorKind::Engine);
    assert!(matches!(do_execute(&mut db, "DELETE FROM t"), Ok(QueryResult::OK)));
}

#[test]
fn query_into_a_stream_replies_with_a_summary() {
    let mut inst = instance("/data/db1");
    *inst.db.engine().table.borrow_mut() = vec![1, 2, 3];
    let mut slot: RedisContextSet<u32> = RedisContextSet::empty();
    let mut ctx = StreamContext::new(FakeHost::default());
    let cmd = Command::Query {
        query: "SELECT * FROM t".to_string(),
        timeout: 50,
        return_method: ReturnMethod::Stream { name: "out".to_string() },
    };
    let step = execute_command(&mut inst, &mut slot, 1u32, &mut ctx, cmd, 10);
    match step {
        Step::Reply(Ok(QueryResult::Array { names, array })) => {
            assert_eq!(names, strings(&["stream", "first_id", "last_id", "size"]));
            assert!(matches!(&array[0], Entity::Text { text } if text == "out"));
            assert!(matches!(&array[1], Entity::Text { text } if text == "1-0"));
            assert!(matches!(&array[2], Entity::Text { text } if text == "3-0"));
            assert!(matches!(array[3], Entity::Integer { int: 3 }));
        }
        _ => panic!("expected a summary"),
    }
    assert_eq!(ctx.host().entries.len(), 3);
    assert_eq!(ctx.host().entries[0][0].name, "int:a");
    assert!(!ctx.held());
}

#[test]
fn statements_are_restored_from_metadata() {
    let mut inst = instance("/data/db1");
    inst.book.insert_new_statement(&mut inst.db, "sel", "SELECT * FROM t").unwrap();
    let engine = inst.db.into_engine();
    let mut fresh = Instance { db: Connection::new(engine), book: ReplicationBook::new(), in_memory: false };
    restore_previous_statements(&mut fresh);
    assert!(fresh.book.is_statement_present("sel"));
    // replaying does not write the rows again
    assert_eq!(statement_keys(&fresh.db), strings(&["sel"]));
}

#[test]
fn path_lookup_errors() {
    let mut db = Connection::new(FakeDb::default());
    assert_eq!(get_path_from_db(&mut db).unwrap_err().kind, ErrorKind::NotFound);
    let empty = Ok(QueryResult::Array { names: strings(&["value"]), array: vec![Entity::Text { text: String::new() }] });
    assert_eq!(path_from_metadata(empty).unwrap_err().kind, ErrorKind::NotFound);
    let not_text = Ok(QueryResult::Array { names: strings(&["value"]), array: vec![Entity::Integer { int: 1 }] });
    assert_eq!(path_from_metadata(not_text).unwrap_err().kind, ErrorKind::NotFound);
    let good = Ok(QueryResult::Array { names: strings(&["value"]), array: vec![Entity::Text { text: "/p".to_string() }] });
    assert_eq!(path_from_metadata(good).unwrap(), "/p");
}

#[test]
fn metadata_table_is_detected() {
    let mut db = Connection::new(FakeDb::default());
    assert!(!is_redisql_database(&mut db));
    create_metadata_table(&mut db).unwrap();
    assert!(is_redisql_database(&mut db));
}

#[test]
fn context_slot_release_takes_the_context() {
    let mut slot = RedisContextSet::new(9u8);
    assert_eq!(slot.release(), 9);
    assert_eq!(slot.current, None);
    slot.set(4);
    assert_eq!(slot.current, Some(4));
}

#[test]
fn backup_and_foreign_keys_run() {
    let mut inst = instance("/data/db1");
    *inst.db.engine().table.borrow_mut() = vec![1, 2];
    assert!(create_backup(&mut inst.db, "/data/backup").is_ok());
    assert!(enable_foreign_key(&mut inst.db).is_ok());
}

#[test]
fn cache_works_through_its_trait() {
    let mut inst = instance("/data/db1");
    let book: &mut ReplicationBook = &mut inst.book;
    assert!(StatementCache::insert_new_statement(book, &mut inst.db, "sel", "SELECT * FROM t").is_ok());
    assert!(StatementCache::is_statement_present(book, "sel"));
    *inst.db.engine().table.borrow_mut() = vec![8];
    match StatementCache::query_statement(book, &mut inst.db, "sel", &vec![]) {
        Ok(QueryResult::Array { array, .. }) => assert!(matches!(array[0], Entity::Integer { int: 8 })),
        _ => panic!("expected rows"),
    }
    assert!(StatementCache::delete_statement(book, &mut inst.db, "sel").is_ok());
    assert!(!StatementCache::is_statement_present(book, "sel"));
    assert_eq!(
        StatementCache::update_statement(book, &mut inst.db, "sel", "SELECT 1").unwrap_err().kind,
        ErrorKind::NotFound
    );
}

#[test]
fn created_instance_is_set_up() {
    let mut inst = create_instance::<FakeDb>(Some("/data/new")).unwrap();
    assert!(is_redisql_database(&mut inst.db));
    assert_eq!(get_path_from_db(&mut inst.db).unwrap(), "/data/new");
    assert!(!inst.book.is_statement_present("x"));
    let mut mem = create_instance::<FakeDb>(None).unwrap();
    assert_eq!(get_path_from_db(&mut mem.db).unwrap(), ":memory:");
}

#[test]
fn stream_of_rows_without_columns_is_refused() {
    let mut inst = instance("/data/db1");
    let mut slot: RedisContextSet<u32> = RedisContextSet::empty();
    let mut ctx = StreamContext::new(FakeHost::default());
    let cmd = Command::Query {
        query: "SELECT nothing".to_string(),
        timeout: 50,
        return_method: ReturnMethod::Stream { name: "out".to_string() },
    };
    // the fake engine answers OK to unknown SQL: no rows, passed through
    let step = execute_command(&mut inst, &mut slot, 1u32, &mut ctx, cmd, 10);
    assert!(matches!(step, Step::Reply(Ok(QueryResult::OK))));
    let r = redisql::worker::create_data_to_return(
        &mut ctx,
        Ok(QueryResult::Array { names: vec![], array: vec![] }),
        &ReturnMethod::Stream { name: "out".to_string() },
        50,
    );
    assert_eq!(r.unwrap_err().kind, ErrorKind::Engine);
    assert!(ctx.host().entries.is_empty());
}

#[test]
fn exec_statement_returns_the_engine_result() {
    let mut inst = instance("/data/db1");
    inst.book.insert_new_statement(&mut inst.db, "sel", "SELECT * FROM t").unwrap();
    *inst.db.engine().table.borrow_mut() = vec![4, 5];
    match inst.book.exec_statement(&mut inst.db, "sel", &vec![]) {
        Ok(QueryResult::Array { array, .. }) => {
            assert_eq!(array.len(), 2);
            assert!(matches!(array[1], Entity::Integer { int: 5 }));
        }
        _ => panic!("expected rows"),
    }
}

#[test]
fn failed_backup_leaves_destination_alone() {
    let mut db1 = instance("/data/db1");
    db1.book.insert_new_statement(&mut db1.db, "sel", "SELECT * FROM t").unwrap();
    let mut db2 = Instance { db: Connection::new(FakeDb::default()), book: ReplicationBook::new(), in_memory: false };
    // no path row in the destination: the copy stops before any backup
    let calls = db1.db.engine().calls;
    let e = do_copy(&mut db1.db, &mut db2).unwrap_err();
    assert_eq!(e.kind, ErrorKind::NotFound);
    assert_eq!(db1.db.engine().calls, calls);
    assert!(!db2.book.is_statement_present("sel"));
}

#[test]
fn refusals_carry_their_texts() {
    let mut inst = instance("/data/db1");
    inst.book.insert_new_statement(&mut inst.db, "ins", "INSERT INTO t VALUES(?1)").unwrap();
    let e = inst.book.insert_new_statement(&mut inst.db, "ins", "SELECT 1").unwrap_err();
    assert_eq!(e.debug, "Statement already present");
    let e = inst.book.update_statement(&mut inst.db, "nope", "SELECT 1").unwrap_err();
    assert_eq!(e.debug, "Statement not present.");
    let e = inst.book.delete_statement(&mut inst.db, "nope").unwrap_err();
    assert_eq!(e.debug, "Statement not present.");
    let e = inst.book.exec_statement(&mut inst.db, "nope", &vec![]).unwrap_err();
    assert_eq!(e.debug, "No statement found");
    let e = inst.book.query_statement(&mut inst.db, "ins", &vec![]).unwrap_err();
    assert_eq!(e.debug, "Not read only statement");
    let e = do_query(&mut inst.db, "INSERT INTO t VALUES(?1)").unwrap_err();
    assert_eq!(e.debug, "Not read only statement");
    let empty = Ok(QueryResult::Array { names: strings(&["value"]), array: vec![Entity::Text { text: String::new() }] });
    assert_eq!(path_from_metadata(empty).unwrap_err().debug, "Found empty path");
}

#[test]
fn memory_flag_follows_the_path() {
    assert!(create_instance::<FakeDb>(None).unwrap().in_memory);
    assert!(!create_instance::<FakeDb>(Some("/data/x")).unwrap().in_memory);
}
