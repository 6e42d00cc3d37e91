use vstd::prelude::*;

use crate::cache::{cache_after_compile, statement_run, ReplicationBook};
use crate::engine::{
    attempt_calls, attempted, backup_call, compile_call, exec_outcome, prepared_call, result_of, string_views,
    Connection, Engine, EngineCall, Entity, Prepared, QueryResult,
};
use crate::error::{owned, ErrorKind, RediSQLError, SQLite3Error};
use crate::metadata::{
    engine_failure, get_path_from_db,
    get_statement_metadata, set_up, set_up_metadata, path_error_text, path_outcome, path_result_is, run_once,
    update_path_metadata, SELECT_PATH_METADATA,
    SELECT_STATEMENT_METADATA, UPDATE_PATH_METADATA,
};
use crate::stream::{
    chunk_count, chunks_of, stream_outcome, stream_query_result_array, AppendRecord, HostContext,
    RowChunks, StreamContext,
};

verus! {

/// How long after dispatch, in milliseconds, a client command may run.
pub const DEFAULT_DEADLINE_MS: u64 = 10000;

/// Where the result of a read goes.
#[derive(Clone, Debug)]
pub enum ReturnMethod {
    /// Straight back to the client.
    Reply,
    /// Appended to the named log, the client getting a summary.
    Stream { name: String },
}

/// A request to the worker of one instance. Deadlines are absolute times in
/// milliseconds.
#[derive(Clone, Debug)]
pub enum Command {
    Stop,
    Exec { query: String, timeout: u64 },
    Query { query: String, timeout: u64, return_method: ReturnMethod },
    CompileStatement { identifier: String, statement: String },
    ExecStatement { identifier: String, arguments: Vec<String>, timeout: u64 },
    UpdateStatement { identifier: String, statement: String },
    DeleteStatement { identifier: String },
    QueryStatement {
        identifier: String,
        arguments: Vec<String>,
        timeout: u64,
        return_method: ReturnMethod,
    },
    MakeCopy,
}

/// What the worker does after a command.
#[derive(Debug)]
pub enum Step {
    /// Leaves its loop.
    Stop,
    /// Hands this result to the waiting client.
    Reply(Result<QueryResult, RediSQLError>),
    /// Locks the destination instance after this one and runs the copy.
    Copy,
}

/// The slot that holds the host's execution context while one command runs.
pub struct RedisContextSet<T> {
    pub current: Option<T>,
}

impl<T> RedisContextSet<T> {
    /// A slot holding the context.
    pub fn new(ctx: T) -> (r: RedisContextSet<T>)
        ensures
            r.current == Some(ctx),
    {
        RedisContextSet { current: Some(ctx) }
    }

    /// An empty slot.
    pub fn empty() -> (r: RedisContextSet<T>)
        ensures
            r.current is None,
    {
        RedisContextSet { current: None }
    }

    /// Puts the context in the slot for the command about to run.
    pub fn set(&mut self, ctx: T)
        ensures
            final(self).current == Some(ctx),
    {
        self.current = Some(ctx);
    }

    /// Takes the context out, leaving the slot empty.
    pub fn release(&mut self) -> (r: T)
        requires
            old(self).current is Some,
        ensures
            old(self).current == Some(r),
            final(self).current is None,
    {
        let ctx = self.current.take();
        ctx.unwrap()
    }
}

/// One database instance: its engine connection, its statement cache, and
/// whether its database lives in memory only.
pub struct Instance<E> {
    pub db: Connection<E>,
    pub book: ReplicationBook,
    pub in_memory: bool,
}

/// The backing path of a new instance: the one given, else an in-memory
/// database.
pub open spec fn instance_path(path: Option<&str>) -> Seq<char> {
    match path {
        Some(p) => p@,
        None => ":memory:"@,
    }
}

/// Opens the database of a new instance and sets it up: the metadata table,
/// foreign keys turned on, and the path row. The new instance caches no
/// statement and lives in memory when no path is given. An engine that
/// opens nothing leaves no call to record; once it opened, the instance is
/// made exactly when the set-up succeeds.
pub fn create_instance<E: Engine>(path: Option<&str>) -> (r: Result<Instance<E>, RediSQLError>)
    ensures
        r matches Ok(inst) ==> inst.book.wf() && inst.book@ == Map::<Seq<char>, Prepared>::empty()
            && inst.book.statement_rows() == Map::<Seq<char>, Seq<char>>::empty() && inst.in_memory
            == (path is None) && set_up(Seq::empty(), inst.db.calls(), instance_path(path), true),
        r matches Err(e) ==> e.kind == ErrorKind::Engine,
{
    let p: &str = match path {
        Some(p) => p,
        None => ":memory:",
    };
    let mut db = engine_failure(Connection::<E>::open(p))?;
    engine_failure(set_up_metadata(&mut db, p))?;
    Ok(Instance { db, book: ReplicationBook::new(), in_memory: path.is_none() })
}

/// Runs any SQL against the instance.
pub fn do_execute<E: Engine>(db: &mut Connection<E>, query: &str) -> (r: Result<QueryResult, RediSQLError>)
    ensures
        exec_outcome(old(db).calls(), final(db).calls(), query@, r),
{
    run_once(db, query)
}

/// Whether a compilation gave a statement that may modify the database.
pub open spec fn modifies(prep: Option<Prepared>) -> bool {
    prep matches Some(p) && !p.read_only
}

/// `after` is `before` followed by an attempt to run `sql` as a read:
/// compiled, then refused with `NotReadOnly` when the statement may modify
/// the database, else executed; `r` is the engine's result when both
/// succeeded, else an engine error.
pub open spec fn query_outcome(
    before: Seq<EngineCall>,
    after: Seq<EngineCall>,
    sql: Seq<char>,
    r: Result<QueryResult, RediSQLError>,
) -> bool {
    exists|prep: Option<Prepared>, res: Option<QueryResult>|
        #![trigger attempt_calls(sql, prep, res)]
        if modifies(prep) {
            after == before.push(prepared_call(sql, prep->Some_0)) && (r matches Err(e) && e.kind
                == ErrorKind::NotReadOnly && e.debug@ == "Not read only statement"@)
        } else {
            after == before + attempt_calls(sql, prep, res) && (r is Ok <==> prep is Some
                && res is Some) && (r matches Ok(v) ==> res == Some(v)) && (r matches Err(e)
                ==> e.kind == ErrorKind::Engine)
        }
}

/// Runs SQL that leaves the database as it is; SQL that may modify it is
/// compiled and refused.
pub fn do_query<E: Engine>(db: &mut Connection<E>, query: &str) -> (r: Result<QueryResult, RediSQLError>)
    ensures
        query_outcome(old(db).calls(), final(db).calls(), query@, r),
{
    let prepared = db.prepare(query);
    match prepared {
        Err(e) => {
            proof {
                assert(db.calls() =~= old(db).calls() + attempt_calls(query@, None, None));
            }
            Err(RediSQLError::from_engine(e))
        },
        Ok(stmt) => {
            if stmt.read_only {
                let res = db.execute(&stmt);
                proof {
                    assert(db.calls() =~= old(db).calls() + attempt_calls(
                        query@,
                        Some(stmt),
                        result_of(res),
                    ));
                }
                engine_failure(res)
            } else {
                proof {
                    assert(attempt_calls(query@, Some(stmt), None).len() == 2);
                }
                Err(
                    RediSQLError::new(
                        ErrorKind::NotReadOnly,
                        owned("Not read only statement"),
                        owned(
                            "Statement is not read only but it may modify the database, use `EXEC_STATEMENT` instead.",
                        ),
                    ),
                )
            }
        },
    }
}

/// Copies the database over a new one stored at the path.
pub fn create_backup<E: Engine>(conn: &mut Connection<E>, path: &str) -> (r: Result<(), SQLite3Error>)
    ensures
        r is Ok <==> final(conn).calls() == old(conn).calls().push(backup_call(true)),
        final(conn).calls() == old(conn).calls() || final(conn).calls() == old(conn).calls().push(
            backup_call(r is Ok),
        ),
{
    let mut new_db = Connection::<E>::open(path)?;
    let r = conn.backup_into(&mut new_db);
    proof {
        let n = old(conn).calls().len() as int;
        assert(old(conn).calls().push(backup_call(true))[n] == backup_call(true));
        assert(conn.calls()[n] == backup_call(r is Ok));
    }
    r
}

/// The statements that rows of `width` cells hold: `(identifier, text)` for
/// each whole row whose second and third cells are texts, in row order.
pub open spec fn saved_statements(array: Seq<Entity>, width: nat) -> Seq<(Seq<char>, Seq<char>)>
    decreases array.len(),
{
    if width < 3 || array.len() < width {
        Seq::empty()
    } else {
        let rest = saved_statements(array.skip(width as int), width);
        match (array[1], array[2]) {
            (Entity::Text { text: id }, Entity::Text { text: sql }) => seq![(id@, sql@)] + rest,
            _ => rest,
        }
    }
}

/// The text pairs a list of string pairs holds.
pub open spec fn pair_views(v: Seq<(String, String)>) -> Seq<(Seq<char>, Seq<char>)> {
    v.map_values(|p: (String, String)| (p.0@, p.1@))
}

/// The statements recorded in the rows of the metadata table, in row order;
/// a row whose identifier or text is not a text is skipped.
pub fn statements_in_rows(names_len: usize, array: &Vec<Entity>) -> (r: Vec<(String, String)>)
    ensures
        pair_views(r@) == saved_statements(array@, names_len as nat),
{
    let mut out: Vec<(String, String)> = Vec::new();
    if names_len < 3 {
        return out;
    }
    let ghost w = names_len as nat;
    let mut start: usize = 0;
    proof {
        assert(array@.skip(0) =~= array@);
        assert(pair_views(out@) + saved_statements(array@, w) =~= saved_statements(array@, w));
    }
    while names_len <= array.len() - start
        invariant
            names_len >= 3,
            w == names_len as nat,
            start <= array@.len(),
            pair_views(out@) + saved_statements(array@.skip(start as int), w) == saved_statements(
                array@,
                w,
            ),
        decreases array@.len() - start,
    {
        let ghost before = out@;
        let ghost rest = array@.skip(start as int);
        proof {
            assert(rest.skip(w as int) =~= array@.skip(start + w));
            assert(rest[1] == array@[start + 1]);
            assert(rest[2] == array@[start + 2]);
        }
        match (&array[start + 1], &array[start + 2]) {
            (Entity::Text { text: id }, Entity::Text { text: sql }) => {
                out.push((id.clone(), sql.clone()));
                proof {
                    assert(pair_views(out@) =~= pair_views(before) + seq![(id@, sql@)]);
                }
            },
            _ => {},
        }
        proof {
            assert(pair_views(before) + saved_statements(rest, w) =~= pair_views(out@)
                + saved_statements(array@.skip(start + w), w));
        }
        start = start + names_len;
    }
    proof {
        assert(saved_statements(array@.skip(start as int), w) =~= Seq::empty());
        assert(pair_views(out@) + Seq::empty() =~= pair_views(out@));
    }
    out
}

/// The cache after replaying the listed statements, in order, into `m`,
/// when `calls` are the engine calls that replay made: a statement whose
/// identifier is cached already is skipped with no call; any other is
/// compiled, and cached when that succeeded. `None` when the calls do not
/// fit.
pub open spec fn replay(
    m: Map<Seq<char>, Prepared>,
    list: Seq<(Seq<char>, Seq<char>)>,
    calls: Seq<EngineCall>,
) -> Option<Map<Seq<char>, Prepared>>
    decreases list.len(),
{
    if list.len() == 0 {
        if calls.len() == 0 {
            Some(m)
        } else {
            None
        }
    } else if m.contains_key(list[0].0) {
        replay(m, list.drop_first(), calls)
    } else if calls.len() > 0 {
        match calls[0] {
            EngineCall::Prepare { sql, result } => if sql == list[0].1 {
                replay(cache_after_compile(m, list[0].0, result), list.drop_first(), calls.drop_first())
            } else {
                None
            },
            _ => None,
        }
    } else {
        None
    }
}

/// The statements that reading the statement rows gave.
pub open spec fn statements_read(read: Result<QueryResult, RediSQLError>) -> Seq<(Seq<char>, Seq<char>)> {
    match read {
        Ok(QueryResult::Array { names, array }) => saved_statements(array@, names@.len()),
        _ => Seq::empty(),
    }
}

/// `after` is `before` followed by a read of the statement rows and the
/// replay of what it gave, which turned cache `m0` into `m1`.
pub open spec fn restored(
    before: Seq<EngineCall>,
    after: Seq<EngineCall>,
    m0: Map<Seq<char>, Prepared>,
    m1: Map<Seq<char>, Prepared>,
) -> bool {
    exists|mid: Seq<EngineCall>, read: Result<QueryResult, RediSQLError>|
        #![trigger exec_outcome(before, mid, SELECT_STATEMENT_METADATA@, read)]
        exec_outcome(before, mid, SELECT_STATEMENT_METADATA@, read) && mid.len() <= after.len()
            && after.take(mid.len() as int) == mid && replay(
            m0,
            statements_read(read),
            after.skip(mid.len() as int),
        ) == Some(m1)
}

/// What a copy did once the destination's path was read (`read`, ending the
/// destination's calls at `c1`): a failed read stops it before any backup;
/// a failed backup leaves the destination's cache as it was and rewrites
/// nothing; else the destination's statements are replayed and its path
/// row is rewritten with the path read.
pub open spec fn copy_steps(
    read: Result<QueryResult, RediSQLError>,
    c1: Seq<EngineCall>,
    src_before: Seq<EngineCall>,
    src_after: Seq<EngineCall>,
    dest_after: Seq<EngineCall>,
    m0: Map<Seq<char>, Prepared>,
    m1: Map<Seq<char>, Prepared>,
    r: Result<QueryResult, RediSQLError>,
) -> bool {
    match path_outcome(read) {
        Err(k) => (r matches Err(e) && e.kind == k && e.debug@ == path_error_text(read)) && src_after
            == src_before && dest_after == c1
            && m1 == m0,
        Ok(p) => if src_after == src_before.push(backup_call(false)) {
            (r matches Err(e) && e.kind == ErrorKind::Engine) && dest_after == c1.push(
                backup_call(false),
            ) && m1 == m0
        } else {
            &&& src_after == src_before.push(backup_call(true))
            &&& exists|c3: Seq<EngineCall>|
                #![trigger restored(c1.push(backup_call(true)), c3, m0, m1)]
                restored(c1.push(backup_call(true)), c3, m0, m1) && attempted(
                    c3,
                    dest_after,
                    UPDATE_PATH_METADATA@,
                    seq![p],
                    r is Ok,
                )
            &&& (r is Ok ==> r matches Ok(QueryResult::OK))
            &&& (r is Err ==> r->Err_0.kind == ErrorKind::Engine)
        },
    }
}

/// Caches the statements that the instance's metadata table records. A row
/// that cannot be compiled, or whose identifier is cached already, is
/// skipped: a bad row does not stop the instance. After reading the rows,
/// the only engine calls are the compilations, so no row is written.
pub fn restore_previous_statements<E: Engine>(inst: &mut Instance<E>)
    requires
        old(inst).book.wf(),
    ensures
        final(inst).book.wf(),
        old(inst).book@.dom().subset_of(final(inst).book@.dom()),
        restored(old(inst).db.calls(), final(inst).db.calls(), old(inst).book@, final(inst).book@),
{
    let saved = get_statement_metadata(&mut inst.db);
    let ghost read = saved;
    let ghost mid = inst.db.calls();
    let ghost m0 = inst.book@;
    proof {
        assert(inst.db.calls().take(mid.len() as int) =~= mid);
        assert(inst.db.calls().skip(mid.len() as int) =~= Seq::<EngineCall>::empty());
    }
    match saved {
        Ok(QueryResult::Array { array, names }) => {
            let list = statements_in_rows(names.len(), &array);
            let ghost lv = pair_views(list@);
            proof {
                assert(lv == statements_read(read));
                assert forall|x: Seq<EngineCall>|
                    #[trigger] replay(m0, lv, inst.db.calls().skip(mid.len() as int) + x) == replay(
                        inst.book@,
                        lv.skip(0),
                        x,
                    ) by {
                    assert(inst.db.calls().skip(mid.len() as int) + x =~= x);
                    assert(lv.skip(0) =~= lv);
                }
            }
            let mut i: usize = 0;
            while i < list.len()
                invariant
                    inst.book.wf(),
                    old(inst).book@.dom().subset_of(inst.book@.dom()),
                    m0 == old(inst).book@,
                    lv == pair_views(list@),
                    i <= list@.len(),
                    mid.len() <= inst.db.calls().len(),
                    inst.db.calls().take(mid.len() as int) == mid,
                    forall|x: Seq<EngineCall>|
                        #[trigger] replay(m0, lv, inst.db.calls().skip(mid.len() as int) + x) == replay(
                            inst.book@,
                            lv.skip(i as int),
                            x,
                        ),
                decreases list@.len() - i,
            {
                let (id, sql) = &list[i];
                let ghost calls_i = inst.db.calls();
                let ghost book_i = inst.book@;
                let _ = inst.book.restore_statement(&mut inst.db, id.as_str(), sql.as_str());
                proof {
                    let rest = lv.skip(i as int);
                    assert(rest[0] == (id@, sql@));
                    assert(rest.drop_first() =~= lv.skip(i + 1));
                    assert(inst.db.calls().take(mid.len() as int) =~= mid);
                    if book_i.contains_key(id@) {
                        assert forall|x: Seq<EngineCall>|
                            #[trigger] replay(m0, lv, inst.db.calls().skip(mid.len() as int) + x)
                                == replay(inst.book@, lv.skip(i + 1), x) by {
                            assert(replay(m0, lv, calls_i.skip(mid.len() as int) + x) == replay(book_i, rest, x));
                        }
                    } else {
                        let res = choose|res: Option<Prepared>|
                            #[trigger] compile_call(sql@, res) == inst.db.calls().last()
                                && inst.db.calls() == calls_i.push(compile_call(sql@, res))
                                && inst.book@ == cache_after_compile(book_i, id@, res);
                        let c = compile_call(sql@, res);
                        assert forall|x: Seq<EngineCall>|
                            #[trigger] replay(m0, lv, inst.db.calls().skip(mid.len() as int) + x)
                                == replay(inst.book@, lv.skip(i + 1), x) by {
                            assert(inst.db.calls().skip(mid.len() as int) + x =~= calls_i.skip(
                                mid.len() as int,
                            ) + (seq![c] + x));
                            assert(replay(m0, lv, calls_i.skip(mid.len() as int) + (seq![c] + x))
                                == replay(book_i, rest, seq![c] + x));
                            assert((seq![c] + x)[0] == c);
                            assert((seq![c] + x).drop_first() =~= x);
                        }
                    }
                }
                i = i + 1;
            }
            proof {
                assert(lv.skip(i as int) =~= Seq::<(Seq<char>, Seq<char>)>::empty());
                assert(inst.db.calls().skip(mid.len() as int) + Seq::<EngineCall>::empty()
                    =~= inst.db.calls().skip(mid.len() as int));
                assert(replay(m0, lv, inst.db.calls().skip(mid.len() as int) + Seq::<EngineCall>::empty())
                    == replay(inst.book@, lv.skip(i as int), Seq::<EngineCall>::empty()));
            }
        },
        _ => {
            proof {
                assert(statements_read(read) =~= Seq::<(Seq<char>, Seq<char>)>::empty());
            }
        },
    }
    proof {
        assert(exec_outcome(old(inst).db.calls(), mid, SELECT_STATEMENT_METADATA@, read));
        assert(restored(old(inst).db.calls(), inst.db.calls(), old(inst).book@, inst.book@));
    }
}

/// Copies the source instance's database over the destination's, then
/// caches in the destination the statements that the copied metadata
/// records and rewrites its path row back to the destination's own path.
/// A failed copy leaves the destination's cache as it was.
pub fn do_copy<E: Engine>(source: &mut Connection<E>, destination: &mut Instance<E>) -> (r: Result<
    QueryResult,
    RediSQLError,
>)
    requires
        old(destination).book.wf(),
    ensures
        final(destination).book.wf(),
        exists|c1: Seq<EngineCall>, read: Result<QueryResult, RediSQLError>|
            #![trigger exec_outcome(old(destination).db.calls(), c1, SELECT_PATH_METADATA@, read)]
            exec_outcome(old(destination).db.calls(), c1, SELECT_PATH_METADATA@, read) && copy_steps(
                read,
                c1,
                old(source).calls(),
                final(source).calls(),
                final(destination).db.calls(),
                old(destination).book@,
                final(destination).book@,
                r,
            ),
{
    let path = get_path_from_db(&mut destination.db);
    let ghost c1 = destination.db.calls();
    let ghost read = choose|read: Result<QueryResult, RediSQLError>|
        #[trigger] path_outcome(read) == path_outcome(read) && exec_outcome(
            old(destination).db.calls(),
            c1,
            SELECT_PATH_METADATA@,
            read,
        ) && path_result_is(path, read);
    let destination_path = match path {
        Err(e) => {
            return Err(e);
        },
        Ok(p) => p,
    };
    match source.backup_into(&mut destination.db) {
        Err(e) => Err(RediSQLError::from_engine(e)),
        Ok(()) => {
            let ghost c2 = destination.db.calls();
            restore_previous_statements(destination);
            let ghost c3 = destination.db.calls();
            let ghost m1 = destination.book@;
            let updated = update_path_metadata(&mut destination.db, destination_path.as_str());
            proof {
                assert(restored(c1.push(backup_call(true)), c3, old(destination).book@, m1));
                let n = old(source).calls().len() as int;
                assert(source.calls()[n] == backup_call(true));
                assert(old(source).calls().push(backup_call(false))[n] == backup_call(false));
                assert(source.calls() != old(source).calls().push(backup_call(false)));
                assert(path_outcome(read) == Ok::<Seq<char>, ErrorKind>(destination_path@));
            }
            engine_failure(updated)?;
            Ok(QueryResult::OK)
        },
    }
}

/// The reply `r` to a read whose result was `q`, with the host's appends
/// going from `a0` to `a1` and its clock readings from `c0` to `c1`: the
/// result itself for a plain reply, or for anything but rows; an engine
/// error, with nothing appended, for rows asked to go to a log that have no
/// column or no row; else what streaming them did.
pub open spec fn delivered(
    method: ReturnMethod,
    q: Result<QueryResult, RediSQLError>,
    r: Result<QueryResult, RediSQLError>,
    a0: Seq<AppendRecord>,
    a1: Seq<AppendRecord>,
    c0: Seq<u64>,
    c1: Seq<u64>,
    timeout: u64,
) -> bool {
    match method {
        ReturnMethod::Reply => r == q && a1 == a0 && c1 == c0,
        ReturnMethod::Stream { name } => match q {
            Ok(QueryResult::Array { names, array }) => if names@.len() == 0 || array@.len() == 0
                || array@.len() > i64::MAX {
                (r matches Err(e) && e.kind == ErrorKind::Engine) && a1 == a0 && c1 == c0
            } else {
                stream_outcome(
                    a0,
                    a1,
                    c0,
                    c1,
                    chunks_of(array@, names@.len()),
                    names@,
                    name@,
                    timeout,
                    r,
                )
            },
            _ => r == q && a1 == a0 && c1 == c0,
        },
    }
}

/// The reply to a read: streamed to the named log when asked and the read
/// gave rows, else the read's own result.
pub fn create_data_to_return<C: HostContext>(
    context: &mut StreamContext<C>,
    result: Result<QueryResult, RediSQLError>,
    return_method: &ReturnMethod,
    timeout: u64,
) -> (r: Result<QueryResult, RediSQLError>)
    requires
        !old(context).is_held(),
    ensures
        !final(context).is_held(),
        delivered(
            *return_method,
            result,
            r,
            old(context).appended(),
            final(context).appended(),
            old(context).readings(),
            final(context).readings(),
            timeout,
        ),
{
    match return_method {
        ReturnMethod::Reply => result,
        ReturnMethod::Stream { name } => match result {
            Ok(QueryResult::Array { names, array }) => {
                if names.len() == 0 || array.len() == 0 || array.len() as u64 > i64::MAX as u64 {
                    return Err(
                        RediSQLError::new(
                            ErrorKind::Engine,
                            owned("Nothing to stream"),
                            owned("The result has no column, no row, or too many cells to be streamed."),
                        ),
                    );
                }
                let width = names.len();
                let ghost len = array@.len();
                let ghost cells = array@;
                let mut rows = RowChunks::new(array, width);
                proof {
                    lemma_chunk_count_bound(len, width as nat);
                    assert(chunk_count(len, width as nat) > 0);
                }
                stream_query_result_array(context, name.as_str(), &names, &mut rows, timeout)
            },
            other => other,
        },
    }
}

proof fn lemma_chunk_count_bound(len: nat, width: nat)
    requires
        width > 0,
    ensures
        crate::stream::chunk_count(len, width) <= len,
    decreases len,
{
    if len > width {
        lemma_chunk_count_bound((len - width) as nat, width);
    }
}

/// Whether a command runs against a deadline that has passed at `now`.
pub open spec fn expired(cmd: Command, now: u64) -> bool {
    match cmd {
        Command::Exec { timeout, .. } => now > timeout,
        Command::Query { timeout, .. } => now > timeout,
        Command::ExecStatement { timeout, .. } => now > timeout,
        Command::QueryStatement { timeout, .. } => now > timeout,
        _ => false,
    }
}

/// The cache is as it was: its statements and its rows.
pub open spec fn same_book(a: ReplicationBook, b: ReplicationBook) -> bool {
    a@ == b@ && a.statement_rows() == b.statement_rows()
}

fn deadline_passed(now: u64, timeout: u64) -> (r: Option<Result<QueryResult, RediSQLError>>)
    ensures
        r is Some <==> now > timeout,
        r matches Some(Err(e)) ==> e.kind == ErrorKind::Timeout,
        r matches Some(x) ==> x is Err,
{
    if now > timeout {
        Some(Err(RediSQLError::timeout()))
    } else {
        None
    }
}

/// Runs one command against the instance, at time `now`, and says what the
/// worker does next. Every command but `Stop` gets exactly one reply (or,
/// for a copy, the copy's own). A command whose deadline has passed is
/// answered with a timeout before the engine or the cache is touched. The
/// context slot is empty again when the call returns, on every path.
pub fn execute_command<E: Engine, C: HostContext, T>(
    inst: &mut Instance<E>,
    slot: &mut RedisContextSet<T>,
    host_ctx: T,
    context: &mut StreamContext<C>,
    cmd: Command,
    now: u64,
) -> (r: Step)
    requires
        old(inst).book.wf(),
        !old(context).is_held(),
        old(slot).current is None,
    ensures
        final(inst).book.wf(),
        !final(context).is_held(),
        final(slot).current is None,
        cmd is Stop <==> r is Stop,
        cmd is MakeCopy <==> r is Copy,
        cmd is Stop || cmd is MakeCopy ==> *final(inst) == *old(inst),
        expired(cmd, now) ==> *final(inst) == *old(inst) && *final(context) == *old(context) && (
        r matches Step::Reply(Err(e)) && e.kind == ErrorKind::Timeout),
        cmd matches Command::Exec { query, .. } ==> (!expired(cmd, now) ==> (r matches Step::Reply(
            res,
        ) && exec_outcome(old(inst).db.calls(), final(inst).db.calls(), query@, res) && same_book(
            old(inst).book,
            final(inst).book,
        ))),
        cmd matches Command::Query { query, return_method, timeout } ==> (!expired(cmd, now) ==> (
        r matches Step::Reply(res) && same_book(old(inst).book, final(inst).book) && exists|
            q: Result<QueryResult, RediSQLError>,
        |
            #![trigger query_outcome(old(inst).db.calls(), final(inst).db.calls(), query@, q)]
            query_outcome(old(inst).db.calls(), final(inst).db.calls(), query@, q) && delivered(
                return_method,
                q,
                res,
                old(context).appended(),
                final(context).appended(),
                old(context).readings(),
                final(context).readings(),
                timeout,
            ))),
        cmd matches Command::ExecStatement { identifier, arguments, .. } ==> (!expired(cmd, now)
            && old(inst).book@.contains_key(identifier@) ==> (r matches Step::Reply(res)
            && statement_run(
            old(inst).book@[identifier@],
            string_views(arguments@),
            old(inst).db.calls(),
            final(inst).db.calls(),
            res,
        ) && same_book(old(inst).book, final(inst).book))),
        cmd matches Command::QueryStatement { identifier, arguments, return_method, timeout } ==> (
        !expired(cmd, now) && old(inst).book@.contains_key(identifier@) && old(
            inst,
        ).book@[identifier@].read_only ==> (r matches Step::Reply(res) && same_book(
            old(inst).book,
            final(inst).book,
        ) && exists|q: Result<QueryResult, RediSQLError>|
            #![trigger statement_run(old(inst).book@[identifier@], string_views(arguments@), old(inst).db.calls(), final(inst).db.calls(), q)]
            statement_run(
                old(inst).book@[identifier@],
                string_views(arguments@),
                old(inst).db.calls(),
                final(inst).db.calls(),
                q,
            ) && delivered(
                return_method,
                q,
                res,
                old(context).appended(),
                final(context).appended(),
                old(context).readings(),
                final(context).readings(),
                timeout,
            ))),
        cmd matches Command::CompileStatement { identifier, .. } ==> (!old(inst).book@.contains_key(
            identifier@,
        ) ==> (r matches Step::Reply(res) && (res is Err ==> res->Err_0.kind == ErrorKind::Engine
            && same_book(old(inst).book, final(inst).book)))),
        cmd matches Command::UpdateStatement { identifier, .. } ==> (old(inst).book@.contains_key(
            identifier@,
        ) ==> (r matches Step::Reply(res) && (res is Err ==> res->Err_0.kind == ErrorKind::Engine
            && same_book(old(inst).book, final(inst).book)))),
        cmd matches Command::DeleteStatement { identifier } ==> (old(inst).book@.contains_key(
            identifier@,
        ) ==> (r matches Step::Reply(res) && (res is Err ==> res->Err_0.kind == ErrorKind::Engine
            && same_book(old(inst).book, final(inst).book)))),
        (cmd matches Command::CompileStatement { identifier, .. } && old(
            inst,
        ).book@.contains_key(identifier@)) ==> (r matches Step::Reply(Err(e)) && e.kind
            == ErrorKind::AlreadyExists),
        cmd matches Command::CompileStatement { identifier, statement } ==> (r matches Step::Reply(Ok(_))
            ==> ReplicationBook::inserted(old(inst).book, final(inst).book, identifier@, statement@)),
        cmd matches Command::UpdateStatement { identifier, statement } ==> (r matches Step::Reply(Ok(_))
            ==> ReplicationBook::updated(old(inst).book, final(inst).book, identifier@, statement@)),
        cmd matches Command::DeleteStatement { identifier } ==> (r matches Step::Reply(Ok(_))
            ==> ReplicationBook::deleted(old(inst).book, final(inst).book, identifier@)),
        (cmd matches Command::UpdateStatement { identifier, .. } && !old(
            inst,
        ).book@.contains_key(identifier@)) ==> (r matches Step::Reply(Err(e)) && e.kind
            == ErrorKind::NotFound),
        (cmd matches Command::DeleteStatement { identifier } && !old(inst).book@.contains_key(
            identifier@,
        )) ==> (r matches Step::Reply(Err(e)) && e.kind == ErrorKind::NotFound),
        (cmd matches Command::ExecStatement { identifier, .. } && !expired(cmd, now) && !old(
            inst,
        ).book@.contains_key(identifier@)) ==> (r matches Step::Reply(Err(e)) && e.kind
            == ErrorKind::NotFound),
        (cmd matches Command::QueryStatement { identifier, .. } && !expired(cmd, now) && !old(
            inst,
        ).book@.contains_key(identifier@)) ==> (r matches Step::Reply(Err(e)) && e.kind
            == ErrorKind::NotFound),
        (cmd matches Command::QueryStatement { identifier, .. } && !expired(cmd, now) && old(
            inst,
        ).book@.contains_key(identifier@) && !old(inst).book@[identifier@].read_only) ==> (
        r matches Step::Reply(Err(e)) && e.kind == ErrorKind::NotReadOnly),
{
    match cmd {
        Command::Stop => Step::Stop,
        Command::MakeCopy => Step::Copy,
        Command::Exec { query, timeout } => {
            if let Some(t) = deadline_passed(now, timeout) {
                return Step::Reply(t);
            }
            slot.set(host_ctx);
            let result = do_execute(&mut inst.db, query.as_str());
            let _ = slot.release();
            Step::Reply(result)
        },
        Command::Query { query, timeout, return_method } => {
            if let Some(t) = deadline_passed(now, timeout) {
                return Step::Reply(t);
            }
            slot.set(host_ctx);
            let result = do_query(&mut inst.db, query.as_str());
            let ghost q = result;
            let reply = create_data_to_return(context, result, &return_method, timeout);
            proof {
                assert(query_outcome(old(inst).db.calls(), inst.db.calls(), query@, q));
            }
            let _ = slot.release();
            Step::Reply(reply)
        },
        Command::CompileStatement { identifier, statement } => {
            Step::Reply(
                inst.book.insert_new_statement(
                    &mut inst.db,
                    identifier.as_str(),
                    statement.as_str(),
                ),
            )
        },
        Command::UpdateStatement { identifier, statement } => {
            Step::Reply(
                inst.book.update_statement(&mut inst.db, identifier.as_str(), statement.as_str()),
            )
        },
        Command::DeleteStatement { identifier } => {
            Step::Reply(inst.book.delete_statement(&mut inst.db, identifier.as_str()))
        },
        Command::ExecStatement { identifier, arguments, timeout } => {
            if let Some(t) = deadline_passed(now, timeout) {
                return Step::Reply(t);
            }
            slot.set(host_ctx);
            let result = inst.book.exec_statement(&mut inst.db, identifier.as_str(), &arguments);
            let _ = slot.release();
            Step::Reply(result)
        },
        Command::QueryStatement { identifier, arguments, timeout, return_method } => {
            if let Some(t) = deadline_passed(now, timeout) {
                return Step::Reply(t);
            }
            slot.set(host_ctx);
            let result = inst.book.query_statement(&mut inst.db, identifier.as_str(), &arguments);
            let ghost q = result;
            let reply = create_data_to_return(context, result, &return_method, timeout);
            proof {
                if old(inst).book@.contains_key(identifier@) && old(inst).book@[identifier@].read_only {
                    assert(statement_run(
                        old(inst).book@[identifier@],
                        string_views(arguments@),
                        old(inst).db.calls(),
                        inst.db.calls(),
                        q,
                    ));
                }
            }
            let _ = slot.release();
            Step::Reply(reply)
        },
    }
}

} // verus!
