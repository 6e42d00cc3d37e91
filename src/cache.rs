use vstd::prelude::*;

use fnv::FnvHashMap;

use crate::engine::{
    attempted, bound_run, compile_call, compile_then, prepared_call, ran, result_of, string_views, Connection, Engine, EngineCall, Prepared,
    QueryResult,
};
use crate::metadata::{INSERT_METADATA, REMOVE_STATEMENT_METADATA, UPDATE_STATEMENT_METADATA};
use crate::error::{owned, ErrorKind, RediSQLError};
use crate::metadata::{create_statement, engine_failure, remove_statement, update_statement};

verus! {

/// fnv's hasher, carried as an opaque type.
#[verifier::external_type_specification]
#[verifier::external_body]
pub struct ExFnvHasher(fnv::FnvHasher);

/// std's builder of default hashers, carried as an opaque type.
#[verifier::external_type_specification]
#[verifier::external_body]
#[verifier::reject_recursive_types(H)]
pub struct ExBuildHasherDefault<H>(std::hash::BuildHasherDefault<H>);

/// The compiled statements of one instance, by identifier.
pub type StatementMap = FnvHashMap<String, Prepared>;

/// What a statement map holds: identifier to compiled statement.
pub uninterp spec fn statement_map_contents(m: StatementMap) -> Map<Seq<char>, Prepared>;

/// The contents of an empty statement map.
pub open spec fn no_statements() -> Map<Seq<char>, Prepared> {
    Map::empty()
}

/// Relies on `FnvHashMap::default` (std's `HashMap::default` with fnv's
/// hasher): a new map is empty.
#[verifier::external_body]
fn statement_map_new() -> (r: StatementMap)
    ensures
        statement_map_contents(r) == no_statements(),
{
    FnvHashMap::default()
}

/// Relies on `HashMap::get`: the value under the key, if there is one.
#[verifier::external_body]
fn statement_map_get(m: &StatementMap, key: &str) -> (r: Option<Prepared>)
    ensures
        match r {
            Some(p) => statement_map_contents(*m).contains_key(key@) && statement_map_contents(
                *m,
            )[key@] == p,
            None => !statement_map_contents(*m).contains_key(key@),
        },
{
    m.get(key).copied()
}

/// Relies on `HashMap::insert`: the key then maps to the value, the other
/// keys keep theirs.
#[verifier::external_body]
fn statement_map_insert(m: &mut StatementMap, key: String, value: Prepared)
    ensures
        statement_map_contents(*final(m)) == statement_map_contents(*old(m)).insert(key@, value),
{
    m.insert(key, value);
}

/// Relies on `HashMap::remove`: the key is gone, the other keys keep their
/// values.
#[verifier::external_body]
fn statement_map_remove(m: &mut StatementMap, key: &str)
    ensures
        statement_map_contents(*final(m)) == statement_map_contents(*old(m)).remove(key@),
{
    m.remove(key);
}

/// The statement cache of one instance. Each cached statement has its row in
/// the instance's metadata table, and each statement row there has its
/// cached statement.
pub struct ReplicationBook {
    data: StatementMap,
    rows: Ghost<Map<Seq<char>, Seq<char>>>,
}

impl View for ReplicationBook {
    type V = Map<Seq<char>, Prepared>;

    closed spec fn view(&self) -> Map<Seq<char>, Prepared> {
        statement_map_contents(self.data)
    }
}

impl ReplicationBook {
    /// The statement rows of the instance's metadata table that this cache
    /// holds, identifier to SQL text: those it replayed (a row whose text did
    /// not compile is left out, as it is of the cache), and those it wrote.
    /// Each change
    /// to them comes with the successful run of the metadata statement that
    /// makes it, as the contracts below state.
    pub closed spec fn statement_rows(&self) -> Map<Seq<char>, Seq<char>> {
        self.rows@
    }

    /// Cache entries and statement rows correspond one to one.
    pub open spec fn wf(&self) -> bool {
        self@.dom() == self.statement_rows().dom()
    }

    /// An insert under the identifier is refused: it is cached already.
    pub open spec fn refuses_insert(&self, id: Seq<char>) -> bool {
        self@.contains_key(id)
    }

    /// An update or a delete of the identifier is refused: it is not cached.
    pub open spec fn refuses_change(&self, id: Seq<char>) -> bool {
        !self@.contains_key(id)
    }

    /// `after` is `before` with a statement newly cached and recorded.
    pub open spec fn inserted(before: ReplicationBook, after: ReplicationBook, id: Seq<char>, text: Seq<char>) -> bool {
        &&& after@.dom() == before@.dom().insert(id)
        &&& forall|k: Seq<char>| k != id && before@.contains_key(k) ==> #[trigger] after@[k] == before@[k]
        &&& after.statement_rows() == before.statement_rows().insert(id, text)
    }

    /// `after` is `before` with a cached statement recompiled from new text.
    pub open spec fn updated(before: ReplicationBook, after: ReplicationBook, id: Seq<char>, text: Seq<char>) -> bool {
        &&& before@.contains_key(id)
        &&& after@.dom() == before@.dom()
        &&& forall|k: Seq<char>| k != id && before@.contains_key(k) ==> #[trigger] after@[k] == before@[k]
        &&& after.statement_rows() == before.statement_rows().insert(id, text)
    }

    /// `after` is `before` without the statement.
    pub open spec fn deleted(before: ReplicationBook, after: ReplicationBook, id: Seq<char>) -> bool {
        &&& before@.contains_key(id)
        &&& after@ == before@.remove(id)
        &&& after.statement_rows() == before.statement_rows().remove(id)
    }

    /// An empty cache over an instance with no statement rows.
    pub fn new() -> (r: ReplicationBook)
        ensures
            r.wf(),
            r@ == Map::<Seq<char>, Prepared>::empty(),
            r.statement_rows() == Map::<Seq<char>, Seq<char>>::empty(),
    {
        ReplicationBook { data: statement_map_new(), rows: Ghost(Map::empty()) }
    }

    pub fn is_statement_present(&self, identifier: &str) -> (r: bool)
        ensures
            r == self@.contains_key(identifier@),
    {
        statement_map_get(&self.data, identifier).is_some()
    }

    /// Compiles a new statement, records it in the metadata table and caches
    /// it. An identifier already cached is refused; an engine failure leaves
    /// both the cache and the table as they were.
    pub fn insert_new_statement<E: Engine>(
        &mut self,
        db: &mut Connection<E>,
        identifier: &str,
        statement: &str,
    ) -> (r: Result<QueryResult, RediSQLError>)
        requires
            old(self).wf(),
        ensures
            final(self).wf(),
            old(self).refuses_insert(identifier@) ==> r is Err && r->Err_0.kind
                == ErrorKind::AlreadyExists && r->Err_0.debug@ == "Statement already present"@
                && *final(db) == *old(db),
            !old(self).refuses_insert(identifier@) ==> compile_then(
                old(db).calls(),
                final(db).calls(),
                statement@,
                INSERT_METADATA@,
                seq!["statement"@, identifier@, statement@],
                r is Ok,
            ),
            r is Err ==> final(self)@ == old(self)@ && final(self).statement_rows() == old(self).statement_rows(),
            r is Err && !old(self).refuses_insert(identifier@) ==> r->Err_0.kind
                == ErrorKind::Engine,
            r is Ok ==> {
                &&& r matches Ok(QueryResult::OK)
                &&& !old(self).refuses_insert(identifier@)
                &&& ReplicationBook::inserted(*old(self), *final(self), identifier@, statement@)
                &&& ran(
                    old(db).calls().push(prepared_call(statement@, final(self)@[identifier@])),
                    final(db).calls(),
                    INSERT_METADATA@,
                    seq!["statement"@, identifier@, statement@],
                )
            },
    {
        if statement_map_get(&self.data, identifier).is_some() {
            return Err(
                RediSQLError::new(
                    ErrorKind::AlreadyExists,
                    owned("Statement already present"),
                    owned(
                        "The statement is already present in the database, try with UPDATE_STATEMENT",
                    ),
                ),
            );
        }
        let stmt = create_statement(db, identifier, statement)?;
        statement_map_insert(&mut self.data, owned(identifier), stmt);
        self.rows = Ghost(self.rows@.insert(identifier@, statement@));
        proof {
            assert(self@.dom() =~= old(self)@.dom().insert(identifier@));
        }
        Ok(QueryResult::OK)
    }

    /// Deletes a cached statement and its metadata row. An identifier not
    /// cached is refused; an engine failure leaves both as they were.
    pub fn delete_statement<E: Engine>(&mut self, db: &mut Connection<E>, identifier: &str) -> (r: Result<
        QueryResult,
        RediSQLError,
    >)
        requires
            old(self).wf(),
        ensures
            final(self).wf(),
            old(self).refuses_change(identifier@) ==> r is Err && r->Err_0.kind
                == ErrorKind::NotFound && r->Err_0.debug@ == "Statement not present."@
                && *final(db) == *old(db),
            !old(self).refuses_change(identifier@) ==> attempted(
                old(db).calls(),
                final(db).calls(),
                REMOVE_STATEMENT_METADATA@,
                seq![identifier@],
                r is Ok,
            ),
            r is Err ==> final(self)@ == old(self)@ && final(self).statement_rows() == old(self).statement_rows(),
            r is Err && old(self)@.contains_key(identifier@) ==> r->Err_0.kind
                == ErrorKind::Engine,
            r is Ok ==> {
                &&& r matches Ok(QueryResult::OK)
                &&& ReplicationBook::deleted(*old(self), *final(self), identifier@)
                &&& ran(
                    old(db).calls(),
                    final(db).calls(),
                    REMOVE_STATEMENT_METADATA@,
                    seq![identifier@],
                )
            },
    {
        if statement_map_get(&self.data, identifier).is_none() {
            return Err(
                RediSQLError::new(
                    ErrorKind::NotFound,
                    owned("Statement not present."),
                    owned(
                        "The statement is not present in the database, impossible to delete it.",
                    ),
                ),
            );
        }
        remove_statement(db, identifier)?;
        statement_map_remove(&mut self.data, identifier);
        self.rows = Ghost(self.rows@.remove(identifier@));
        Ok(QueryResult::OK)
    }

    /// Compiles the new text of a cached statement, rewrites its metadata
    /// row and replaces it in the cache. An identifier not cached is
    /// refused; an engine failure leaves both as they were.
    pub fn update_statement<E: Engine>(
        &mut self,
        db: &mut Connection<E>,
        identifier: &str,
        statement: &str,
    ) -> (r: Result<QueryResult, RediSQLError>)
        requires
            old(self).wf(),
        ensures
            final(self).wf(),
            old(self).refuses_change(identifier@) ==> r is Err && r->Err_0.kind
                == ErrorKind::NotFound && r->Err_0.debug@ == "Statement not present."@
                && *final(db) == *old(db),
            !old(self).refuses_change(identifier@) ==> compile_then(
                old(db).calls(),
                final(db).calls(),
                statement@,
                UPDATE_STATEMENT_METADATA@,
                seq![statement@, identifier@],
                r is Ok,
            ),
            r is Err ==> final(self)@ == old(self)@ && final(self).statement_rows() == old(self).statement_rows(),
            r is Err && old(self)@.contains_key(identifier@) ==> r->Err_0.kind
                == ErrorKind::Engine,
            r is Ok ==> {
                &&& r matches Ok(QueryResult::OK)
                &&& ReplicationBook::updated(*old(self), *final(self), identifier@, statement@)
                &&& ran(
                    old(db).calls().push(prepared_call(statement@, final(self)@[identifier@])),
                    final(db).calls(),
                    UPDATE_STATEMENT_METADATA@,
                    seq![statement@, identifier@],
                )
            },
    {
        if statement_map_get(&self.data, identifier).is_none() {
            return Err(
                RediSQLError::new(
                    ErrorKind::NotFound,
                    owned("Statement not present."),
                    owned(
                        "The statement is not present in the database, impossible to update it.",
                    ),
                ),
            );
        }
        let stmt = update_statement(db, identifier, statement)?;
        statement_map_insert(&mut self.data, owned(identifier), stmt);
        self.rows = Ghost(self.rows@.insert(identifier@, statement@));
        proof {
            assert(self@.dom() =~= old(self)@.dom());
        }
        Ok(QueryResult::OK)
    }

    /// Runs a cached statement that leaves the database as it is, bound to
    /// the arguments. A statement that may modify the database is refused
    /// before the engine is touched.
    pub fn query_statement<E: Engine>(
        &self,
        db: &mut Connection<E>,
        identifier: &str,
        args: &Vec<String>,
    ) -> (r: Result<QueryResult, RediSQLError>)
        ensures
            !self@.contains_key(identifier@) ==> r is Err && r->Err_0.kind == ErrorKind::NotFound
                && r->Err_0.debug@ == "No statement found"@ && *final(db) == *old(db),
            self@.contains_key(identifier@) && !self@[identifier@].read_only ==> r is Err
                && r->Err_0.kind == ErrorKind::NotReadOnly && r->Err_0.debug@
                == "Not read only statement"@ && *final(db) == *old(db),
            self@.contains_key(identifier@) && self@[identifier@].read_only && r is Err
                ==> r->Err_0.kind == ErrorKind::Engine,
            self@.contains_key(identifier@) && self@[identifier@].read_only ==> statement_run(
                self@[identifier@],
                string_views(args@),
                old(db).calls(),
                final(db).calls(),
                r,
            ),
    {
        match statement_map_get(&self.data, identifier) {
            None => Err(
                RediSQLError::new(
                    ErrorKind::NotFound,
                    owned("No statement found"),
                    owned("The statement is not present in the database"),
                ),
            ),
            Some(stmt) => {
                if stmt.read_only {
                    run_bound(db, &stmt, args)
                } else {
                    Err(
                        RediSQLError::new(
                            ErrorKind::NotReadOnly,
                            owned("Not read only statement"),
                            owned(
                                "Statement is not read only but it may modify the database, use `EXEC_STATEMENT` instead.",
                            ),
                        ),
                    )
                }
            },
        }
    }

    /// Runs a cached statement bound to the arguments, whether or not it
    /// modifies the database.
    pub fn exec_statement<E: Engine>(
        &self,
        db: &mut Connection<E>,
        identifier: &str,
        args: &Vec<String>,
    ) -> (r: Result<QueryResult, RediSQLError>)
        ensures
            !self@.contains_key(identifier@) ==> r is Err && r->Err_0.kind == ErrorKind::NotFound
                && r->Err_0.debug@ == "No statement found"@ && *final(db) == *old(db),
            self@.contains_key(identifier@) && r is Err ==> r->Err_0.kind == ErrorKind::Engine,
            self@.contains_key(identifier@) ==> statement_run(
                self@[identifier@],
                string_views(args@),
                old(db).calls(),
                final(db).calls(),
                r,
            ),
    {
        match statement_map_get(&self.data, identifier) {
            None => Err(
                RediSQLError::new(
                    ErrorKind::NotFound,
                    owned("No statement found"),
                    owned("The statement is not present in the database"),
                ),
            ),
            Some(stmt) => run_bound(db, &stmt, args),
        }
    }

    /// Caches a statement whose row the metadata table already holds, as
    /// when the rows are replayed on start-up or after a copy. The table is
    /// not written.
    pub fn restore_statement<E: Engine>(
        &mut self,
        db: &mut Connection<E>,
        identifier: &str,
        statement: &str,
    ) -> (r: Result<QueryResult, RediSQLError>)
        requires
            old(self).wf(),
        ensures
            final(self).wf(),
            old(self)@.contains_key(identifier@) ==> r is Err && r->Err_0.kind
                == ErrorKind::AlreadyExists && *final(db) == *old(db),
            r is Err ==> final(self)@ == old(self)@ && final(self).statement_rows() == old(self).statement_rows(),
            !old(self)@.contains_key(identifier@) ==> exists|res: Option<Prepared>|
                #![trigger compile_call(statement@, res)]
                final(db).calls() == old(db).calls().push(compile_call(statement@, res))
                    && final(self)@ == cache_after_compile(old(self)@, identifier@, res) && (r is Ok
                    <==> res is Some),
            r is Ok ==> {
                &&& !old(self)@.contains_key(identifier@)
                &&& final(self)@.dom() == old(self)@.dom().insert(identifier@)
                &&& final(self).statement_rows() == old(self).statement_rows().insert(identifier@, statement@)
            },
    {
        if statement_map_get(&self.data, identifier).is_some() {
            return Err(
                RediSQLError::new(
                    ErrorKind::AlreadyExists,
                    owned("Statement already exists"),
                    owned("Impossible to overwrite it with this command, try with UPDATE_STATEMENT"),
                ),
            );
        }
        let prepared = db.prepare(statement);
        proof {
            assert(db.calls() == old(db).calls().push(compile_call(statement@, result_of(prepared))));
        }
        let stmt = engine_failure(prepared)?;
        statement_map_insert(&mut self.data, owned(identifier), stmt);
        self.rows = Ghost(self.rows@.insert(identifier@, statement@));
        proof {
            assert(self@.dom() =~= old(self)@.dom().insert(identifier@));
        }
        Ok(QueryResult::OK)
    }
}

/// The operations of a statement cache kept in step with the metadata
/// table of its instance.
pub trait StatementCache: Sized {
    /// The cache's entries and the table's statement rows correspond.
    spec fn consistent(&self) -> bool;

    fn is_statement_present(&self, identifier: &str) -> bool;

    fn insert_new_statement<E: Engine>(&mut self, db: &mut Connection<E>, identifier: &str, statement: &str) -> (r: Result<QueryResult, RediSQLError>)
        requires
            old(self).consistent(),
        ensures
            final(self).consistent(),
    ;

    fn delete_statement<E: Engine>(&mut self, db: &mut Connection<E>, identifier: &str) -> (r: Result<QueryResult, RediSQLError>)
        requires
            old(self).consistent(),
        ensures
            final(self).consistent(),
    ;

    fn update_statement<E: Engine>(&mut self, db: &mut Connection<E>, identifier: &str, statement: &str) -> (r: Result<QueryResult, RediSQLError>)
        requires
            old(self).consistent(),
        ensures
            final(self).consistent(),
    ;

    fn exec_statement<E: Engine>(&self, db: &mut Connection<E>, identifier: &str, args: &Vec<String>) -> Result<QueryResult, RediSQLError>;

    fn query_statement<E: Engine>(&self, db: &mut Connection<E>, identifier: &str, args: &Vec<String>) -> Result<QueryResult, RediSQLError>;
}

impl StatementCache for ReplicationBook {
    open spec fn consistent(&self) -> bool {
        self.wf()
    }

    fn is_statement_present(&self, identifier: &str) -> bool {
        ReplicationBook::is_statement_present(self, identifier)
    }

    fn insert_new_statement<E: Engine>(&mut self, db: &mut Connection<E>, identifier: &str, statement: &str) -> (r: Result<QueryResult, RediSQLError>) {
        ReplicationBook::insert_new_statement(self, db, identifier, statement)
    }

    fn delete_statement<E: Engine>(&mut self, db: &mut Connection<E>, identifier: &str) -> (r: Result<QueryResult, RediSQLError>) {
        ReplicationBook::delete_statement(self, db, identifier)
    }

    fn update_statement<E: Engine>(&mut self, db: &mut Connection<E>, identifier: &str, statement: &str) -> (r: Result<QueryResult, RediSQLError>) {
        ReplicationBook::update_statement(self, db, identifier, statement)
    }

    fn exec_statement<E: Engine>(&self, db: &mut Connection<E>, identifier: &str, args: &Vec<String>) -> Result<QueryResult, RediSQLError> {
        ReplicationBook::exec_statement(self, db, identifier, args)
    }

    fn query_statement<E: Engine>(&self, db: &mut Connection<E>, identifier: &str, args: &Vec<String>) -> Result<QueryResult, RediSQLError> {
        ReplicationBook::query_statement(self, db, identifier, args)
    }
}

/// Statement rows and cache entries correspond one to one after any
/// successful insert, update or delete, and so after any sequence of them.
pub proof fn lemma_changes_keep_correspondence(
    before: ReplicationBook,
    after: ReplicationBook,
    id: Seq<char>,
    text: Seq<char>,
)
    requires
        before.wf(),
        ReplicationBook::inserted(before, after, id, text) || ReplicationBook::updated(
            before,
            after,
            id,
            text,
        ) || ReplicationBook::deleted(before, after, id),
    ensures
        after.wf(),
{
    assert(after@.dom() =~= after.statement_rows().dom());
}

/// Once an insert under an identifier has succeeded, a second insert under
/// it, whatever its text, is refused with `AlreadyExists`.
pub proof fn lemma_insert_then_insert_refused(
    before: ReplicationBook,
    after: ReplicationBook,
    id: Seq<char>,
    text: Seq<char>,
)
    requires
        before.wf(),
        ReplicationBook::inserted(before, after, id, text),
    ensures
        after.refuses_insert(id),
        after.wf(),
{
    assert(after@.dom().contains(id));
}

/// An update or a delete of an identifier that the cache does not hold is
/// refused with `NotFound`, and so is one of an identifier just deleted.
pub proof fn lemma_absent_change_refused(book: ReplicationBook, after_delete: ReplicationBook, id: Seq<char>)
    requires
        after_delete@ == book@.remove(id),
    ensures
        !book@.contains_key(id) ==> book.refuses_change(id),
        after_delete.refuses_change(id),
{
}

/// The cache once the identifier's text compiled to `res`: it holds the
/// statement when compiling succeeded.
pub open spec fn cache_after_compile(m: Map<Seq<char>, Prepared>, id: Seq<char>, res: Option<Prepared>) -> Map<Seq<char>, Prepared> {
    match res {
        Some(p) => m.insert(id, p),
        None => m,
    }
}

/// `after` is `before` followed by a run of the cached statement with the
/// values bound: a reset, the binding, and the execution when binding
/// worked. `r` is the engine's result when both succeeded, else an engine
/// error.
pub open spec fn statement_run(
    stmt: Prepared,
    values: Seq<Seq<char>>,
    before: Seq<EngineCall>,
    after: Seq<EngineCall>,
    r: Result<QueryResult, RediSQLError>,
) -> bool {
    exists|bind_ok: bool, res: Option<QueryResult>|
        #![trigger bound_run(stmt, values, bind_ok, res)]
        after == before + bound_run(stmt, values, bind_ok, res) && (r is Ok <==> bind_ok && res is Some)
            && (r matches Ok(v) ==> res == Some(v)) && (r matches Err(e) ==> e.kind
            == ErrorKind::Engine)
}

/// Resets a statement and binds the arguments to it.
pub fn bind_statement<E: Engine>(db: &mut Connection<E>, stmt: &Prepared, args: &Vec<String>) -> (r: Result<
    (),
    RediSQLError,
>)
    ensures
        r is Err ==> r->Err_0.kind == ErrorKind::Engine,
        final(db).calls() == old(db).calls() + bound_run(*stmt, string_views(args@), r is Ok, None).take(2),
{
    db.reset(stmt);
    let r = engine_failure(db.bind_texts(stmt, args));
    proof {
        assert(db.calls() =~= old(db).calls() + bound_run(*stmt, string_views(args@), r is Ok, None).take(2));
    }
    r
}

/// Resets a statement, binds the arguments to it and, when binding worked,
/// runs it.
fn run_bound<E: Engine>(db: &mut Connection<E>, stmt: &Prepared, args: &Vec<String>) -> (r: Result<
    QueryResult,
    RediSQLError,
>)
    ensures
        statement_run(*stmt, string_views(args@), old(db).calls(), final(db).calls(), r),
{
    let bound = bind_statement(db, stmt, args);
    if bound.is_err() {
        proof {
            assert(db.calls() =~= old(db).calls() + bound_run(*stmt, string_views(args@), false, None));
        }
        return Err(bound.unwrap_err());
    }
    let res = db.execute(stmt);
    proof {
        assert(db.calls() =~= old(db).calls() + bound_run(*stmt, string_views(args@), true, result_of(res)));
    }
    engine_failure(res)
}

} // verus!
