use vstd::prelude::*;

use crate::error::{ErrorKind, RediSQLError, SQLite3Error};

verus! {

/// One cell of a result row.
#[derive(Clone, Debug)]
pub enum Entity {
    Integer { int: i64 },
    /// A floating-point value, as the decimal text the engine renders.
    Real { text: String },
    Text { text: String },
    Blob { blob: String },
    Null,
    OK,
    DONE { modified_rows: i32 },
}

impl Entity {
    /// A copy of the cell.
    pub fn duplicate(&self) -> (r: Entity)
        ensures
            r == *self,
    {
        match self {
            Entity::Integer { int: v } => Entity::Integer { int: *v },
            Entity::Real { text } => Entity::Real { text: text.clone() },
            Entity::Text { text } => Entity::Text { text: text.clone() },
            Entity::Blob { blob } => Entity::Blob { blob: blob.clone() },
            Entity::Null => Entity::Null,
            Entity::OK => Entity::OK,
            Entity::DONE { modified_rows } => Entity::DONE { modified_rows: *modified_rows },
        }
    }
}

/// What executing a statement produced.
#[derive(Clone, Debug)]
pub enum QueryResult {
    OK,
    DONE { modified_rows: i32 },
    /// The rows one after the other, `names.len()` cells each.
    Array { names: Vec<String>, array: Vec<Entity> },
}

/// A statement compiled by the engine: its handle, and whether executing it
/// leaves the database as it is.
#[derive(Clone, Copy, Debug, PartialEq, Eq, Structural)]
pub struct Prepared {
    pub handle: u64,
    pub read_only: bool,
}

/// The embedded SQL engine of one instance. It is a black box: this library
/// decides which calls are made and in which order, never what they return.
pub trait Engine {
    /// Compiles the SQL text into a statement.
    fn prepare(&mut self, sql: &str) -> Result<Prepared, SQLite3Error>;

    /// Puts a statement back at its start, dropping earlier bindings' effects.
    fn reset(&mut self, stmt: &Prepared);

    /// Binds one text value to the parameter at `index` (counting from one).
    fn bind_index(&mut self, stmt: &Prepared, index: i32, value: &str) -> Result<
        (),
        SQLite3Error,
    >;

    /// Binds the values, in order, to the statement's parameters.
    fn bind_texts(&mut self, stmt: &Prepared, values: &Vec<String>) -> Result<(), SQLite3Error>;

    /// Runs the statement to completion.
    fn execute(&mut self, stmt: &Prepared) -> Result<QueryResult, SQLite3Error>;

    /// Opens the database stored at the path.
    fn open(path: &str) -> Result<Self, SQLite3Error> where Self: Sized;

    /// Copies this database, page by page, over `destination`.
    fn backup_into(&mut self, destination: &mut Self) -> Result<(), SQLite3Error>;
}

/// A call made to the engine, with how it ended.
pub enum EngineCall {
    Prepare { sql: Seq<char>, result: Option<Prepared> },
    Reset { stmt: Prepared },
    BindIndex { stmt: Prepared, index: i32, value: Seq<char>, ok: bool },
    BindTexts { stmt: Prepared, values: Seq<Seq<char>>, ok: bool },
    Execute { stmt: Prepared, result: Option<QueryResult> },
    Backup { ok: bool },
}

/// The texts of a list of strings.
pub open spec fn string_views(v: Seq<String>) -> Seq<Seq<char>> {
    v.map_values(|s: String| s@)
}

/// An instance's engine, with the record of every call this library made
/// to it.
pub struct Connection<E> {
    engine: E,
    log: Ghost<Seq<EngineCall>>,
}

impl<E> Connection<E> {
    /// The engine behind this connection.
    pub closed spec fn engine_view(&self) -> E {
        self.engine
    }

    /// The engine, to look at; calls to it go through the connection.
    pub fn engine(&self) -> (r: &E)
        ensures
            *r == self.engine_view(),
    {
        &self.engine
    }

    /// Gives the engine up, ending the connection's record.
    pub fn into_engine(self) -> (r: E)
        ensures
            r == self.engine_view(),
    {
        self.engine
    }
}

impl<E: Engine> Connection<E> {
    /// The calls made through this connection, oldest first.
    pub closed spec fn calls(&self) -> Seq<EngineCall> {
        self.log@
    }

    pub fn new(engine: E) -> (r: Connection<E>)
        ensures
            r.calls() == Seq::<EngineCall>::empty(),
    {
        Connection { engine, log: Ghost(Seq::empty()) }
    }

    pub fn prepare(&mut self, sql: &str) -> (r: Result<Prepared, SQLite3Error>)
        ensures
            final(self).calls() == old(self).calls().push(
                EngineCall::Prepare {
                    sql: sql@,
                    result: match r {
                        Ok(p) => Some(p),
                        Err(_) => None,
                    },
                },
            ),
    {
        let r = self.engine.prepare(sql);
        self.log = Ghost(
            self.log@.push(
                EngineCall::Prepare {
                    sql: sql@,
                    result: match r {
                        Ok(p) => Some(p),
                        Err(_) => None,
                    },
                },
            ),
        );
        r
    }

    pub fn reset(&mut self, stmt: &Prepared)
        ensures
            final(self).calls() == old(self).calls().push(EngineCall::Reset { stmt: *stmt }),
    {
        self.engine.reset(stmt);
        self.log = Ghost(self.log@.push(EngineCall::Reset { stmt: *stmt }));
    }

    pub fn bind_index(&mut self, stmt: &Prepared, index: i32, value: &str) -> (r: Result<
        (),
        SQLite3Error,
    >)
        ensures
            final(self).calls() == old(self).calls().push(
                EngineCall::BindIndex { stmt: *stmt, index, value: value@, ok: r is Ok },
            ),
    {
        let r = self.engine.bind_index(stmt, index, value);
        self.log = Ghost(
            self.log@.push(EngineCall::BindIndex { stmt: *stmt, index, value: value@, ok: r is Ok }),
        );
        r
    }

    pub fn bind_texts(&mut self, stmt: &Prepared, values: &Vec<String>) -> (r: Result<
        (),
        SQLite3Error,
    >)
        ensures
            final(self).calls() == old(self).calls().push(
                EngineCall::BindTexts { stmt: *stmt, values: string_views(values@), ok: r is Ok },
            ),
    {
        let r = self.engine.bind_texts(stmt, values);
        self.log = Ghost(
            self.log@.push(
                EngineCall::BindTexts { stmt: *stmt, values: string_views(values@), ok: r is Ok },
            ),
        );
        r
    }

    pub fn execute(&mut self, stmt: &Prepared) -> (r: Result<QueryResult, SQLite3Error>)
        ensures
            final(self).calls() == old(self).calls().push(execute_call(*stmt, result_of(r))),
    {
        let r = self.engine.execute(stmt);
        self.log = Ghost(self.log@.push(execute_call(*stmt, result_of(r))));
        r
    }

    /// Opens the database stored at the path.
    pub fn open(path: &str) -> (r: Result<Connection<E>, SQLite3Error>)
        ensures
            r matches Ok(c) ==> c.calls() == Seq::<EngineCall>::empty(),
    {
        let engine = E::open(path)?;
        Ok(Connection::new(engine))
    }

    /// Copies this database over the destination's; both record the copy.
    pub fn backup_into(&mut self, destination: &mut Connection<E>) -> (r: Result<(), SQLite3Error>)
        ensures
            final(self).calls() == old(self).calls().push(EngineCall::Backup { ok: r is Ok }),
            final(destination).calls() == old(destination).calls().push(
                EngineCall::Backup { ok: r is Ok },
            ),
    {
        let r = self.engine.backup_into(&mut destination.engine);
        self.log = Ghost(self.log@.push(EngineCall::Backup { ok: r is Ok }));
        destination.log = Ghost(destination.log@.push(EngineCall::Backup { ok: r is Ok }));
        r
    }
}

/// A compilation of `sql`, with the statement it gave, if any.
pub open spec fn compile_call(sql: Seq<char>, result: Option<Prepared>) -> EngineCall {
    EngineCall::Prepare { sql, result }
}

/// A successful compilation of `sql` into `stmt`.
pub open spec fn prepared_call(sql: Seq<char>, stmt: Prepared) -> EngineCall {
    EngineCall::Prepare { sql, result: Some(stmt) }
}

/// A page-level copy, and whether it succeeded.
pub open spec fn backup_call(ok: bool) -> EngineCall {
    EngineCall::Backup { ok }
}

/// A successful binding of a value to a statement's parameter.
pub open spec fn bound_call(stmt: Prepared, index: i32, value: Seq<char>) -> EngineCall {
    EngineCall::BindIndex { stmt, index, value, ok: true }
}

/// An execution of a statement, with the result it gave, if any.
pub open spec fn execute_call(stmt: Prepared, result: Option<QueryResult>) -> EngineCall {
    EngineCall::Execute { stmt, result }
}

/// What an engine call returned, when it succeeded.
pub open spec fn result_of<T, F>(r: Result<T, F>) -> Option<T> {
    match r {
        Ok(v) => Some(v),
        Err(_) => None,
    }
}

/// The calls of an attempt to run `sql` once: the compilation, and when it
/// succeeded, the execution.
pub open spec fn attempt_calls(sql: Seq<char>, prep: Option<Prepared>, res: Option<QueryResult>) -> Seq<EngineCall> {
    match prep {
        None => seq![EngineCall::Prepare { sql, result: None }],
        Some(p) => seq![EngineCall::Prepare { sql, result: Some(p) }, execute_call(p, res)],
    }
}

/// `after` is `before` followed by one attempt to run `sql`, and `r` is what
/// the engine gave: its result when both calls succeeded, else an engine
/// error.
pub open spec fn exec_outcome(
    before: Seq<EngineCall>,
    after: Seq<EngineCall>,
    sql: Seq<char>,
    r: Result<QueryResult, RediSQLError>,
) -> bool {
    exists|prep: Option<Prepared>, res: Option<QueryResult>|
        #![trigger attempt_calls(sql, prep, res)]
        after == before + attempt_calls(sql, prep, res) && (r is Ok <==> prep is Some && res is Some)
            && (r matches Ok(v) ==> res == Some(v)) && (r matches Err(e) ==> e.kind
            == ErrorKind::Engine)
}

/// `after` is `before` followed by a successful run of `sql` with the
/// values bound to its parameters one, two, and so on: the statement
/// compiled, each value bound, and the statement executed.
pub open spec fn ran(
    before: Seq<EngineCall>,
    after: Seq<EngineCall>,
    sql: Seq<char>,
    values: Seq<Seq<char>>,
) -> bool {
    let n = before.len() as int;
    &&& after.len() == n + values.len() + 2
    &&& after.take(n) == before
    &&& after[n] matches EngineCall::Prepare { sql: s, result: Some(p) } && s == sql && (forall|i: int|
        0 <= i < values.len() ==> #[trigger] after[n + 1 + i] == bound_call(p, (i + 1) as i32, values[i]))
        && (after[n + 1 + values.len()] matches EngineCall::Execute { stmt: e, result: Some(_) } && e == p)
}

/// The calls of a run of a compiled statement with the values bound to it:
/// a reset, the binding, then, when the binding succeeded, the execution.
pub open spec fn bound_run(stmt: Prepared, values: Seq<Seq<char>>, bind_ok: bool, res: Option<QueryResult>) -> Seq<EngineCall> {
    let head = seq![EngineCall::Reset { stmt }, EngineCall::BindTexts { stmt, values, ok: bind_ok }];
    if bind_ok {
        head.push(execute_call(stmt, res))
    } else {
        head
    }
}

/// The calls of a successful run of `sql` with the values bound, as the
/// statement `p`.
pub open spec fn run_calls(p: Prepared, sql: Seq<char>, values: Seq<Seq<char>>, q: QueryResult) -> Seq<EngineCall> {
    seq![EngineCall::Prepare { sql, result: Some(p) }] + Seq::new(
        values.len(),
        |i: int| bound_call(p, (i + 1) as i32, values[i]),
    ) + seq![execute_call(p, Some(q))]
}

pub proof fn lemma_ran(before: Seq<EngineCall>, p: Prepared, sql: Seq<char>, values: Seq<Seq<char>>, q: QueryResult)
    ensures
        ran(before, before + run_calls(p, sql, values, q), sql, values),
{
    let after = before + run_calls(p, sql, values, q);
    let n = before.len() as int;
    assert(after.take(n) =~= before);
    assert(after[n] == EngineCall::Prepare { sql, result: Some(p) });
    assert forall|i: int| 0 <= i < values.len() implies #[trigger] after[n + 1 + i] == bound_call(
        p,
        (i + 1) as i32,
        values[i],
    ) by {
        assert(after[n + 1 + i] == run_calls(p, sql, values, q)[1 + i]);
    }
    assert(after[n + 1 + values.len()] == run_calls(p, sql, values, q)[1 + values.len() as int]);
}

/// The texts of a list of string slices.
pub open spec fn str_views(v: Seq<&str>) -> Seq<Seq<char>> {
    v.map_values(|s: &str| s@)
}

/// The successful bindings of `values[j..i]` to parameters `j + 1` on.
pub open spec fn ok_binds(p: Prepared, values: Seq<Seq<char>>, j: nat, i: nat) -> Seq<EngineCall> {
    Seq::new((i - j) as nat, |k: int| bound_call(p, (j + k + 1) as i32, values[j + k]))
}

/// Reads `calls` as what follows a successful compilation into `p`: the
/// bindings of `values` from the `i`th on, one after the other, then the
/// execution; a failed binding ends the calls. Whether all of them
/// succeeded, or `None` when the calls are not of that shape.
pub open spec fn binds_log(p: Prepared, values: Seq<Seq<char>>, i: nat, calls: Seq<EngineCall>) -> Option<bool>
    decreases values.len() - i,
{
    if i >= values.len() {
        if calls.len() == 1 {
            match calls[0] {
                EngineCall::Execute { stmt, result } => if stmt == p {
                    Some(result is Some)
                } else {
                    None
                },
                _ => None,
            }
        } else {
            None
        }
    } else if calls.len() > 0 {
        match calls[0] {
            EngineCall::BindIndex { stmt, index, value, ok } => if stmt == p && index == (i + 1) as i32
                && value == values[i as int] {
                if ok {
                    binds_log(p, values, i + 1, calls.drop_first())
                } else if calls.len() == 1 {
                    Some(false)
                } else {
                    None
                }
            } else {
                None
            },
            _ => None,
        }
    } else {
        None
    }
}

/// Reads `calls` as one attempt to run `sql` with `values` bound: the
/// compilation, the bindings and the execution, ending at the first
/// failure. Whether every call succeeded, or `None` when the calls are not
/// of that shape.
pub open spec fn run_log(sql: Seq<char>, values: Seq<Seq<char>>, calls: Seq<EngineCall>) -> Option<bool> {
    if calls.len() == 0 {
        None
    } else {
        match calls[0] {
            EngineCall::Prepare { sql: s, result } => if s != sql {
                None
            } else {
                match result {
                    None => if calls.len() == 1 {
                        Some(false)
                    } else {
                        None
                    },
                    Some(p) => binds_log(p, values, 0, calls.drop_first()),
                }
            },
            _ => None,
        }
    }
}

proof fn lemma_binds_prefix(p: Prepared, values: Seq<Seq<char>>, j: nat, i: nat, tail: Seq<EngineCall>)
    requires
        j <= i <= values.len(),
    ensures
        binds_log(p, values, j, ok_binds(p, values, j, i) + tail) == binds_log(p, values, i, tail),
    decreases i - j,
{
    if j < i {
        let c = ok_binds(p, values, j, i) + tail;
        assert(c[0] == bound_call(p, (j + 1) as i32, values[j as int]));
        assert(c.drop_first() =~= ok_binds(p, values, j + 1, i) + tail);
        lemma_binds_prefix(p, values, j + 1, i, tail);
    } else {
        assert(ok_binds(p, values, j, i) + tail =~= tail);
    }
}

/// `after` is `before` followed by one attempt to run `sql` with `values`
/// bound, ending at the first failure; `ok` says whether every call
/// succeeded.
pub open spec fn attempted(
    before: Seq<EngineCall>,
    after: Seq<EngineCall>,
    sql: Seq<char>,
    values: Seq<Seq<char>>,
    ok: bool,
) -> bool {
    &&& after.len() > before.len()
    &&& after.take(before.len() as int) == before
    &&& run_log(sql, values, after.skip(before.len() as int)) == Some(ok)
}

/// The text a compilation call was for.
pub open spec fn compiled_text(c: EngineCall) -> Seq<char> {
    match c {
        EngineCall::Prepare { sql, .. } => sql,
        _ => Seq::empty(),
    }
}

/// The statement a compilation call gave, if any.
pub open spec fn compiled(c: EngineCall) -> Option<Prepared> {
    match c {
        EngineCall::Prepare { result, .. } => result,
        _ => None,
    }
}

/// `after` is `before` followed by the compilation of `text` and, when that
/// succeeded, one attempt to run `sql` with `values`; `ok` says whether
/// every call succeeded.
pub open spec fn compile_then(
    before: Seq<EngineCall>,
    after: Seq<EngineCall>,
    text: Seq<char>,
    sql: Seq<char>,
    values: Seq<Seq<char>>,
    ok: bool,
) -> bool {
    let n = before.len() as int;
    &&& after.len() > n
    &&& after.take(n) == before
    &&& after[n] is Prepare
    &&& compiled_text(after[n]) == text
    &&& compiled(after[n]) is None ==> after.len() == n + 1 && !ok
    &&& compiled(after[n]) is Some ==> attempted(after.take(n + 1), after, sql, values, ok)
}

/// Compiles `sql`, binds the values to its parameters one, two and so on,
/// and executes it, stopping at the first failure. It succeeds exactly when
/// every engine call did.
pub fn run_with<E: Engine>(db: &mut Connection<E>, sql: &str, values: &Vec<&str>) -> (r: Result<
    (),
    SQLite3Error,
>)
    requires
        values@.len() < i32::MAX,
    ensures
        final(db).calls().len() > old(db).calls().len(),
        final(db).calls().take(old(db).calls().len() as int) == old(db).calls(),
        attempted(old(db).calls(), final(db).calls(), sql@, str_views(values@), r is Ok),
        r is Ok ==> ran(old(db).calls(), final(db).calls(), sql@, str_views(values@)),
{
    let ghost before = db.calls();
    let ghost vals = str_views(values@);
    let ghost n0 = before.len();
    let prepared = db.prepare(sql);
    let p = match prepared {
        Err(e) => {
            proof {
                assert(db.calls().take(n0 as int) =~= before);
                assert(db.calls().skip(n0 as int) =~= seq![compile_call(sql@, None)]);
            }
            return Err(e);
        },
        Ok(p) => p,
    };
    let mut i: usize = 0;
    proof {
        assert(db.calls() =~= before + seq![prepared_call(sql@, p)] + ok_binds(p, vals, 0, 0));
    }
    while i < values.len()
        invariant
            values@.len() < i32::MAX,
            vals == str_views(values@),
            i <= values@.len(),
            n0 == before.len(),
            before == old(db).calls(),
            db.calls() == before + seq![prepared_call(sql@, p)] + ok_binds(p, vals, 0, i as nat),
        decreases values@.len() - i,
    {
        let ghost mid = db.calls();
        let bound = db.bind_index(&p, (i + 1) as i32, values[i]);
        if bound.is_err() {
            proof {
                let fail = EngineCall::BindIndex { stmt: p, index: (i + 1) as i32, value: vals[i as int], ok: false };
                assert(db.calls() =~= before + seq![prepared_call(sql@, p)] + (ok_binds(p, vals, 0, i as nat) + seq![fail]));
                assert(db.calls().take(n0 as int) =~= before);
                let rest = db.calls().skip(n0 as int);
                assert(rest =~= seq![prepared_call(sql@, p)] + (ok_binds(p, vals, 0, i as nat) + seq![fail]));
                assert(rest.drop_first() =~= ok_binds(p, vals, 0, i as nat) + seq![fail]);
                lemma_binds_prefix(p, vals, 0, i as nat, seq![fail]);
            }
            return Err(bound.unwrap_err());
        }
        proof {
            assert(ok_binds(p, vals, 0, i as nat).push(bound_call(p, (i + 1) as i32, vals[i as int]))
                =~= ok_binds(p, vals, 0, (i + 1) as nat));
            assert(db.calls() =~= before + seq![prepared_call(sql@, p)] + ok_binds(p, vals, 0, (i + 1) as nat));
        }
        i = i + 1;
    }
    let res = db.execute(&p);
    proof {
        let ex = execute_call(p, result_of(res));
        let binds = ok_binds(p, vals, 0, vals.len());
        assert(db.calls() =~= before + (seq![prepared_call(sql@, p)] + (binds + seq![ex])));
        assert(db.calls().take(n0 as int) =~= before);
        let rest = db.calls().skip(n0 as int);
        assert(rest =~= seq![prepared_call(sql@, p)] + (binds + seq![ex]));
        assert(rest.drop_first() =~= binds + seq![ex]);
        lemma_binds_prefix(p, vals, 0, vals.len(), seq![ex]);
        if res is Ok {
            let q = res->Ok_0;
            lemma_ran(before, p, sql@, vals, q);
            assert(db.calls() =~= before + run_calls(p, sql@, vals, q));
        }
    }
    match res {
        Ok(_) => Ok(()),
        Err(e) => Err(e),
    }
}

} // verus!
