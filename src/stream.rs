use vstd::prelude::*;
use vstd::string::StringExecFns;

use crate::engine::{Entity, QueryResult};
use crate::error::{owned, ErrorKind, RediSQLError};

verus! {

/// After this many rows a stream hands the shared context back to the host
/// for a moment.
pub const YIELD_EVERY: u64 = 256;

/// The number of rows in `len` cells cut into rows of `width` cells; the last
/// row may be shorter.
pub open spec fn chunk_count(len: nat, width: nat) -> nat
    decreases len,
{
    if len == 0 || width == 0 {
        0
    } else if len <= width {
        1
    } else {
        1 + chunk_count((len - width) as nat, width)
    }
}

/// `cells` cut into rows of `width` cells; the last row may be shorter.
pub open spec fn chunks_of(cells: Seq<Entity>, width: nat) -> Seq<Seq<Entity>>
    decreases cells.len(),
{
    if cells.len() == 0 || width == 0 {
        Seq::empty()
    } else {
        let n = if cells.len() < width {
            cells.len()
        } else {
            width
        };
        seq![cells.take(n as int)] + chunks_of(cells.skip(n as int), width)
    }
}

proof fn lemma_chunks_len(cells: Seq<Entity>, width: nat)
    ensures
        chunks_of(cells, width).len() == chunk_count(cells.len(), width),
    decreases cells.len(),
{
    if cells.len() > 0 && width > 0 {
        let n = if cells.len() < width {
            cells.len()
        } else {
            width
        };
        lemma_chunks_len(cells.skip(n as int), width);
    }
}

/// Whether the shared context is released and taken again before the row
/// with this index (counting from zero).
pub open spec fn spec_yields_before(i: int) -> bool {
    i > 0 && i % 256 == 0
}

/// How many times a stream of `n` rows releases and retakes the context.
pub open spec fn yield_count(n: nat) -> nat {
    if n == 0 {
        0
    } else {
        ((n - 1) / 256) as nat
    }
}

/// Whether the shared context is released and taken again before the row
/// with index `i`.
pub fn yields_before(i: u64) -> (r: bool)
    ensures
        r == spec_yields_before(i as int),
{
    i > 0 && i % YIELD_EVERY == 0
}

proof fn lemma_yield_count_step(i: nat)
    ensures
        yield_count(i + 1) == yield_count(i) + if spec_yields_before(i as int) {
            1nat
        } else {
            0nat
        },
{
}

/// A stream of `n` rows releases and retakes the context `(n - 1) / 256`
/// times: once before each row whose index is a positive multiple of 256.
pub proof fn lemma_yield_count(n: nat)
    requires
        n >= 1,
    ensures
        yield_count(n) == (n - 1) / 256,
        yield_count(n) == Set::new(|i: int| 0 <= i < n && spec_yields_before(i)).len(),
    decreases n,
{
    let s = Set::new(|i: int| 0 <= i < n && spec_yields_before(i));
    if n == 1 {
        assert(s =~= Set::empty());
    } else {
        let m = (n - 1) as nat;
        lemma_yield_count(m);
        let t = Set::new(|i: int| 0 <= i < m && spec_yields_before(i));
        lemma_yield_count_step(m);
        if spec_yields_before(m as int) {
            assert(s =~= t.insert(m as int));
            assert(!t.contains(m as int));
        } else {
            assert(s =~= t);
        }
        assert(t.finite()) by {
            assert(t.subset_of(Set::new(|i: int| 0 <= i < m)));
            vstd::set_lib::lemma_int_range(0, m as int);
            assert(Set::new(|i: int| 0 <= i < m) =~= vstd::set_lib::set_int_range(0, m as int));
        }
    }
}

/// Between any row and the 256th row after it the context is released and
/// retaken: it is never held unbroken across more than 256 rows.
pub proof fn lemma_hold_bound(i: int)
    requires
        i >= 0,
    ensures
        exists|k: int| i < k <= i + 256 && spec_yields_before(k),
{
    let k = (i / 256 + 1) * 256;
    assert(i < k <= i + 256 && k % 256 == 0 && k > 0) by (nonlinear_arith)
        requires
            i >= 0,
            k == (i / 256 + 1) * 256,
    ;
    assert(spec_yields_before(k));
}

/// Rows cut out of a flat list of cells, handed out one after the other.
pub struct RowChunks {
    array: Vec<Entity>,
    width: usize,
    pos: usize,
}

/// A source of result rows.
pub trait RowFiller {
    /// Replaces the content of `row` with the next row and gives its
    /// length, or gives `None` once the rows are exhausted.
    fn fill_row(&mut self, row: &mut Vec<Entity>) -> Option<usize>;
}

impl RowChunks {
    pub closed spec fn wf(&self) -> bool {
        self.width > 0 && self.pos <= self.array@.len()
    }

    /// The number of cells in a row.
    pub closed spec fn width(&self) -> nat {
        self.width as nat
    }

    /// The rows not handed out yet.
    pub closed spec fn rows_left(&self) -> Seq<Seq<Entity>> {
        chunks_of(self.array@.skip(self.pos as int), self.width as nat)
    }

    /// The number of rows not handed out yet.
    pub open spec fn remaining(&self) -> nat {
        self.rows_left().len()
    }

    pub fn new(array: Vec<Entity>, width: usize) -> (r: RowChunks)
        requires
            width > 0,
        ensures
            r.wf(),
            r.width() == width,
            r.rows_left() == chunks_of(array@, width as nat),
            r.remaining() == chunk_count(array@.len(), width as nat),
    {
        proof {
            assert(array@.skip(0) =~= array@);
            lemma_chunks_len(array@, width as nat);
        }
        RowChunks { array, width, pos: 0 }
    }

    /// Hands out the next row: `width` cells, or what is left.
    pub fn next_row(&mut self, row: &mut Vec<Entity>) -> (r: Option<usize>)
        requires
            old(self).wf(),
        ensures
            final(self).wf(),
            final(self).width() == old(self).width(),
            old(self).remaining() == 0 <==> r is None,
            r is None ==> final(self).remaining() == 0,
            r is None ==> final(row)@.len() == 0,
            r matches Some(n) ==> {
                &&& final(self).remaining() + 1 == old(self).remaining()
                &&& final(self).rows_left() == old(self).rows_left().drop_first()
                &&& final(row)@ == old(self).rows_left()[0]
                &&& final(row)@.len() == n
                &&& 0 < n <= old(self).width()
            },
    {
        row.clear();
        if self.pos >= self.array.len() {
            proof {
                assert(self.array@.skip(self.pos as int).len() == 0);
            }
            return None;
        }
        let rest = self.array.len() - self.pos;
        let n = if rest < self.width {
            rest
        } else {
            self.width
        };
        let mut j: usize = 0;
        while j < n
            invariant
                self.pos + n <= self.array.len(),
                j <= n,
                row@ == self.array@.subrange(self.pos as int, self.pos + j),
            decreases n - j,
        {
            row.push(self.array[self.pos + j].duplicate());
            j = j + 1;
            proof {
                assert(row@ =~= self.array@.subrange(self.pos as int, self.pos + j));
            }
        }
        proof {
            let rest = self.array@.skip(self.pos as int);
            assert(rest.take(n as int) =~= row@);
            assert(rest.skip(n as int) =~= self.array@.skip(self.pos + n));
        }
        self.pos = self.pos + n;
        Some(n)
    }
}

impl RowFiller for RowChunks {
    fn fill_row(&mut self, row: &mut Vec<Entity>) -> Option<usize> {
        if self.width == 0 || self.pos > self.array.len() {
            row.clear();
            return None;
        }
        self.next_row(row)
    }
}

/// One field of an appended log entry: `<type>:<column>` and the cell.
#[derive(Clone, Debug)]
pub struct StreamField {
    pub name: String,
    pub value: Entity,
}

/// The host's side of a stream: its clock, the shared execution context's
/// lock and its append-only logs.
pub trait HostContext {
    /// The current time, in milliseconds.
    fn now(&mut self) -> u64;

    /// Takes the shared execution context.
    fn lock(&mut self);

    /// Hands the shared execution context back.
    fn release(&mut self);

    /// Appends one entry to the named log; gives the entry's id, or the
    /// host's error text.
    fn append(&mut self, stream: &str, fields: &Vec<StreamField>) -> Result<String, String>;
}

/// One append to a log, as this library made it: the log's name, the
/// fields, and the id the host gave the entry or its error text.
pub struct AppendRecord {
    pub stream: Seq<char>,
    pub fields: Seq<(Seq<char>, Entity)>,
    pub result: Result<Seq<char>, Seq<char>>,
}

/// The id an append gave, or the host's error text.
pub open spec fn append_result(r: Result<String, String>) -> Result<Seq<char>, Seq<char>> {
    match r {
        Ok(id) => Ok(id@),
        Err(t) => Err(t@),
    }
}

/// The names and cells of a list of fields.
pub open spec fn field_views(v: Seq<StreamField>) -> Seq<(Seq<char>, Entity)> {
    v.map_values(|f: StreamField| (f.name@, f.value))
}

/// The label of a cell's type in a field name; a null cell, and a status
/// cell, give no field.
pub open spec fn spec_label(e: Entity) -> Option<Seq<char>> {
    match e {
        Entity::Integer { .. } => Some("int:"@),
        Entity::Real { .. } => Some("real:"@),
        Entity::Text { .. } => Some("text:"@),
        Entity::Blob { .. } => Some("blob:"@),
        _ => None,
    }
}

/// The fields of an appended row: for each cell that has a label, in column
/// order, `<type>:<column>` and the cell.
pub open spec fn fields_of(row: Seq<Entity>, names: Seq<String>) -> Seq<(Seq<char>, Entity)>
    decreases row.len(),
{
    if row.len() == 0 {
        Seq::empty()
    } else {
        let j = row.len() - 1;
        let prev = fields_of(row.drop_last(), names);
        match spec_label(row[j]) {
            Some(l) => prev.push((l + names[j]@, row[j])),
            None => prev,
        }
    }
}

/// A host context together with what this library knows of it: whether the
/// lock is held, how often it was handed back and retaken, the longest run
/// of rows it was held across, the appends made and the clock readings.
pub struct StreamContext<C> {
    host: C,
    held: bool,
    lock_cycles: u64,
    rows_held: u64,
    longest_hold: u64,
    appends: Ghost<Seq<AppendRecord>>,
    clock: Ghost<Seq<u64>>,
}

impl<C> StreamContext<C> {
    /// Whether the lock is held.
    pub closed spec fn is_held(&self) -> bool {
        self.held
    }

    /// How often the lock was handed back and retaken during the last stream.
    pub closed spec fn cycles(&self) -> u64 {
        self.lock_cycles
    }

    /// The longest run of rows the lock was held across during the last
    /// stream.
    pub closed spec fn hold_max(&self) -> u64 {
        self.longest_hold
    }

    /// The appends made through this context, oldest first.
    pub closed spec fn appended(&self) -> Seq<AppendRecord> {
        self.appends@
    }

    /// The clock readings taken through this context, oldest first.
    pub closed spec fn readings(&self) -> Seq<u64> {
        self.clock@
    }

    /// The host behind this context.
    pub closed spec fn host_view(&self) -> C {
        self.host
    }

    /// The host.
    pub fn host(&self) -> (r: &C)
        ensures
            *r == self.host_view(),
    {
        &self.host
    }

    pub fn held(&self) -> (r: bool)
        ensures
            r == self.is_held(),
    {
        self.held
    }

    pub fn lock_cycles(&self) -> (r: u64)
        ensures
            r == self.cycles(),
    {
        self.lock_cycles
    }

    pub fn longest_hold(&self) -> (r: u64)
        ensures
            r == self.hold_max(),
    {
        self.longest_hold
    }
}

impl<C: HostContext> StreamContext<C> {
    pub fn new(host: C) -> (r: StreamContext<C>)
        ensures
            r.host_view() == host,
            !r.is_held(),
            r.cycles() == 0,
            r.hold_max() == 0,
            r.appended() == Seq::<AppendRecord>::empty(),
            r.readings() == Seq::<u64>::empty(),
    {
        StreamContext {
            host,
            held: false,
            lock_cycles: 0,
            rows_held: 0,
            longest_hold: 0,
            appends: Ghost(Seq::empty()),
            clock: Ghost(Seq::empty()),
        }
    }

    fn acquire(&mut self)
        requires
            !old(self).is_held(),
        ensures
            final(self).is_held(),
            final(self).rows_held == 0,
            final(self).cycles() == old(self).cycles(),
            final(self).hold_max() == old(self).hold_max(),
            final(self).appends == old(self).appends,
            final(self).clock == old(self).clock,
    {
        self.host.lock();
        self.held = true;
        self.rows_held = 0;
    }

    fn release_lock(&mut self)
        requires
            old(self).is_held(),
        ensures
            !final(self).is_held(),
            final(self).cycles() == old(self).cycles(),
            final(self).hold_max() == old(self).hold_max(),
            final(self).appends == old(self).appends,
            final(self).clock == old(self).clock,
    {
        self.host.release();
        self.held = false;
    }

    fn yield_lock(&mut self)
        requires
            old(self).is_held(),
            old(self).cycles() < u64::MAX,
        ensures
            final(self).is_held(),
            final(self).rows_held == 0,
            final(self).cycles() == old(self).cycles() + 1,
            final(self).hold_max() == old(self).hold_max(),
            final(self).appends == old(self).appends,
            final(self).clock == old(self).clock,
    {
        self.host.release();
        self.host.lock();
        self.rows_held = 0;
        self.lock_cycles = self.lock_cycles + 1;
    }

    fn count_row(&mut self)
        requires
            old(self).is_held(),
            old(self).rows_held < u64::MAX,
        ensures
            final(self).is_held(),
            final(self).host == old(self).host,
            final(self).rows_held == old(self).rows_held + 1,
            final(self).cycles() == old(self).cycles(),
            final(self).hold_max() == if old(self).hold_max() < final(self).rows_held {
                final(self).rows_held
            } else {
                old(self).hold_max()
            },
            final(self).appends == old(self).appends,
            final(self).clock == old(self).clock,
    {
        self.rows_held = self.rows_held + 1;
        if self.longest_hold < self.rows_held {
            self.longest_hold = self.rows_held;
        }
    }

    fn read_clock(&mut self) -> (t: u64)
        ensures
            final(self).readings() == old(self).readings().push(t),
            final(self).is_held() == old(self).is_held(),
            final(self).rows_held == old(self).rows_held,
            final(self).cycles() == old(self).cycles(),
            final(self).hold_max() == old(self).hold_max(),
            final(self).appends == old(self).appends,
    {
        let t = self.host.now();
        self.clock = Ghost(self.clock@.push(t));
        t
    }

    fn append_row(&mut self, stream: &str, fields: &Vec<StreamField>) -> (r: Result<String, String>)
        ensures
            final(self).appended() == old(self).appended().push(
                AppendRecord {
                    stream: stream@,
                    fields: field_views(fields@),
                    result: append_result(r),
                },
            ),
            final(self).is_held() == old(self).is_held(),
            final(self).rows_held == old(self).rows_held,
            final(self).cycles() == old(self).cycles(),
            final(self).hold_max() == old(self).hold_max(),
            final(self).clock == old(self).clock,
    {
        let r = self.host.append(stream, fields);
        self.appends = Ghost(
            self.appends@.push(
                AppendRecord {
                    stream: stream@,
                    fields: field_views(fields@),
                    result: append_result(r),
                },
            ),
        );
        r
    }
}

/// The label of a cell's type in a log field name; none for a null cell or
/// a status cell, which give no field.
pub fn type_label(e: &Entity) -> (r: Option<&'static str>)
    ensures
        match r {
            Some(l) => spec_label(*e) == Some(l@),
            None => spec_label(*e) is None,
        },
{
    match e {
        Entity::Integer { .. } => Some("int:"),
        Entity::Real { .. } => Some("real:"),
        Entity::Text { .. } => Some("text:"),
        Entity::Blob { .. } => Some("blob:"),
        Entity::Null => None,
        Entity::OK => None,
        Entity::DONE { .. } => None,
    }
}

fn row_fields(row: &Vec<Entity>, columns_names: &Vec<String>) -> (r: Vec<StreamField>)
    requires
        row@.len() <= columns_names@.len(),
    ensures
        field_views(r@) == fields_of(row@, columns_names@),
{
    let mut fields: Vec<StreamField> = Vec::new();
    let mut j: usize = 0;
    proof {
        assert(row@.take(0) =~= Seq::<Entity>::empty());
        assert(field_views(fields@) =~= Seq::<(Seq<char>, Entity)>::empty());
    }
    while j < row.len()
        invariant
            j <= row@.len(),
            row@.len() <= columns_names@.len(),
            field_views(fields@) == fields_of(row@.take(j as int), columns_names@),
        decreases row@.len() - j,
    {
        let cell = &row[j];
        let ghost before = fields@;
        proof {
            assert(row@.take(j + 1).drop_last() =~= row@.take(j as int));
            assert(row@.take(j + 1)[j as int] == row@[j as int]);
        }
        match type_label(cell) {
            Some(label) => {
                let name = owned(label).concat(columns_names[j].as_str());
                fields.push(StreamField { name, value: cell.duplicate() });
                proof {
                    assert(field_views(fields@) =~= field_views(before).push(
                        (label@ + columns_names@[j as int]@, row@[j as int]),
                    ));
                }
            },
            None => {},
        }
        j = j + 1;
    }
    proof {
        assert(row@.take(row@.len() as int) =~= row@);
    }
    fields
}

/// The summary row of a stream that ended well: the log's name, the ids of
/// its first and last entries and the number of rows.
pub open spec fn is_stream_summary(
    r: QueryResult,
    stream_name: Seq<char>,
    size: nat,
    first: Seq<char>,
    last: Seq<char>,
) -> bool {
    match r {
        QueryResult::Array { names, array } => {
            &&& names@.len() == 4
            &&& names@[0]@ == "stream"@
            &&& names@[1]@ == "first_id"@
            &&& names@[2]@ == "last_id"@
            &&& names@[3]@ == "size"@
            &&& array@.len() == 4
            &&& array@[0] matches Entity::Text { text } && text@ == stream_name
            &&& array@[1] matches Entity::Text { text } && text@ == first
            &&& array@[2] matches Entity::Text { text } && text@ == last
            &&& array@[3] == Entity::Integer { int: size as i64 }
        },
        _ => false,
    }
}

fn timeout_error() -> (r: RediSQLError)
    ensures
        r.kind == ErrorKind::Timeout,
{
    RediSQLError::timeout()
}

/// The appends a stream made: those recorded after the first `from`.
pub open spec fn new_appends(c: Seq<AppendRecord>, from: nat) -> Seq<AppendRecord> {
    c.skip(from as int)
}

/// Each append was of the row at its position, to the named log, with the
/// row's fields; there are no more appends than rows.
pub open spec fn appended_rows(
    new: Seq<AppendRecord>,
    rs: Seq<Seq<Entity>>,
    stream: Seq<char>,
    names: Seq<String>,
) -> bool {
    new.len() <= rs.len() && forall|i: int|
        0 <= i < new.len() ==> #[trigger] new[i].stream == stream && new[i].fields == fields_of(
            rs[i],
            names,
        )
}

/// Every append succeeded.
pub open spec fn all_ok(new: Seq<AppendRecord>) -> bool {
    forall|i: int| 0 <= i < new.len() ==> #[trigger] new[i].result is Ok
}

/// Every row was appended, each append succeeded, and `r` is the summary
/// naming the ids of the first and the last entry.
pub open spec fn stream_done(r: QueryResult, new: Seq<AppendRecord>, n: nat, stream: Seq<char>) -> bool {
    &&& new.len() == n
    &&& n > 0
    &&& all_ok(new)
    &&& is_stream_summary(r, stream, n, new[0].result->Ok_0, new[n - 1].result->Ok_0)
}

/// The clock readings a stream took after `before`, one at its start and
/// one before each row whose index is a positive multiple of 256, stopped
/// at the first one past the deadline, after `k` rows were appended.
pub open spec fn timed_out(before: Seq<u64>, after: Seq<u64>, k: nat, timeout: u64) -> bool {
    &&& k % 256 == 0
    &&& after.len() == before.len() + k / 256 + 1
    &&& after.take(before.len() as int) == before
    &&& after.last() > timeout
    &&& forall|i: int| before.len() <= i < after.len() - 1 ==> #[trigger] after[i] <= timeout
}

/// What a stream of the rows `rs` to the named log did, from the appends
/// `a0` and clock readings `c0` to `a1` and `c1`: each append was of the row
/// at its position; on success, every row was appended and `r` is the
/// summary; on a timeout, the rows before the first failing clock check
/// were appended; on an engine error, the last append failed.
pub open spec fn stream_outcome(
    a0: Seq<AppendRecord>,
    a1: Seq<AppendRecord>,
    c0: Seq<u64>,
    c1: Seq<u64>,
    rs: Seq<Seq<Entity>>,
    names: Seq<String>,
    stream: Seq<char>,
    timeout: u64,
    r: Result<QueryResult, RediSQLError>,
) -> bool {
    &&& a1.len() >= a0.len()
    &&& a1.take(a0.len() as int) == a0
    &&& appended_rows(new_appends(a1, a0.len()), rs, stream, names)
    &&& r is Err ==> r->Err_0.kind == ErrorKind::Timeout || r->Err_0.kind == ErrorKind::Engine
    &&& r is Ok ==> stream_done(r->Ok_0, new_appends(a1, a0.len()), rs.len(), stream)
    &&& (r is Err && r->Err_0.kind == ErrorKind::Timeout) ==> all_ok(new_appends(a1, a0.len()))
        && timed_out(c0, c1, new_appends(a1, a0.len()).len(), timeout)
    &&& (r is Err && r->Err_0.kind == ErrorKind::Engine) ==> append_failed(
        new_appends(a1, a0.len()),
        r->Err_0,
        stream,
    )
}

/// The last append failed and every earlier one succeeded; `e` carries the
/// host's error text and names the log.
pub open spec fn append_failed(new: Seq<AppendRecord>, e: RediSQLError, stream: Seq<char>) -> bool {
    &&& new.len() > 0
    &&& all_ok(new.drop_last())
    &&& new.last().result == Err::<Seq<char>, Seq<char>>(e.debug@)
    &&& e.description@ == "Error in XADD to "@ + stream
}

/// Appends each row to the named log, one entry per row, with a field
/// `<type>:<column>` for each cell that is not null. The deadline is
/// checked before the first row, at `now`, and before each time the shared
/// context is handed back, which happens before each row whose index is a
/// positive multiple of 256. Entries already appended stay when the stream
/// fails; a failed append stops it.
pub fn stream_query_result_array<C: HostContext>(
    context: &mut StreamContext<C>,
    stream_name: &str,
    columns_names: &Vec<String>,
    rows: &mut RowChunks,
    timeout: u64,
) -> (r: Result<QueryResult, RediSQLError>)
    requires
        !old(context).is_held(),
        old(rows).wf(),
        old(rows).width() == columns_names@.len(),
        old(rows).remaining() <= i64::MAX,
        old(rows).remaining() > 0,
    ensures
        !final(context).is_held(),
        stream_outcome(
            old(context).appended(),
            final(context).appended(),
            old(context).readings(),
            final(context).readings(),
            old(rows).rows_left(),
            columns_names@,
            stream_name@,
            timeout,
            r,
        ),
        r is Ok ==> final(rows).remaining() == 0 && final(context).cycles() == yield_count(
            old(rows).rows_left().len(),
        ) && final(context).hold_max() <= 256,
        r is Err && r->Err_0.kind == ErrorKind::Engine ==> final(rows).rows_left() == old(
            rows,
        ).rows_left().skip(new_appends(final(context).appended(), old(context).appended().len()).len() as int),
{
    let start = context.read_clock();
    if start > timeout {
        proof {
            assert(context.appends@.take(context.appends@.len() as int) =~= context.appends@);
            assert(new_appends(context.appends@, context.appends@.len()) =~= Seq::<AppendRecord>::empty());
            assert(context.clock@.take(old(context).readings().len() as int) =~= old(context).readings());
        }
        return Err(timeout_error());
    }
    proof {
        assert(context.clock@.take(old(context).readings().len() as int) =~= old(context).readings());
    }
    let ghost total = rows.remaining();
    let ghost rs = rows.rows_left();
    let ghost a0 = context.appends@.len();
    context.acquire();
    context.lock_cycles = 0;
    context.longest_hold = 0;
    let mut i: u64 = 0;
    let mut first_id: Option<String> = None;
    let mut last_id: Option<String> = None;
    let mut row: Vec<Entity> = Vec::new();
    proof {
        vstd::arithmetic::div_mod::lemma_basic_div(0, 256);
        assert(context.appends@.take(a0 as int) =~= old(context).appended());
    }
    loop
        invariant
            context.held,
            total <= i64::MAX,
            total > 0,
            rows.wf(),
            rows.width() == columns_names@.len(),
            i + rows.remaining() == total,
            old(rows).remaining() == total,
            rs == old(rows).rows_left(),
            rs.len() == total,
            rows.rows_left() == rs.skip(i as int),
            a0 == old(context).appended().len(),
            context.appends@.len() == a0 + i,
            context.appends@.take(a0 as int) == old(context).appended(),
            context.clock@.len() == old(context).readings().len() + 1 + yield_count(i as nat),
            context.clock@.take(old(context).readings().len() as int) == old(context).readings(),
            forall|k: int| old(context).readings().len() <= k < context.clock@.len() ==> #[trigger] context.clock@[k] <= timeout,
            forall|k: int|
                0 <= k < i ==> #[trigger] new_appends(context.appends@, a0)[k].stream
                    == stream_name@ && new_appends(context.appends@, a0)[k].fields == fields_of(
                    rs[k],
                    columns_names@,
                ) && new_appends(context.appends@, a0)[k].result is Ok,
            context.lock_cycles == yield_count(i as nat),
            context.longest_hold <= 256,
            context.rows_held <= 256,
            i > 0 ==> context.rows_held == (i - 1) % 256 + 1,
            i == 0 ==> context.rows_held == 0,
            first_id is Some <==> i > 0,
            last_id is Some <==> i > 0,
            first_id matches Some(f) ==> f@ == new_appends(context.appends@, a0)[0].result->Ok_0,
            last_id matches Some(l) ==> l@ == new_appends(context.appends@, a0)[i - 1].result->Ok_0,
        ensures
            rows.remaining() == 0,
            i == total,
        decreases rows.remaining(),
    {
        let got = rows.next_row(&mut row);
        if got.is_none() {
            break;
        }
        assert(i < total);
        proof {
            lemma_yield_count_step(i as nat);
            assert(rs.skip(i as int).drop_first() =~= rs.skip(i + 1));
            assert(row@ == rs[i as int]);
        }
        if yields_before(i) {
            let ghost c_before = context.clock@;
            let t = context.read_clock();
            if t > timeout {
                context.release_lock();
                proof {
                    let c = context.clock@;
                    assert(c[c.len() - 1] > timeout);
                    assert(c.take(old(context).readings().len() as int) =~= old(context).readings());
                    assert(i % 256 == 0);
                    assert(yield_count(i as nat) + 1 == i / 256);
                    let na = new_appends(context.appends@, a0);
                    assert(na.len() == i);
                    assert forall|k: int| 0 <= k < na.len() implies #[trigger] na[k].result is Ok by {
                        assert(na[k].stream == stream_name@);
                    }
                }
                return Err(timeout_error());
            }
            assert(context.lock_cycles < u64::MAX) by {
                assert(yield_count(i as nat) <= i);
            }
            context.yield_lock();
            proof {
                assert(context.clock@.take(old(context).readings().len() as int) =~= old(context).readings());
                assert forall|k: int| old(context).readings().len() <= k < context.clock@.len() implies #[trigger] context.clock@[k] <= timeout by {
                    if k < c_before.len() {
                        assert(context.clock@[k] == c_before[k]);
                    }
                }
            }
        }
        assert(context.rows_held < 256) by {
            if i > 0 && !spec_yields_before(i as int) {
                assert((i - 1) % 256 + 1 < 256);
            }
        }
        context.count_row();
        let fields = row_fields(&row, columns_names);
        let ghost before = context.appends@;
        let appended = context.append_row(stream_name, &fields);
        proof {
            let na = new_appends(context.appends@, a0);
            assert(context.appends@.take(a0 as int) =~= old(context).appended());
            assert forall|k: int| 0 <= k < i implies #[trigger] na[k] == new_appends(before, a0)[k] by {}
            assert(na[i as int].fields == fields_of(rs[i as int], columns_names@));
        }
        match appended {
            Ok(id) => {
                proof {
                    assert(new_appends(context.appends@, a0)[i as int].result == Ok::<Seq<char>, Seq<char>>(id@));
                }
                if i == 0 {
                    first_id = Some(id.clone());
                }
                last_id = Some(id);
                proof {
                    let na = new_appends(context.appends@, a0);
                    let nb = new_appends(before, a0);
                    assert forall|k: int| 0 <= k < i + 1 implies #[trigger] na[k].stream == stream_name@
                        && na[k].fields == fields_of(rs[k], columns_names@) && na[k].result is Ok by {
                        if k < i {
                            assert(na[k] == nb[k]);
                            assert(nb[k].stream == stream_name@);
                        }
                    }
                }
            },
            Err(text) => {
                proof {
                    let na = new_appends(context.appends@, a0);
                    assert(na.drop_last() =~= new_appends(before, a0));
                    assert(na.last().result == Err::<Seq<char>, Seq<char>>(text@));
                    let nb = new_appends(before, a0);
                    assert forall|k: int| 0 <= k < nb.len() implies #[trigger] nb[k].result is Ok by {
                        assert(nb[k].stream == stream_name@);
                    }
                    assert forall|k: int| 0 <= k < na.len() implies #[trigger] na[k].stream == stream_name@
                        && na[k].fields == fields_of(rs[k], columns_names@) by {
                        if k < i {
                            assert(na[k] == nb[k]);
                            assert(nb[k].stream == stream_name@);
                        }
                    }
                    assert(rows.rows_left() == rs.skip(na.len() as int));
                }
                context.release_lock();
                return Err(
                    RediSQLError::new(
                        ErrorKind::Engine,
                        text,
                        owned("Error in XADD to ").concat(stream_name),
                    ),
                );
            },
        }
        i = i + 1;
    }
    context.release_lock();
    match (first_id, last_id) {
        (Some(first), Some(last)) => {
            let mut names: Vec<String> = Vec::new();
            names.push(owned("stream"));
            names.push(owned("first_id"));
            names.push(owned("last_id"));
            names.push(owned("size"));
            let mut array: Vec<Entity> = Vec::new();
            array.push(Entity::Text { text: owned(stream_name) });
            array.push(Entity::Text { text: first });
            array.push(Entity::Text { text: last });
            array.push(Entity::Integer { int: i as i64 });
            proof {
                reveal_strlit("stream");
                reveal_strlit("first_id");
                reveal_strlit("last_id");
                reveal_strlit("size");
                let na = new_appends(context.appends@, a0);
                assert(na.len() == total);
                assert forall|k: int| 0 <= k < na.len() implies #[trigger] na[k].result is Ok by {
                    assert(na[k].stream == stream_name@);
                }
                assert forall|k: int| 0 <= k < na.len() implies #[trigger] na[k].stream == stream_name@
                    && na[k].fields == fields_of(rs[k], columns_names@) by {
                    assert(na[k].stream == stream_name@);
                }
            }
            Ok(QueryResult::Array { names, array })
        },
        _ => Err(
            RediSQLError::new(
                ErrorKind::Engine,
                owned("Not found first index when returning a stream"),
                owned("The result to stream holds no row."),
            ),
        ),
    }
}

} // verus!
