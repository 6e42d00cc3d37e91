use vstd::prelude::*;

use crate::error::{decimal, decimal_text, owned, ErrorKind, RediSQLError};
use crate::worker::{Command, ReturnMethod, DEFAULT_DEADLINE_MS};

verus! {

/// The client-facing commands that run against an instance.
#[derive(Clone, Copy, Debug, PartialEq, Eq, Structural)]
pub enum ClientCommand {
    /// `EXEC db query`
    Exec,
    /// `QUERY db query`
    Query,
    /// `QUERY.INTO stream db query`
    QueryInto,
    /// `CREATE_STATEMENT db identifier statement`
    CreateStatement,
    /// `UPDATE_STATEMENT db identifier statement`
    UpdateStatement,
    /// `DELETE_STATEMENT db identifier`
    DeleteStatement,
    /// `EXEC_STATEMENT db identifier args...`
    ExecStatement,
    /// `QUERY_STATEMENT db identifier args...`
    QueryStatement,
    /// `QUERY_STATEMENT.INTO stream db identifier args...`
    QueryStatementInto,
    /// `COPY source destination`
    Copy,
    /// `CREATE_DB name [path]`
    CreateDB,
}

/// A client command lowered: the command for the worker of the named
/// instance (none for the creation of an instance), the destination of a
/// copy, and the backing path asked for a new instance.
#[derive(Clone, Debug)]
pub struct Request {
    pub database: String,
    pub command: Option<Command>,
    pub destination: Option<String>,
    pub path: Option<String>,
}

/// Whether the command accepts that many arguments, its own name counted.
pub open spec fn arity_ok(kind: ClientCommand, n: nat) -> bool {
    match kind {
        ClientCommand::Exec | ClientCommand::Query | ClientCommand::DeleteStatement
        | ClientCommand::Copy => n == 3,
        ClientCommand::QueryInto | ClientCommand::CreateStatement
        | ClientCommand::UpdateStatement => n == 4,
        ClientCommand::ExecStatement | ClientCommand::QueryStatement => n >= 3,
        ClientCommand::QueryStatementInto => n >= 4,
        ClientCommand::CreateDB => n == 2 || n == 3,
    }
}

/// The position of the instance's name among the arguments.
pub open spec fn database_index(kind: ClientCommand) -> int {
    match kind {
        ClientCommand::QueryInto | ClientCommand::QueryStatementInto => 2,
        _ => 1,
    }
}

/// The deadline of a command dispatched at `now`, ten seconds later.
pub open spec fn deadline_after(now: u64) -> u64 {
    if now as int + 10000 > u64::MAX {
        u64::MAX
    } else {
        (now + 10000) as u64
    }
}

/// The texts of a list of strings.
pub open spec fn texts(v: Seq<String>) -> Seq<Seq<char>> {
    v.map_values(|s: String| s@)
}

/// The command that well-formed arguments stand for.
pub open spec fn lowered(kind: ClientCommand, a: Seq<Seq<char>>, now: u64, c: Command) -> bool {
    let t = deadline_after(now);
    match kind {
        ClientCommand::Exec => c matches Command::Exec { query, timeout } && query@ == a[2]
            && timeout == t,
        ClientCommand::Query => c matches Command::Query { query, timeout, return_method }
            && query@ == a[2] && timeout == t && return_method is Reply,
        ClientCommand::QueryInto => c matches Command::Query { query, timeout, return_method }
            && query@ == a[3] && timeout == t && (return_method matches ReturnMethod::Stream {
            name } && name@ == a[1]),
        ClientCommand::CreateStatement => c matches Command::CompileStatement {
            identifier,
            statement,
        } && identifier@ == a[2] && statement@ == a[3],
        ClientCommand::UpdateStatement => c matches Command::UpdateStatement {
            identifier,
            statement,
        } && identifier@ == a[2] && statement@ == a[3],
        ClientCommand::DeleteStatement => c matches Command::DeleteStatement { identifier }
            && identifier@ == a[2],
        ClientCommand::ExecStatement => c matches Command::ExecStatement {
            identifier,
            arguments,
            timeout,
        } && identifier@ == a[2] && texts(arguments@) == a.skip(3) && timeout == t,
        ClientCommand::QueryStatement => c matches Command::QueryStatement {
            identifier,
            arguments,
            timeout,
            return_method,
        } && identifier@ == a[2] && texts(arguments@) == a.skip(3) && timeout == t
            && return_method is Reply,
        ClientCommand::QueryStatementInto => c matches Command::QueryStatement {
            identifier,
            arguments,
            timeout,
            return_method,
        } && identifier@ == a[3] && texts(arguments@) == a.skip(4) && timeout == t && (
        return_method matches ReturnMethod::Stream { name } && name@ == a[1]),
        ClientCommand::Copy => c is MakeCopy,
        ClientCommand::CreateDB => false,
    }
}

fn deadline(now: u64) -> (r: u64)
    ensures
        r == deadline_after(now),
{
    if now > u64::MAX - DEFAULT_DEADLINE_MS {
        u64::MAX
    } else {
        now + DEFAULT_DEADLINE_MS
    }
}

fn strings_from(argv: &Vec<String>, from: usize) -> (r: Vec<String>)
    requires
        from <= argv@.len(),
    ensures
        texts(r@) == texts(argv@).skip(from as int),
{
    let mut out: Vec<String> = Vec::new();
    let mut i: usize = from;
    while i < argv.len()
        invariant
            from <= i <= argv@.len(),
            texts(out@) == texts(argv@).subrange(from as int, i as int),
        decreases argv@.len() - i,
    {
        let ghost before = out@;
        let s = argv[i].clone();
        out.push(s);
        proof {
            assert(out@ == before.push(argv@[i as int]));
            assert(texts(out@) =~= texts(before).push(argv@[i as int]@));
            assert(texts(out@) =~= texts(argv@).subrange(from as int, i + 1));
        }
        i = i + 1;
    }
    proof {
        assert(texts(argv@).subrange(from as int, argv@.len() as int) =~= texts(argv@).skip(
            from as int,
        ));
    }
    out
}

/// The text of the error for a wrong number of arguments, `n` of them.
pub open spec fn arity_text(kind: ClientCommand, n: nat) -> Seq<char> {
    match kind {
        ClientCommand::ExecStatement | ClientCommand::QueryStatement =>
            "Wrong number of arguments, it needs at least 3"@,
        ClientCommand::QueryStatementInto => "Wrong number of arguments, it needs at least 4"@,
        ClientCommand::Exec | ClientCommand::Query => "Wrong number of arguments, it accepts 3, you provide "@
            + decimal_text(n),
        ClientCommand::QueryInto => "Wrong number of arguments, it accepts 4, you provide "@
            + decimal_text(n),
        ClientCommand::CreateStatement | ClientCommand::UpdateStatement =>
            "Wrong number of arguments, it accepts 4"@,
        ClientCommand::DeleteStatement => "Wrong number of arguments, it accepts 3"@,
        ClientCommand::CreateDB => "Wrong number of arguments, it accepts 2 or 3"@,
        ClientCommand::Copy => "Wrong number of arguments, it accepts exactly 3"@,
    }
}

fn arity_error(kind: ClientCommand, n: usize) -> (r: RediSQLError)
    ensures
        r.kind == ErrorKind::Argument,
        r.debug@ == arity_text(kind, n as nat),
{
    let text = match kind {
        ClientCommand::ExecStatement | ClientCommand::QueryStatement => owned(
            "Wrong number of arguments, it needs at least 3",
        ),
        ClientCommand::QueryStatementInto => owned("Wrong number of arguments, it needs at least 4"),
        ClientCommand::Exec | ClientCommand::Query => owned(
            "Wrong number of arguments, it accepts 3, you provide ",
        ).concat(decimal(n as u64).as_str()),
        ClientCommand::QueryInto => owned(
            "Wrong number of arguments, it accepts 4, you provide ",
        ).concat(decimal(n as u64).as_str()),
        ClientCommand::CreateStatement | ClientCommand::UpdateStatement => owned(
            "Wrong number of arguments, it accepts 4",
        ),
        ClientCommand::DeleteStatement => owned("Wrong number of arguments, it accepts 3"),
        ClientCommand::CreateDB => owned("Wrong number of arguments, it accepts 2 or 3"),
        ClientCommand::Copy => owned("Wrong number of arguments, it accepts exactly 3"),
    };
    RediSQLError::new(ErrorKind::Argument, text, owned("Wrong number of arguments for the command"))
}

/// Lowers the arguments of a client command, its own name first, to the
/// request for the worker of the instance they name, with a deadline ten
/// seconds after `now`. A wrong number of arguments is refused.
pub fn lower_request(kind: ClientCommand, argv: &Vec<String>, now: u64) -> (r: Result<
    Request,
    RediSQLError,
>)
    ensures
        r is Ok <==> arity_ok(kind, argv@.len()),
        r matches Err(e) ==> e.kind == ErrorKind::Argument && e.debug@ == arity_text(kind, argv@.len()),
        r matches Ok(q) ==> {
            &&& q.database@ == argv@[database_index(kind)]@
            &&& (kind is CreateDB <==> q.command is None)
            &&& (q.command matches Some(c) ==> lowered(kind, texts(argv@), now, c))
            &&& (kind is Copy <==> q.destination is Some)
            &&& (q.destination matches Some(d) ==> d@ == argv@[2]@)
            &&& (q.path is Some <==> kind is CreateDB && argv@.len() == 3)
            &&& (q.path matches Some(p) ==> p@ == argv@[2]@)
        },
{
    let n = argv.len();
    let ok = match kind {
        ClientCommand::Exec | ClientCommand::Query | ClientCommand::DeleteStatement
        | ClientCommand::Copy => n == 3,
        ClientCommand::QueryInto | ClientCommand::CreateStatement
        | ClientCommand::UpdateStatement => n == 4,
        ClientCommand::ExecStatement | ClientCommand::QueryStatement => n >= 3,
        ClientCommand::QueryStatementInto => n >= 4,
        ClientCommand::CreateDB => n == 2 || n == 3,
    };
    if !ok {
        return Err(arity_error(kind, n));
    }
    let t = deadline(now);
    let ghost a = texts(argv@);
    proof {
        assert(forall|i: int| 0 <= i < argv@.len() ==> a[i] == #[trigger] argv@[i]@);
    }
    let (database, command, destination) = match kind {
        ClientCommand::Exec => (
            argv[1].clone(),
            Some(Command::Exec { query: argv[2].clone(), timeout: t }),
            None,
        ),
        ClientCommand::Query => (
            argv[1].clone(),
            Some(Command::Query { query: argv[2].clone(), timeout: t, return_method: ReturnMethod::Reply }),
            None,
        ),
        ClientCommand::QueryInto => (
            argv[2].clone(),
            Some(Command::Query {
                query: argv[3].clone(),
                timeout: t,
                return_method: ReturnMethod::Stream { name: argv[1].clone() },
            }),
            None,
        ),
        ClientCommand::CreateStatement => (
            argv[1].clone(),
            Some(Command::CompileStatement { identifier: argv[2].clone(), statement: argv[3].clone() }),
            None,
        ),
        ClientCommand::UpdateStatement => (
            argv[1].clone(),
            Some(Command::UpdateStatement { identifier: argv[2].clone(), statement: argv[3].clone() }),
            None,
        ),
        ClientCommand::DeleteStatement => (
            argv[1].clone(),
            Some(Command::DeleteStatement { identifier: argv[2].clone() }),
            None,
        ),
        ClientCommand::ExecStatement => (
            argv[1].clone(),
            Some(Command::ExecStatement {
                identifier: argv[2].clone(),
                arguments: strings_from(argv, 3),
                timeout: t,
            }),
            None,
        ),
        ClientCommand::QueryStatement => (
            argv[1].clone(),
            Some(Command::QueryStatement {
                identifier: argv[2].clone(),
                arguments: strings_from(argv, 3),
                timeout: t,
                return_method: ReturnMethod::Reply,
            }),
            None,
        ),
        ClientCommand::QueryStatementInto => (
            argv[2].clone(),
            Some(Command::QueryStatement {
                identifier: argv[3].clone(),
                arguments: strings_from(argv, 4),
                timeout: t,
                return_method: ReturnMethod::Stream { name: argv[1].clone() },
            }),
            None,
        ),
        ClientCommand::Copy => (argv[1].clone(), Some(Command::MakeCopy), Some(argv[2].clone())),
        ClientCommand::CreateDB => {
            let path = if n == 3 {
                Some(argv[2].clone())
            } else {
                None
            };
            return Ok(Request { database: argv[1].clone(), command: None, destination: None, path });
        },
    };
    Ok(Request { database, command, destination, path: None })
}

} // verus!
