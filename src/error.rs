use vstd::prelude::*;
use vstd::string::StringExecFns;

verus! {

/// The class of an error, as callers tell them apart.
#[derive(Clone, Copy, Debug, PartialEq, Eq, Structural)]
pub enum ErrorKind {
    /// Malformed input, rejected before any work is queued.
    Argument,
    /// A statement with that identifier is already cached.
    AlreadyExists,
    /// No statement with that identifier is cached.
    NotFound,
    /// The statement may modify the database but a read was asked for.
    NotReadOnly,
    /// The embedded engine failed (prepare, bind, step, backup).
    Engine,
    /// The deadline passed before the work could go on.
    Timeout,
}

/// An error reported to a client: its class, a short debug text and a
/// longer human description.
#[derive(Clone, Debug)]
pub struct RediSQLError {
    pub kind: ErrorKind,
    pub debug: String,
    pub description: String,
}

/// A failure reported by the embedded engine.
#[derive(Clone, Debug)]
pub struct SQLite3Error {
    pub code: i32,
    pub debug: String,
    pub description: String,
}

/// The decimal digit for a number under ten.
pub open spec fn digit_char(d: nat) -> char {
    seq!['0', '1', '2', '3', '4', '5', '6', '7', '8', '9'][d as int]
}

/// A number written in decimal, most significant digit first.
pub open spec fn decimal_text(n: nat) -> Seq<char>
    decreases n,
{
    if n < 10 {
        seq![digit_char(n)]
    } else {
        decimal_text(n / 10).push(digit_char(n % 10))
    }
}

/// Relies on `u64`'s `Display`, through `to_string`: the number's decimal
/// digits.
#[verifier::external_body]
pub(crate) fn decimal(n: u64) -> (r: String)
    ensures
        r@ == decimal_text(n as nat),
{
    n.to_string()
}

/// An owned copy of a string slice.
pub fn owned(s: &str) -> (r: String)
    ensures
        r@ == s@,
{
    <String as StringExecFns>::from_str(s)
}

impl RediSQLError {
    pub fn new(kind: ErrorKind, debug: String, description: String) -> (r: RediSQLError)
        ensures
            r.kind == kind,
            r.debug@ == debug@,
            r.description@ == description@,
    {
        RediSQLError { kind, debug, description }
    }

    /// The error of an operation whose deadline has passed.
    pub fn timeout() -> (r: RediSQLError)
        ensures
            r.kind == ErrorKind::Timeout,
    {
        RediSQLError {
            kind: ErrorKind::Timeout,
            debug: owned("Timeout"),
            description: owned("The deadline of the command passed before it could complete."),
        }
    }

    /// Wraps an engine failure, keeping both of its texts.
    pub fn from_engine(e: SQLite3Error) -> (r: RediSQLError)
        ensures
            r.kind == ErrorKind::Engine,
            r.debug@ == e.debug@,
            r.description@ == e.description@,
    {
        RediSQLError { kind: ErrorKind::Engine, debug: e.debug, description: e.description }
    }
}

} // verus!
