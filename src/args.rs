use vstd::prelude::*;

use crate::error::{decimal, decimal_text, owned, ErrorKind, RediSQLError};

verus! {

/// The text that UTF-8 bytes encode, or, when they are not UTF-8, the length
/// of their longest valid prefix.
pub uninterp spec fn utf8_decoded(b: Seq<u8>) -> Result<Seq<char>, nat>;

/// Relies on `std::str::from_utf8`: the text the bytes encode, or the
/// length of their longest valid prefix when they are not UTF-8.
#[verifier::external_body]
fn decode_utf8(b: &[u8]) -> (r: Result<String, usize>)
    ensures
        match r {
            Ok(s) => utf8_decoded(b@) == Ok::<Seq<char>, nat>(s@),
            Err(n) => utf8_decoded(b@) == Err::<Seq<char>, nat>(n as nat) && n <= b@.len(),
        },
{
    match std::str::from_utf8(b) {
        Ok(s) => Ok(s.to_string()),
        Err(e) => Err(e.valid_up_to()),
    }
}

/// The bytes without the zero bytes that end them.
pub open spec fn trim_zeros(b: Seq<u8>) -> Seq<u8>
    decreases b.len(),
{
    if b.len() > 0 && b.last() == 0 {
        trim_zeros(b.drop_last())
    } else {
        b
    }
}

/// The bytes without the zero bytes that end them.
fn trimmed(b: &Vec<u8>) -> (r: Vec<u8>)
    ensures
        r@ == trim_zeros(b@),
{
    let n = trimmed_len(b);
    let mut out: Vec<u8> = Vec::new();
    let mut j: usize = 0;
    while j < n
        invariant
            n <= b@.len(),
            j <= n,
            out@ == b@.take(j as int),
        decreases n - j,
    {
        out.push(b[j]);
        j = j + 1;
        proof {
            assert(out@ =~= b@.take(j as int));
        }
    }
    out
}

/// The length of the bytes once the zero bytes that end them are dropped.
fn trimmed_len(b: &Vec<u8>) -> (r: usize)
    ensures
        r <= b@.len(),
        b@.take(r as int) == trim_zeros(b@),
{
    let mut n: usize = b.len();
    proof {
        assert(b@.take(n as int) =~= b@);
    }
    while n > 0 && b[n - 1] == 0
        invariant
            n <= b@.len(),
            trim_zeros(b@.take(n as int)) == trim_zeros(b@),
        decreases n,
    {
        proof {
            assert(b@.take(n as int).drop_last() =~= b@.take(n - 1));
        }
        n = n - 1;
    }
    n
}

/// The bytes of a client argument, zero bytes at its end dropped, read as
/// UTF-8 text.
pub open spec fn argument_text(b: Seq<u8>) -> Result<Seq<char>, nat> {
    utf8_decoded(trim_zeros(b))
}

/// Reads each argument of a client command as text, dropping the zero bytes
/// that end it. Any argument that is not UTF-8 fails the whole command.
pub fn create_argument(argv: &Vec<Vec<u8>>) -> (r: Result<Vec<String>, RediSQLError>)
    ensures
        r is Ok <==> forall|i: int| 0 <= i < argv@.len() ==> #[trigger] argument_text(argv@[i]@) is Ok,
        r matches Ok(v) ==> v@.len() == argv@.len() && forall|i: int|
            0 <= i < argv@.len() ==> argument_text(argv@[i]@) == Ok::<Seq<char>, nat>(#[trigger] v@[i]@),
        r matches Err(e) ==> e.kind == ErrorKind::Argument && exists|i: int|
            0 <= i < argv@.len() && (forall|j: int| 0 <= j < i ==> #[trigger] argument_text(argv@[j]@) is Ok)
                && #[trigger] argument_text(argv@[i]@) is Err && e.debug@ == "String valid up to byte number "@
                + decimal_text(argument_text(argv@[i]@)->Err_0) && e.description@
                == "Got a non-valid UTF8 string as input"@,
{
    let mut out: Vec<String> = Vec::new();
    let mut i: usize = 0;
    while i < argv.len()
        invariant
            i <= argv@.len(),
            out@.len() == i,
            forall|j: int| 0 <= j < i ==> argument_text(argv@[j]@) == Ok::<Seq<char>, nat>(#[trigger] out@[j]@),
        decreases argv@.len() - i,
    {
        let arg = trimmed(&argv[i]);
        match decode_utf8(arg.as_slice()) {
            Ok(s) => {
                out.push(s);
            },
            Err(n) => {
                assert(argument_text(argv@[i as int]@) is Err);
                assert forall|j: int| 0 <= j < i implies #[trigger] argument_text(argv@[j]@) is Ok by {
                    assert(argument_text(argv@[j]@) == Ok::<Seq<char>, nat>(out@[j]@));
                }
                return Err(
                    RediSQLError::new(
                        ErrorKind::Argument,
                        owned("String valid up to byte number ").concat(decimal(n as u64).as_str()),
                        owned("Got a non-valid UTF8 string as input"),
                    ),
                );
            },
        }
        i = i + 1;
    }
    assert forall|i: int| 0 <= i < argv@.len() implies #[trigger] argument_text(argv@[i]@) is Ok by {
        assert(argument_text(argv@[i]@) == Ok::<Seq<char>, nat>(out@[i]@));
    }
    Ok(out)
}

} // verus!
