//! Reading at most a fixed number of bytes from a source. One byte past the
//! limit is requested, so that a source that fits the limit exactly is told
//! apart from one that is larger. Opening the source, ownership checks and the
//! policy applied to an error stay with the caller.
use crate::text::owned;
use vstd::prelude::*;

verus! {

#[verifier::external_type_specification]
#[verifier::external_body]
pub struct ExIoError(std::io::Error);

/// Why a bounded read failed.
#[derive(Debug)]
pub enum BoundedReadError {
    /// The source holds more bytes than the limit.
    LimitExceeded,
    /// The source failed while it was read.
    Io(std::io::Error),
    /// The limit leaves no room for the probe byte.
    InvalidLimit,
}

/// The text of an I/O error, as its `Display` writes it.
#[verifier::external_body]
fn io_error_text(error: &std::io::Error) -> String {
    format!("{error}")
}

/// The number of bytes a bounded read asks for: one past the limit.
pub open spec fn probe_limit(limit: u64) -> Option<u64> {
    if limit < u64::MAX {
        Some((limit + 1) as u64)
    } else {
        None
    }
}

/// The number of bytes a bounded read asks for, or `None` when the limit
/// leaves no room for the probe byte.
pub fn probe_count(limit: u64) -> (p: Option<u64>)
    ensures
        p == probe_limit(limit),
{
    limit.checked_add(1)
}

/// What judging a read against `limit` gives: its error; the bytes when
/// there are at most `limit` of them; `LimitExceeded` when there are more.
pub open spec fn judged_read(
    limit: u64,
    read: Result<Vec<u8>, std::io::Error>,
    res: Result<Vec<u8>, BoundedReadError>,
) -> bool {
    match read {
        Err(e) => res matches Err(BoundedReadError::Io(f)) && f == e,
        Ok(bytes) => if bytes@.len() > limit {
            res matches Err(BoundedReadError::LimitExceeded)
        } else {
            res matches Ok(out) && out@ == bytes@
        },
    }
}

/// Judges what a read of one byte past `limit` returned: more than `limit`
/// bytes means the source is larger than the limit, and fewer means the
/// source ended.
pub fn judge_bounded_read(limit: u64, read: Result<Vec<u8>, std::io::Error>) -> (res: Result<
    Vec<u8>,
    BoundedReadError,
>)
    ensures
        judged_read(limit, read, res),
{
    match read {
        Err(e) => Err(BoundedReadError::Io(e)),
        Ok(bytes) => {
            if bytes.len() as u64 > limit {
                Err(BoundedReadError::LimitExceeded)
            } else {
                Ok(bytes)
            }
        },
    }
}

/// Reads the whole source if it holds at most `limit` bytes. `read(n)` reads
/// from the source until it ends, fails, or `n` bytes were read. It is not
/// called when the limit is invalid; otherwise it is called once, for
/// exactly `limit + 1` bytes, so that a source larger than the limit yields
/// `LimitExceeded` rather than a truncated `Ok`.
pub fn read_bounded<F>(read: F, limit: u64) -> (res: Result<Vec<u8>, BoundedReadError>)
    where
        F: FnOnce(u64) -> Result<Vec<u8>, std::io::Error>,
    requires
        probe_limit(limit) matches Some(p) ==> call_requires(read, (p,)),
    ensures
        probe_limit(limit) is None ==> res matches Err(BoundedReadError::InvalidLimit),
        probe_limit(limit) matches Some(p) ==> exists|r: Result<Vec<u8>, std::io::Error>|
            #[trigger] call_ensures(read, (p,), r) && judged_read(limit, r, res),
{
    let probe = match probe_count(limit) {
        Some(p) => p,
        None => return Err(BoundedReadError::InvalidLimit),
    };
    let r = read(probe);
    judge_bounded_read(limit, r)
}

impl BoundedReadError {
    /// The message shown for this error.
    pub fn to_display_string(&self) -> (s: String)
        ensures
            self is LimitExceeded ==> s@ == "The file exceeds its read limit."@,
            self is InvalidLimit ==> s@ == "The file read limit is invalid."@,
    {
        match self {
            BoundedReadError::LimitExceeded => owned("The file exceeds its read limit."),
            BoundedReadError::Io(error) => io_error_text(error),
            BoundedReadError::InvalidLimit => owned("The file read limit is invalid."),
        }
    }
}

} // verus!
