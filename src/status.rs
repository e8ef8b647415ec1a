//! Status codes and the success/failure outcome that the scheduler's
//! operations and the tasks' result slots carry.

use vstd::prelude::*;

verus! {

/// A system-style error code (an errno value).
#[derive(Clone, Copy, Debug, PartialEq, Eq, Structural)]
pub struct StatusCode {
    pub value: i64,
}

/// Invalid argument: the handle is destroyed, unknown or mismatched.
pub const EINVAL: i64 = 22;

/// Resource busy: something still depends on the resource.
pub const EBUSY: i64 = 16;

/// Value too large: the tick counter would overflow.
pub const EOVERFLOW: i64 = 75;

/// Timer expired: a blocking run reached its timeout without progress.
pub const ETIME: i64 = 62;

impl StatusCode {
    pub fn new(value: i64) -> (r: StatusCode)
        ensures
            r.value == value,
    {
        StatusCode { value }
    }
}

/// The outcome of an operation in its flat form: bit 0 of `flags` set means
/// success with `value`, clear means failure with `error`.
#[derive(Clone, Copy, Debug, PartialEq, Eq, Structural)]
pub struct RawOutcome {
    pub flags: u32,
    pub value: isize,
    pub error: StatusCode,
}

/// The outcome of an operation or of a task: a value or an error code.
pub type Outcome = Result<isize, StatusCode>;

pub open spec fn is_success_flags(flags: u32) -> bool {
    flags % 2 == 1
}

/// What a flat outcome means.
pub open spec fn outcome_of(raw: RawOutcome) -> Outcome {
    if is_success_flags(raw.flags) {
        Ok(raw.value)
    } else {
        Err(raw.error)
    }
}

/// Reads a flat outcome as a `Result`.
pub fn to_result(res: RawOutcome) -> (r: Outcome)
    ensures
        r == outcome_of(res),
{
    let f = res.flags;
    assert((f & 1u32) == f % 2) by (bit_vector);
    if (res.flags & 1) == 1 {
        return Ok(res.value);
    }
    Err(res.error)
}

/// A successful flat outcome carrying `value`.
pub fn make_success(value: isize) -> (r: RawOutcome)
    ensures
        outcome_of(r) == Ok::<isize, StatusCode>(value),
{
    RawOutcome { flags: 1, value, error: StatusCode { value: 0 } }
}

/// A failed flat outcome carrying `error`.
pub fn make_failure(error: StatusCode) -> (r: RawOutcome)
    ensures
        outcome_of(r) == Err::<isize, StatusCode>(error),
{
    RawOutcome { flags: 0, value: 0, error }
}

/// Flattens a `Result`; the inverse of `to_result`.
pub fn from_result(res: Outcome) -> (r: RawOutcome)
    ensures
        outcome_of(r) == res,
{
    match res {
        Ok(v) => make_success(v),
        Err(e) => make_failure(e),
    }
}

} // verus!
