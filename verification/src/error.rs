//! The closed set of failure reasons and their one-byte status codes.

use vstd::prelude::*;

verus! {

/// Why a call failed. Zero is the status of success and belongs to no variant.
#[derive(Debug, Clone, Copy, PartialEq, Eq, Structural)]
pub enum Error {
    /// A result could not be encoded.
    Serialize,
    /// The call data could not be decoded or marshaled.
    Deserialize,
    /// The call data was well formed and the proof was rejected.
    VerifyFail,
    /// An outside routine gave up on the input in a way it does not report.
    Unknown,
}

/// The status byte that stands for `e`.
pub open spec fn error_code(e: Error) -> u8 {
    match e {
        Error::Serialize => 1,
        Error::Deserialize => 2,
        Error::VerifyFail => 3,
        Error::Unknown => 4,
    }
}

impl Error {
    /// The status byte of this failure: never zero, and different for
    /// different failures.
    pub fn code(&self) -> (c: u8)
        ensures
            c == error_code(*self),
    {
        match self {
            Self::Serialize => 1,
            Self::Deserialize => 2,
            Self::VerifyFail => 3,
            Self::Unknown => 4,
        }
    }
}

/// The status byte of a call that ended in `r`: zero for success, the code
/// of the failure otherwise.
pub open spec fn status_of(r: Result<(), Error>) -> u8 {
    match r {
        Ok(_) => 0,
        Err(e) => error_code(e),
    }
}

/// The status byte that a call hands back: zero where it succeeded, the
/// code of its failure where it did not.
pub fn status_byte(r: &Result<(), Error>) -> (status: u8)
    ensures
        status == status_of(*r),
{
    match r {
        Ok(_) => 0,
        Err(e) => e.code(),
    }
}

/// No failure has the status of success, and two failures with the same
/// code are the same failure.
pub proof fn lemma_codes_are_distinct(a: Error, b: Error)
    ensures
        error_code(a) != 0,
        1 <= error_code(a) <= 4,
        error_code(a) == error_code(b) ==> a == b,
{
}

/// The status byte is zero for success and for nothing else.
pub proof fn lemma_status_zero_is_success(r: Result<(), Error>)
    ensures
        status_of(r) == 0 <==> r is Ok,
{
}

} // verus!
