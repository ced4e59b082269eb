//! The closed error taxonomy shared by the loader and the library handle, and
//! the exit code of a run.

use vstd::prelude::*;

verus! {

/// Declares ckb_std's `SysError`, the host environment's failure codes, so
/// that verified code can tell its variants apart.
#[verifier::external_type_specification]
pub struct ExSysError(ckb_std::error::SysError);

/// A failure of the loader or of a symbol lookup.
#[derive(Clone, Copy, Debug, PartialEq, Eq, Structural)]
pub enum Error {
    IndexOutOfBound,
    ItemMissing,
    LengthNotEnough,
    Encoding,
}

/// The taxonomy value that a host failure code stands for; `None` for a code
/// outside the taxonomy, which is fatal.
pub open spec fn taxonomy_of(err: ckb_std::error::SysError) -> Option<Error> {
    match err {
        ckb_std::error::SysError::IndexOutOfBound => Some(Error::IndexOutOfBound),
        ckb_std::error::SysError::ItemMissing => Some(Error::ItemMissing),
        ckb_std::error::SysError::LengthNotEnough(_) => Some(Error::LengthNotEnough),
        ckb_std::error::SysError::Encoding => Some(Error::Encoding),
        _ => None,
    }
}

/// The position of a taxonomy value, counted from one.
pub open spec fn code_of(err: Error) -> i8 {
    match err {
        Error::IndexOutOfBound => 1,
        Error::ItemMissing => 2,
        Error::LengthNotEnough => 3,
        Error::Encoding => 4,
    }
}

impl Error {
    /// Maps a host failure code onto the taxonomy; `None` where the code has
    /// no place in it.
    pub fn from_sys(err: ckb_std::error::SysError) -> (r: Option<Error>)
        ensures
            r == taxonomy_of(err),
    {
        match err {
            ckb_std::error::SysError::IndexOutOfBound => Some(Error::IndexOutOfBound),
            ckb_std::error::SysError::ItemMissing => Some(Error::ItemMissing),
            ckb_std::error::SysError::LengthNotEnough(_) => Some(Error::LengthNotEnough),
            ckb_std::error::SysError::Encoding => Some(Error::Encoding),
            _ => None,
        }
    }

    /// The exit code of a run that failed with this error.
    pub fn code(&self) -> (r: i8)
        ensures
            r == code_of(*self),
            1 <= r <= 4,
    {
        match self {
            Error::IndexOutOfBound => 1,
            Error::ItemMissing => 2,
            Error::LengthNotEnough => 3,
            Error::Encoding => 4,
        }
    }
}

/// The exit code of a whole run: zero on success, else the error's code.
pub open spec fn exit_code_of(outcome: Result<(), Error>) -> i8 {
    match outcome {
        Ok(_) => 0,
        Err(e) => code_of(e),
    }
}

/// Turns the outcome of a run into the process exit code.
pub fn entry(outcome: Result<(), Error>) -> (r: i8)
    ensures
        r == exit_code_of(outcome),
        r == 0 <==> outcome is Ok,
{
    match outcome {
        Ok(_) => 0,
        Err(err) => err.code(),
    }
}

} // verus!
