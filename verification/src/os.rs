//! Status codes and the results made from them.
use vstd::prelude::*;

verus! {

/// The status that a call into the runtime reports: zero for success, any
/// other value for a failure of the kind that the value names.
#[derive(Clone, Copy, Debug, PartialEq, Eq, Structural)]
pub struct Status(pub i32);

/// A failure: a status that is not zero.
#[derive(Clone, Copy, Debug, PartialEq, Eq, Structural)]
pub struct Error(pub i32);

/// What a fallible call gives back.
pub type Result<T = ()> = core::result::Result<T, Error>;

/// The code of success.
pub const NO_ERR: i32 = 0;

impl Status {
    /// Whether the status reports success.
    #[inline]
    pub fn is_ok(&self) -> (ok: bool)
        ensures
            ok == (self.0 == 0),
    {
        self.0 == 0
    }

    /// Whether the status reports a failure.
    #[inline]
    pub fn is_err(&self) -> (err: bool)
        ensures
            err == (self.0 != 0),
    {
        self.0 != 0
    }

    /// The status as a result: `Ok` for zero, and the same code as an error
    /// for anything else.
    #[inline]
    pub fn result(self) -> (r: Result)
        ensures
            r == status_result(self),
    {
        if self.0 == 0 {
            Ok(())
        } else {
            Err(Error(self.0))
        }
    }
}

impl Error {
    /// The status code of the failure.
    #[inline]
    pub fn status(&self) -> (s: Status)
        ensures
            s == Status(self.0),
    {
        Status(self.0)
    }
}

/// What [`Status::result`] makes of a status.
pub open spec fn status_result(status: Status) -> Result {
    if status.0 == 0 {
        Ok(())
    } else {
        Err(Error(status.0))
    }
}

/// The result of a creation call, from what the call reported and from what
/// it left in its output slot. A failure gives the error and never looks at
/// the slot; a success gives what the slot holds.
#[inline]
pub fn result_unchecked<T>(res: Result, out: Option<T>) -> (r: Result<T>)
    requires
        res is Ok ==> out is Some,
    ensures
        res is Ok ==> r == Ok::<T, Error>(out->0),
        res is Err ==> r == Err::<T, Error>(res->Err_0),
{
    match res {
        Err(e) => Err(e),
        Ok(_) => match out {
            Some(value) => Ok(value),
            None => unreached(),
        },
    }
}

} // verus!
