//! Getting a success value out of a fallible one, or yielding a fixed return
//! value instead.

use vstd::prelude::*;

verus! {

/// Either a success value, or a value to return early with.
pub enum OkOrReturnResult<T, Ret> {
    /// The fallible value succeeded.
    Output(T),
    /// The fallible value failed; return early with this value.
    Ret(Ret),
}

/// The early-return value, carried out of a branch.
pub struct OkOrReturnResidual<Ret> {
    /// The value to return early with.
    ret: Ret,
}

impl<Ret> OkOrReturnResidual<Ret> {
    /// The early-return value being carried.
    pub closed spec fn spec_ret(self) -> Ret {
        self.ret
    }
}

impl<T, Ret> OkOrReturnResult<T, Ret> {
    /// Wraps a success value.
    pub fn from_output(output: T) -> (r: Self)
        ensures
            r == OkOrReturnResult::<T, Ret>::Output(output),
    {
        OkOrReturnResult::Output(output)
    }

    /// Wraps an early return carried out of an inner branch.
    pub fn from_residual(residual: OkOrReturnResidual<Ret>) -> (r: Self)
        ensures
            r == OkOrReturnResult::<T, Ret>::Ret(residual.spec_ret()),
    {
        OkOrReturnResult::Ret(residual.ret)
    }

    /// Splits into the success value or the early-return residual.
    pub fn branch(self) -> (r: Result<T, OkOrReturnResidual<Ret>>)
        ensures
            match self {
                OkOrReturnResult::Output(t) => r matches Ok(t2) && t2 == t,
                OkOrReturnResult::Ret(v) => r matches Err(res) && res.spec_ret() == v,
            },
    {
        match self {
            OkOrReturnResult::Output(t) => Ok(t),
            OkOrReturnResult::Ret(v) => Err(OkOrReturnResidual { ret: v }),
        }
    }
}

impl<Ret> OkOrReturnResidual<Ret> {
    /// The early-return value itself.
    pub fn into_ret(self) -> (r: Ret)
        ensures
            r == self.spec_ret(),
    {
        self.ret
    }
}

/// Turning a fallible value into its success value or a fixed early return.
pub trait OkOrReturn<Ret>: Sized {
    /// The success type.
    type Output;

    /// What `ok_or_return` is required to return.
    spec fn ok_or_return_post(self, value: Ret, r: OkOrReturnResult<Self::Output, Ret>) -> bool;

    /// Returns the success value of this, or marks an early return with
    /// `value`.
    fn ok_or_return(self, value: Ret) -> (r: OkOrReturnResult<Self::Output, Ret>)
        ensures
            self.ok_or_return_post(value, r),
    ;
}

impl<T, E, Ret> OkOrReturn<Ret> for Result<T, E> {
    type Output = T;

    open spec fn ok_or_return_post(self, value: Ret, r: OkOrReturnResult<T, Ret>) -> bool {
        match self {
            Ok(t) => r == OkOrReturnResult::<T, Ret>::Output(t),
            Err(_) => r == OkOrReturnResult::<T, Ret>::Ret(value),
        }
    }

    fn ok_or_return(self, value: Ret) -> (r: OkOrReturnResult<T, Ret>) {
        match self {
            Ok(t) => OkOrReturnResult::Output(t),
            Err(_) => OkOrReturnResult::Ret(value),
        }
    }
}

impl<T, Ret> OkOrReturn<Ret> for Option<T> {
    type Output = T;

    open spec fn ok_or_return_post(self, value: Ret, r: OkOrReturnResult<T, Ret>) -> bool {
        match self {
            Some(t) => r == OkOrReturnResult::<T, Ret>::Output(t),
            None => r == OkOrReturnResult::<T, Ret>::Ret(value),
        }
    }

    fn ok_or_return(self, value: Ret) -> (r: OkOrReturnResult<T, Ret>) {
        match self {
            Some(t) => OkOrReturnResult::Output(t),
            None => OkOrReturnResult::Ret(value),
        }
    }
}

} // verus!
