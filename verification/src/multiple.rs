//! Collecting many fallible results into one: either every success, in
//! order, or every error, in order — no error is dropped for being the
//! second one.

use vstd::prelude::*;

use crate::app_error::AppError;

verus! {

/// The successes of a list of results, in order.
pub open spec fn spec_oks<T>(s: Seq<Result<T, AppError>>) -> Seq<T>
    decreases s.len(),
{
    if s.len() == 0 {
        Seq::<T>::empty()
    } else {
        (match s[0] {
            Ok(t) => seq![t],
            Err(_) => Seq::<T>::empty(),
        }) + spec_oks(s.drop_first())
    }
}

/// The errors of a list of results, in order.
pub open spec fn spec_errs<T>(s: Seq<Result<T, AppError>>) -> Seq<AppError>
    decreases s.len(),
{
    if s.len() == 0 {
        Seq::<AppError>::empty()
    } else {
        (match s[0] {
            Ok(_) => Seq::<AppError>::empty(),
            Err(e) => seq![e],
        }) + spec_errs(s.drop_first())
    }
}

/// Either every collected success, or every error that occurred.
#[derive(Debug)]
pub enum AllErrs<C> {
    /// No result failed: all the successes, in order.
    Values(C),
    /// At least one result failed: all the errors, in order.
    Errs(Vec<AppError>),
}

/// The errors carried out of a failed collection.
#[derive(Debug)]
pub struct AllErrsResidue {
    /// The errors, in order.
    errs: Vec<AppError>,
}

impl AllErrsResidue {
    /// The errors being carried.
    pub closed spec fn spec_errs(&self) -> Seq<AppError> {
        self.errs@
    }

    /// Turns the carried errors into one error: a lone error stays itself, several
    /// are bundled.
    pub fn into_app_error(self) -> (r: AppError)
        requires
            self.spec_errs().len() >= 1,
        ensures
            self.spec_errs().len() == 1 ==> r == self.spec_errs()[0],
            self.spec_errs().len() > 1 ==> (r matches AppError::Multiple(es) && es@
                == self.spec_errs()),
    {
        let mut errs = self.errs;
        if errs.len() == 1 {
            let only = errs.remove(0);
            only
        } else {
            AppError::from_multiple(errs)
        }
    }
}

impl<T> AllErrs<Vec<T>> {
    /// Collects results: every success in order when nothing failed, else
    /// every error in order.
    pub fn from_results(results: Vec<Result<T, AppError>>) -> (r: Self)
        ensures
            spec_errs(results@).len() == 0 ==> (r matches AllErrs::Values(vs) && vs@ == spec_oks(
                results@,
            )),
            spec_errs(results@).len() > 0 ==> (r matches AllErrs::Errs(es) && es@ == spec_errs(
                results@,
            )),
    {
        let ghost s0 = results@;
        let mut rest = results;
        let mut values: Vec<T> = Vec::new();
        let mut errs: Vec<AppError> = Vec::new();
        let ghost mut i: int = 0;
        proof {
            assert(s0.skip(0) =~= s0);
            assert(values@ + spec_oks(s0.skip(0)) =~= spec_oks(s0));
            assert(errs@ + spec_errs(s0.skip(0)) =~= spec_errs(s0));
        }
        while rest.len() > 0
            invariant
                0 <= i,
                i + rest@.len() == s0.len(),
                rest@ == s0.skip(i),
                values@ + spec_oks(s0.skip(i)) == spec_oks(s0),
                errs@ + spec_errs(s0.skip(i)) == spec_errs(s0),
            decreases rest@.len(),
        {
            let item = rest.remove(0);
            proof {
                assert(s0.skip(i)[0] == s0[i]);
                assert(s0.skip(i).drop_first() =~= s0.skip(i + 1));
            }
            match item {
                Ok(t) => {
                    values.push(t);
                },
                Err(e) => {
                    errs.push(e);
                },
            }
            proof {
                assert(values@ + spec_oks(s0.skip(i + 1)) =~= spec_oks(s0));
                assert(errs@ + spec_errs(s0.skip(i + 1)) =~= spec_errs(s0));
                i = i + 1;
            }
        }
        proof {
            assert(s0.skip(i) =~= Seq::<Result<T, AppError>>::empty());
            assert(values@ =~= spec_oks(s0));
            assert(errs@ =~= spec_errs(s0));
        }
        if errs.len() == 0 {
            AllErrs::Values(values)
        } else {
            AllErrs::Errs(errs)
        }
    }
}

impl<C> AllErrs<C> {
    /// Wraps a collection of successes.
    pub fn from_output(output: C) -> (r: Self)
        ensures
            r == AllErrs::Values(output),
    {
        AllErrs::Values(output)
    }

    /// Splits into the successes or the carried errors.
    pub fn branch(self) -> (r: Result<C, AllErrsResidue>)
        ensures
            match self {
                AllErrs::Values(vs) => r matches Ok(vs2) && vs2 == vs,
                AllErrs::Errs(es) => r matches Err(res) && res.spec_errs() == es@,
            },
    {
        match self {
            AllErrs::Values(vs) => Ok(vs),
            AllErrs::Errs(es) => Err(AllErrsResidue { errs: es }),
        }
    }

    /// Wraps carried errors back up.
    pub fn from_residual(residual: AllErrsResidue) -> (r: Self)
        ensures
            r matches AllErrs::Errs(es) && es@ == residual.spec_errs(),
    {
        AllErrs::Errs(residual.errs)
    }
}

} // verus!
