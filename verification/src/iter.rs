//! Small iterator-like adaptors over sequences of fallible values, and a
//! collected iterator length.

use vstd::prelude::*;

verus! {

/// The successes of a stream mapped through a fallible function, errors
/// passed through, consumed front to back.
pub struct TryMapOk<U, E> {
    /// The mapped items not yet taken.
    items: Vec<Result<U, E>>,
}

impl<U, E> View for TryMapOk<U, E> {
    type V = Seq<Result<U, E>>;

    closed spec fn view(&self) -> Seq<Result<U, E>> {
        self.items@
    }
}

impl<U, E> TryMapOk<U, E> {
    /// Takes the next mapped item.
    pub fn next(&mut self) -> (r: Option<Result<U, E>>)
        ensures
            old(self)@.len() > 0 ==> r == Some(old(self)@[0]) && final(self)@ == old(
                self,
            )@.drop_first(),
            old(self)@.len() == 0 ==> r is None && final(self)@ == old(self)@,
    {
        if self.items.len() > 0 {
            Some(self.items.remove(0))
        } else {
            None
        }
    }
}


/// What mapping the successes of `s` through `f` needs of `f`.
pub open spec fn try_map_ok_pre_seq<T, E, U, F: Fn(T) -> Result<U, E>>(
    s: Seq<Result<T, E>>,
    f: F,
) -> bool {
    forall|i: int|
        0 <= i < s.len() && (#[trigger] s[i]) is Ok ==> call_requires(f, (s[i]->Ok_0,))
}

/// What mapping the successes of `s` through `f` produces.
pub open spec fn try_map_ok_post_seq<T, E, U, F: Fn(T) -> Result<U, E>>(
    s: Seq<Result<T, E>>,
    f: F,
    r: Seq<Result<U, E>>,
) -> bool {
    &&& r.len() == s.len()
    &&& forall|i: int|
        0 <= i < s.len() ==> match s[i] {
            Ok(t) => call_ensures(f, (t,), #[trigger] r[i]),
            Err(e) => r[i] == Err::<U, E>(e),
        }
}

/// Mapping the successes of a stream of fallible values through a fallible
/// function.
pub trait TryMapOkIter<T, E>: Sized {
    /// The items of the stream.
    spec fn spec_items(self) -> Seq<Result<T, E>>;

    /// Maps every success through `f`, keeping errors; the result hands the
    /// items out in order.
    fn try_map_ok<U, F: Fn(T) -> Result<U, E>>(self, f: F) -> (r: TryMapOk<U, E>)
        requires
            try_map_ok_pre_seq(self.spec_items(), f),
        ensures
            try_map_ok_post_seq(self.spec_items(), f, r@),
    ;
}

impl<T, E> TryMapOkIter<T, E> for Vec<Result<T, E>> {
    open spec fn spec_items(self) -> Seq<Result<T, E>> {
        self@
    }

    fn try_map_ok<U, F: Fn(T) -> Result<U, E>>(self, f: F) -> (r: TryMapOk<U, E>) {
        let mut items: Vec<Result<U, E>> = Vec::new();
        let mut rest = self;
        let ghost s0 = rest@;
        let mut i: usize = 0;
        while rest.len() > 0
            invariant
                i + rest@.len() == s0.len(),
                items@.len() == i,
                rest@ == s0.skip(i as int),
                forall|k: int|
                    i <= k < s0.len() && (#[trigger] s0[k]) is Ok ==> call_requires(f, (s0[k]->Ok_0,)),
                forall|k: int|
                    0 <= k < i ==> match s0[k] {
                        Ok(t) => call_ensures(f, (t,), #[trigger] items@[k]),
                        Err(e) => items@[k] == Err::<U, E>(e),
                    },
            decreases rest@.len(),
        {
            let item = rest.remove(0);
            match item {
                Ok(t) => {
                    items.push(f(t));
                },
                Err(e) => {
                    items.push(Err(e));
                },
            }
            proof {
                assert(rest@ =~= s0.skip(i + 1));
            }
            i = items.len();
        }
        TryMapOk { items }
    }
}

/// The errors of a stream mapped through a function, successes passed
/// through, consumed front to back.
pub struct MapErr<T, E2> {
    /// The mapped items not yet taken.
    items: Vec<Result<T, E2>>,
}

impl<T, E2> View for MapErr<T, E2> {
    type V = Seq<Result<T, E2>>;

    closed spec fn view(&self) -> Seq<Result<T, E2>> {
        self.items@
    }
}

impl<T, E2> MapErr<T, E2> {
    /// Takes the next mapped item.
    pub fn next(&mut self) -> (r: Option<Result<T, E2>>)
        ensures
            old(self)@.len() > 0 ==> r == Some(old(self)@[0]) && final(self)@ == old(
                self,
            )@.drop_first(),
            old(self)@.len() == 0 ==> r is None && final(self)@ == old(self)@,
    {
        if self.items.len() > 0 {
            Some(self.items.remove(0))
        } else {
            None
        }
    }
}


/// What mapping the errors of `s` through `f` needs of `f`.
pub open spec fn map_err_pre_seq<T, E, E2, F: Fn(E) -> E2>(s: Seq<Result<T, E>>, f: F) -> bool {
    forall|i: int|
        0 <= i < s.len() && (#[trigger] s[i]) is Err ==> call_requires(f, (s[i]->Err_0,))
}

/// What mapping the errors of `s` through `f` produces.
pub open spec fn map_err_post_seq<T, E, E2, F: Fn(E) -> E2>(
    s: Seq<Result<T, E>>,
    f: F,
    r: Seq<Result<T, E2>>,
) -> bool {
    &&& r.len() == s.len()
    &&& forall|i: int|
        0 <= i < s.len() ==> match s[i] {
            Ok(t) => #[trigger] r[i] == Ok::<T, E2>(t),
            Err(e) => (r[i] matches Err(e2) && call_ensures(f, (e,), e2)),
        }
}

/// Mapping the errors of a stream of fallible values through a function.
pub trait MapErrIter<T, E>: Sized {
    /// The items of the stream.
    spec fn spec_items(self) -> Seq<Result<T, E>>;

    /// Maps every error through `f`, keeping successes; the result hands the
    /// items out in order.
    fn map_err<E2, F: Fn(E) -> E2>(self, f: F) -> (r: MapErr<T, E2>)
        requires
            map_err_pre_seq(self.spec_items(), f),
        ensures
            map_err_post_seq(self.spec_items(), f, r@),
    ;
}

impl<T, E> MapErrIter<T, E> for Vec<Result<T, E>> {
    open spec fn spec_items(self) -> Seq<Result<T, E>> {
        self@
    }

    fn map_err<E2, F: Fn(E) -> E2>(self, f: F) -> (r: MapErr<T, E2>) {
        let mut items: Vec<Result<T, E2>> = Vec::new();
        let mut rest = self;
        let ghost s0 = rest@;
        let mut i: usize = 0;
        while rest.len() > 0
            invariant
                i + rest@.len() == s0.len(),
                items@.len() == i,
                rest@ == s0.skip(i as int),
                forall|k: int|
                    i <= k < s0.len() && (#[trigger] s0[k]) is Err ==> call_requires(f, (s0[k]->Err_0,)),
                forall|k: int|
                    0 <= k < i ==> match s0[k] {
                        Ok(t) => #[trigger] items@[k] == Ok::<T, E2>(t),
                        Err(e) => (items@[k] matches Err(e2) && call_ensures(f, (e,), e2)),
                    },
            decreases rest@.len(),
        {
            let item = rest.remove(0);
            match item {
                Ok(t) => {
                    items.push(Ok(t));
                },
                Err(e) => {
                    items.push(Err(f(e)));
                },
            }
            proof {
                assert(rest@ =~= s0.skip(i + 1));
            }
            i = items.len();
        }
        MapErr { items }
    }
}

/// The length of a consumed stream, kept after the items are gone.
#[derive(Clone, Copy, Debug)]
pub struct IterLen {
    /// How many items the stream had.
    len: usize,
}

impl View for IterLen {
    type V = nat;

    closed spec fn view(&self) -> nat {
        self.len as nat
    }
}

impl IterLen {
    /// Records a stream length by counting a vector's items.
    pub fn from_vec<T>(items: &Vec<T>) -> (r: Self)
        ensures
            r@ == items@.len(),
    {
        IterLen { len: items.len() }
    }

    /// Returns the number of items the stream had.
    pub fn len(&self) -> (r: usize)
        ensures
            r == self@,
    {
        self.len
    }

    /// Returns whether the stream was empty.
    pub fn is_empty(&self) -> (r: bool)
        ensures
            r == (self@ == 0),
    {
        self.len() == 0
    }
}

} // verus!
