//! Type families: traits that name the pieces a compound type is made of, so
//! that generic code can speak of them.

use vstd::prelude::*;

verus! {

/// The family of result types: the success and error halves.
pub trait ResultFamily {
    /// The success type.
    type Success;

    /// The error type.
    type Error;
}

impl<T, E> ResultFamily for Result<T, E> {
    type Success = T;

    type Error = E;
}

/// The family of two-element tuple types: the two component types.
pub trait Tuple2Family {
    /// The first type.
    type A;

    /// The second type.
    type B;
}

impl<A, B> Tuple2Family for (A, B) {
    type A = A;

    type B = B;
}

/// The family of slice types: the element type.
pub trait SliceFamily {
    /// The type of each element.
    type Value;
}

impl<T> SliceFamily for [T] {
    type Value = T;
}

} // verus!
