//! An iterator over two key-sorted streams that pairs up elements with equal
//! keys and otherwise yields elements in key order.

use vstd::prelude::*;

verus! {

/// A value carrying a key that the merge orders by.
pub trait Keyed {
    /// This value's key.
    spec fn spec_key(&self) -> u64;

    /// Returns this value's key.
    fn key(&self) -> (k: u64)
        ensures
            k == self.spec_key(),
    ;
}

impl<V> Keyed for (u64, V) {
    open spec fn spec_key(&self) -> u64 {
        self.0
    }

    fn key(&self) -> (k: u64)
        ensures
            k == self.spec_key(),
    {
        self.0
    }
}

/// What one merge step yields: an element of only one side, or both sides'
/// elements for one key.
#[derive(PartialEq, Eq, Clone, Copy, Debug)]
pub enum ParIterValue<L, R> {
    /// Only the left side has this key.
    Left(L),
    /// Only the right side has this key.
    Right(R),
    /// Both sides have this key.
    Both(L, R),
}

impl<L, R> ParIterValue<L, R> {
    /// Returns a pair of options describing this value.
    pub fn into_opt_pair(self) -> (r: (Option<L>, Option<R>))
        ensures
            match self {
                ParIterValue::Left(l) => r == (Some(l), None::<R>),
                ParIterValue::Right(rt) => r == (None::<L>, Some(rt)),
                ParIterValue::Both(l, rt) => r == (Some(l), Some(rt)),
            },
    {
        match self {
            ParIterValue::Left(l) => (Some(l), None),
            ParIterValue::Right(rt) => (None, Some(rt)),
            ParIterValue::Both(l, rt) => (Some(l), Some(rt)),
        }
    }

    /// Returns the key of this value. When both sides are present, they carry
    /// the same key, and the left one is returned.
    pub fn key(&self) -> (k: u64) where L: Keyed, R: Keyed
        ensures
            match self {
                ParIterValue::Left(l) => k == l.spec_key(),
                ParIterValue::Right(rt) => k == rt.spec_key(),
                ParIterValue::Both(l, rt) => k == l.spec_key(),
            },
    {
        match self {
            ParIterValue::Left(l) => l.key(),
            ParIterValue::Both(l, _) => l.key(),
            ParIterValue::Right(rt) => rt.key(),
        }
    }

    /// Maps both possible sides of this value.
    pub fn map<L2, R2, FL: FnOnce(L) -> L2, FR: FnOnce(R) -> R2>(self, lhs: FL, rhs: FR) -> (r:
        ParIterValue<L2, R2>)
        requires
            self matches ParIterValue::Left(l) ==> call_requires(lhs, (l,)),
            self matches ParIterValue::Right(rt) ==> call_requires(rhs, (rt,)),
            self matches ParIterValue::Both(l, rt) ==> call_requires(lhs, (l,)) && call_requires(
                rhs,
                (rt,),
            ),
        ensures
            self matches ParIterValue::Left(l) ==> (r matches ParIterValue::Left(l2)
                && call_ensures(lhs, (l,), l2)),
            self matches ParIterValue::Right(rt) ==> (r matches ParIterValue::Right(r2)
                && call_ensures(rhs, (rt,), r2)),
            self matches ParIterValue::Both(l, rt) ==> (r matches ParIterValue::Both(l2, r2)
                && call_ensures(lhs, (l,), l2) && call_ensures(rhs, (rt,), r2)),
    {
        match self {
            ParIterValue::Left(l) => ParIterValue::Left(lhs(l)),
            ParIterValue::Right(rt) => ParIterValue::Right(rhs(rt)),
            ParIterValue::Both(l, rt) => ParIterValue::Both(lhs(l), rhs(rt)),
        }
    }
}

impl<K, L, R> ParIterValue<(K, L), (K, R)> {
    /// Splits the key off of this value. When both sides are present, the
    /// left key is returned.
    pub fn key_value(self) -> (r: (K, ParIterValue<L, R>))
        ensures
            match self {
                ParIterValue::Left(l) => r == (l.0, ParIterValue::<L, R>::Left(l.1)),
                ParIterValue::Right(rt) => r == (rt.0, ParIterValue::<L, R>::Right(rt.1)),
                ParIterValue::Both(l, rt) => r == (l.0, ParIterValue::<L, R>::Both(l.1, rt.1)),
            },
    {
        match self {
            ParIterValue::Left((key, l)) => (key, ParIterValue::Left(l)),
            ParIterValue::Right((key, rt)) => (key, ParIterValue::Right(rt)),
            ParIterValue::Both((key, l), (_, rt)) => (key, ParIterValue::Both(l, rt)),
        }
    }
}

/// One element put back after a merge step read past it.
enum Side<L, R> {
    /// A left element.
    Left(L),
    /// A right element.
    Right(R),
}

/// The abstract state of the merge: what remains of each stream, with an
/// element possibly put back.
pub struct KeyedParIterModel<L, R> {
    /// The left elements not yet taken, the put-back one first.
    pub left: Seq<L>,
    /// The right elements not yet taken, the put-back one first.
    pub right: Seq<R>,
    /// Whether a left element is put back (at most one side has one).
    pub cached_left: bool,
    /// Whether a right element is put back.
    pub cached_right: bool,
}

impl<L, R> KeyedParIterModel<L, R> {
    /// At most one element is put back at a time.
    pub open spec fn wf(self) -> bool {
        &&& !(self.cached_left && self.cached_right)
        &&& self.cached_left ==> self.left.len() > 0
        &&& self.cached_right ==> self.right.len() > 0
    }
}

/// The state after the next left element is taken.
pub open spec fn spec_take_left<L, R>(m: KeyedParIterModel<L, R>) -> KeyedParIterModel<L, R> {
    if m.left.len() > 0 {
        KeyedParIterModel { left: m.left.drop_first(), cached_left: false, ..m }
    } else {
        m
    }
}

/// The state after the next right element is taken.
pub open spec fn spec_take_right<L, R>(m: KeyedParIterModel<L, R>) -> KeyedParIterModel<L, R> {
    if m.right.len() > 0 {
        KeyedParIterModel { right: m.right.drop_first(), cached_right: false, ..m }
    } else {
        m
    }
}

/// An iterator over two keyed sorted streams, yielding both elements when
/// their keys are equal and single elements in key order otherwise.
pub struct KeyedParIter<L, R> {
    /// Left elements not yet taken.
    left: Vec<L>,
    /// Right elements not yet taken.
    right: Vec<R>,
    /// An element read past and put back.
    value: Option<Side<L, R>>,
}

impl<L, R> View for KeyedParIter<L, R> {
    type V = KeyedParIterModel<L, R>;

    closed spec fn view(&self) -> KeyedParIterModel<L, R> {
        KeyedParIterModel {
            left: match self.value {
                Some(Side::Left(l)) => seq![l] + self.left@,
                _ => self.left@,
            },
            right: match self.value {
                Some(Side::Right(r)) => seq![r] + self.right@,
                _ => self.right@,
            },
            cached_left: self.value matches Some(Side::Left(_)),
            cached_right: self.value matches Some(Side::Right(_)),
        }
    }
}

impl<L, R> KeyedParIter<L, R> {
    /// Creates a new merging iterator over two streams.
    pub fn new(left: Vec<L>, right: Vec<R>) -> (r: Self)
        ensures
            r@.left == left@,
            r@.right == right@,
            !r@.cached_left,
            !r@.cached_right,
            r@.wf(),
    {
        KeyedParIter { left, right, value: None }
    }

    /// Returns the next left element: the put-back one if a left element was
    /// put back, else the next one of the stream.
    pub fn next_left(&mut self) -> (r: Option<L>)
        requires
            old(self)@.wf(),
        ensures
            final(self)@.wf(),
            old(self)@.left.len() > 0 ==> r == Some(old(self)@.left[0]) && final(self)@
                == spec_take_left(old(self)@),
            old(self)@.left.len() == 0 ==> r is None && final(self)@ == old(self)@,
    {
        let ghost m0 = self@;
        match self.value.take() {
            Some(Side::Left(l)) => {
                proof {
                    assert(self@.left =~= m0.left.drop_first());
                    assert(self@.right =~= m0.right);
                    assert(self@ == spec_take_left(m0));
                }
                Some(l)
            },
            cached => {
                self.value = cached;
                proof {
                    assert(self@ == m0);
                }
                if self.left.len() > 0 {
                    let l = self.left.remove(0);
                    proof {
                        assert(self@.left =~= m0.left.drop_first());
                        assert(self@.right =~= m0.right);
                        assert(self@ == spec_take_left(m0));
                    }
                    Some(l)
                } else {
                    None
                }
            },
        }
    }

    /// Returns the next right element: the put-back one if a right element
    /// was put back, else the next one of the stream.
    pub fn next_right(&mut self) -> (r: Option<R>)
        requires
            old(self)@.wf(),
        ensures
            final(self)@.wf(),
            old(self)@.right.len() > 0 ==> r == Some(old(self)@.right[0]) && final(self)@
                == spec_take_right(old(self)@),
            old(self)@.right.len() == 0 ==> r is None && final(self)@ == old(self)@,
    {
        let ghost m0 = self@;
        match self.value.take() {
            Some(Side::Right(rt)) => {
                proof {
                    assert(self@.right =~= m0.right.drop_first());
                    assert(self@.left =~= m0.left);
                    assert(self@ == spec_take_right(m0));
                }
                Some(rt)
            },
            cached => {
                self.value = cached;
                proof {
                    assert(self@ == m0);
                }
                if self.right.len() > 0 {
                    let rt = self.right.remove(0);
                    proof {
                        assert(self@.right =~= m0.right.drop_first());
                        assert(self@.left =~= m0.left);
                        assert(self@ == spec_take_right(m0));
                    }
                    Some(rt)
                } else {
                    None
                }
            },
        }
    }
}

impl<L: Keyed, R: Keyed> KeyedParIter<L, R> {
    /// Returns the next merge step: both sides' elements when their keys are
    /// equal, else the element with the smaller key, the other one being put
    /// back. On sorted streams the steps come out in key order.
    pub fn next(&mut self) -> (r: Option<ParIterValue<L, R>>)
        requires
            old(self)@.wf(),
        ensures
            final(self)@.wf(),
            ({
                let m = old(self)@;
                let taken = spec_take_right(spec_take_left(m));
                if m.left.len() == 0 && m.right.len() == 0 {
                    r is None && final(self)@ == m
                } else if m.right.len() == 0 {
                    r == Some(ParIterValue::<L, R>::Left(m.left[0])) && final(self)@ == taken
                } else if m.left.len() == 0 {
                    r == Some(ParIterValue::<L, R>::Right(m.right[0])) && final(self)@ == taken
                } else {
                    let l = m.left[0];
                    let rt = m.right[0];
                    if l.spec_key() == rt.spec_key() {
                        r == Some(ParIterValue::Both(l, rt)) && final(self)@ == taken
                    } else if l.spec_key() < rt.spec_key() {
                        r == Some(ParIterValue::<L, R>::Left(l)) && final(self)@
                            == (KeyedParIterModel { right: m.right, cached_right: true, ..taken })
                    } else {
                        r == Some(ParIterValue::<L, R>::Right(rt)) && final(self)@
                            == (KeyedParIterModel { left: m.left, cached_left: true, ..taken })
                    }
                }
            }),
    {
        let ghost m0 = self@;
        let left = self.next_left();
        let right = self.next_right();
        match (left, right) {
            (Some(l), None) => Some(ParIterValue::Left(l)),
            (None, Some(rt)) => Some(ParIterValue::Right(rt)),
            (Some(l), Some(rt)) => {
                let lk = l.key();
                let rk = rt.key();
                if lk < rk {
                    self.value = Some(Side::Right(rt));
                    proof {
                        assert(self@.right =~= seq![rt] + spec_take_right(spec_take_left(
                            m0,
                        )).right);
                        assert(self@.right =~= m0.right);
                        assert(self@.left =~= spec_take_right(spec_take_left(m0)).left);
                        assert(self@ == (KeyedParIterModel {
                            right: m0.right,
                            cached_right: true,
                            ..spec_take_right(spec_take_left(m0))
                        }));
                    }
                    Some(ParIterValue::Left(l))
                } else if lk > rk {
                    self.value = Some(Side::Left(l));
                    proof {
                        assert(self@.left =~= seq![l] + spec_take_right(spec_take_left(m0)).left);
                        assert(self@.left =~= m0.left);
                        assert(self@.right =~= spec_take_right(spec_take_left(m0)).right);
                        assert(self@ == (KeyedParIterModel {
                            left: m0.left,
                            cached_left: true,
                            ..spec_take_right(spec_take_left(m0))
                        }));
                    }
                    Some(ParIterValue::Right(rt))
                } else {
                    Some(ParIterValue::Both(l, rt))
                }
            },
            (None, None) => None,
        }
    }
}

} // verus!

