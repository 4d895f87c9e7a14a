//! An iterator over two key-value streams of the same item type, yielding
//! both values for an equal key, or just either side otherwise.

use vstd::prelude::*;

verus! {

/// A key-value pair.
pub trait KeyValue {
    /// The key half.
    type Key;

    /// The value half.
    type Value;
}

impl<K, V> KeyValue for (K, V) {
    type Key = K;

    type Value = V;
}

/// What one merge step yields for a key: only the left value, only the right
/// value, or both.
#[derive(PartialEq, Eq, Clone, Copy, Debug)]
pub enum ParIterValue<L, R> {
    /// Only the left stream has the key.
    Left(L),
    /// Only the right stream has the key.
    Right(R),
    /// Both streams have the key.
    Both(L, R),
}

impl<L, R> ParIterValue<L, R> {
    /// Returns a pair of options describing this value.
    pub fn into_opt_pair(self) -> (r: (Option<L>, Option<R>))
        ensures
            match self {
                ParIterValue::Left(l) => r == (Some(l), None::<R>),
                ParIterValue::Right(rt) => r == (None::<L>, Some(rt)),
                ParIterValue::Both(l, rt) => r == (Some(l), Some(rt)),
            },
    {
        match self {
            ParIterValue::Left(l) => (Some(l), None),
            ParIterValue::Right(rt) => (None, Some(rt)),
            ParIterValue::Both(l, rt) => (Some(l), Some(rt)),
        }
    }
}

/// A value put back after a merge step read past it, with its key.
enum Side<V> {
    /// A left value.
    Left(V),
    /// A right value.
    Right(V),
}

/// The abstract state of the merge: what remains of each stream, with a pair
/// possibly put back.
pub struct KVParIterModel<V> {
    /// The left pairs not yet taken, the put-back one first.
    pub left: Seq<(u64, V)>,
    /// The right pairs not yet taken, the put-back one first.
    pub right: Seq<(u64, V)>,
    /// Whether a left pair is put back (at most one side has one).
    pub cached_left: bool,
    /// Whether a right pair is put back.
    pub cached_right: bool,
}

impl<V> KVParIterModel<V> {
    /// At most one pair is put back at a time.
    pub open spec fn wf(self) -> bool {
        &&& !(self.cached_left && self.cached_right)
        &&& self.cached_left ==> self.left.len() > 0
        &&& self.cached_right ==> self.right.len() > 0
    }
}

/// The state after the next left pair is taken.
pub open spec fn spec_take_left<V>(m: KVParIterModel<V>) -> KVParIterModel<V> {
    if m.left.len() > 0 {
        KVParIterModel { left: m.left.drop_first(), cached_left: false, ..m }
    } else {
        m
    }
}

/// The state after the next right pair is taken.
pub open spec fn spec_take_right<V>(m: KVParIterModel<V>) -> KVParIterModel<V> {
    if m.right.len() > 0 {
        KVParIterModel { right: m.right.drop_first(), cached_right: false, ..m }
    } else {
        m
    }
}

/// An iterator over two key-value streams, providing either both values for
/// an equal key, or just either side otherwise.
pub struct KVParIter<V> {
    /// Left pairs not yet taken.
    left: Vec<(u64, V)>,
    /// Right pairs not yet taken.
    right: Vec<(u64, V)>,
    /// A pair read past and put back, split into key and side.
    value: Option<(u64, Side<V>)>,
}

impl<V> View for KVParIter<V> {
    type V = KVParIterModel<V>;

    closed spec fn view(&self) -> KVParIterModel<V> {
        KVParIterModel {
            left: match self.value {
                Some((k, Side::Left(v))) => seq![(k, v)] + self.left@,
                _ => self.left@,
            },
            right: match self.value {
                Some((k, Side::Right(v))) => seq![(k, v)] + self.right@,
                _ => self.right@,
            },
            cached_left: self.value matches Some((_, Side::Left(_))),
            cached_right: self.value matches Some((_, Side::Right(_))),
        }
    }
}

impl<V> KVParIter<V> {
    /// Creates a new merging iterator over two key-value streams.
    pub fn new(left: Vec<(u64, V)>, right: Vec<(u64, V)>) -> (r: Self)
        ensures
            r@.left == left@,
            r@.right == right@,
            !r@.cached_left,
            !r@.cached_right,
            r@.wf(),
    {
        KVParIter { left, right, value: None }
    }

    /// Returns the next left pair: the put-back one if a left pair was put
    /// back, else the next one of the stream.
    pub fn next_left(&mut self) -> (r: Option<(u64, V)>)
        requires
            old(self)@.wf(),
        ensures
            final(self)@.wf(),
            old(self)@.left.len() > 0 ==> r == Some(old(self)@.left[0]) && final(self)@
                == spec_take_left(old(self)@),
            old(self)@.left.len() == 0 ==> r is None && final(self)@ == old(self)@,
    {
        let ghost m0 = self@;
        match self.value.take() {
            Some((k, Side::Left(v))) => {
                proof {
                    assert(self@.left =~= m0.left.drop_first());
                    assert(self@.right =~= m0.right);
                    assert(self@ == spec_take_left(m0));
                }
                Some((k, v))
            },
            cached => {
                self.value = cached;
                proof {
                    assert(self@ == m0);
                }
                if self.left.len() > 0 {
                    let p = self.left.remove(0);
                    proof {
                        assert(self@.left =~= m0.left.drop_first());
                        assert(self@.right =~= m0.right);
                        assert(self@ == spec_take_left(m0));
                    }
                    Some(p)
                } else {
                    None
                }
            },
        }
    }

    /// Returns the next right pair: the put-back one if a right pair was put
    /// back, else the next one of the stream.
    pub fn next_right(&mut self) -> (r: Option<(u64, V)>)
        requires
            old(self)@.wf(),
        ensures
            final(self)@.wf(),
            old(self)@.right.len() > 0 ==> r == Some(old(self)@.right[0]) && final(self)@
                == spec_take_right(old(self)@),
            old(self)@.right.len() == 0 ==> r is None && final(self)@ == old(self)@,
    {
        let ghost m0 = self@;
        match self.value.take() {
            Some((k, Side::Right(v))) => {
                proof {
                    assert(self@.right =~= m0.right.drop_first());
                    assert(self@.left =~= m0.left);
                    assert(self@ == spec_take_right(m0));
                }
                Some((k, v))
            },
            cached => {
                self.value = cached;
                proof {
                    assert(self@ == m0);
                }
                if self.right.len() > 0 {
                    let p = self.right.remove(0);
                    proof {
                        assert(self@.right =~= m0.right.drop_first());
                        assert(self@.left =~= m0.left);
                        assert(self@ == spec_take_right(m0));
                    }
                    Some(p)
                } else {
                    None
                }
            },
        }
    }

    /// Returns the next merge step: both values when the next keys of the
    /// two streams are equal, else the pair with the smaller key, the other
    /// one being put back. On sorted streams the keys come out in order.
    pub fn next(&mut self) -> (r: Option<(u64, ParIterValue<V, V>)>)
        requires
            old(self)@.wf(),
        ensures
            final(self)@.wf(),
            ({
                let m = old(self)@;
                let taken = spec_take_right(spec_take_left(m));
                if m.left.len() == 0 && m.right.len() == 0 {
                    r is None && final(self)@ == m
                } else if m.right.len() == 0 {
                    r == Some((m.left[0].0, ParIterValue::<V, V>::Left(m.left[0].1)))
                        && final(self)@ == taken
                } else if m.left.len() == 0 {
                    r == Some((m.right[0].0, ParIterValue::<V, V>::Right(m.right[0].1)))
                        && final(self)@ == taken
                } else {
                    let l = m.left[0];
                    let rt = m.right[0];
                    if l.0 == rt.0 {
                        r == Some((l.0, ParIterValue::<V, V>::Both(l.1, rt.1))) && final(self)@
                            == taken
                    } else if l.0 < rt.0 {
                        r == Some((l.0, ParIterValue::<V, V>::Left(l.1))) && final(self)@
                            == (KVParIterModel { right: m.right, cached_right: true, ..taken })
                    } else {
                        r == Some((rt.0, ParIterValue::<V, V>::Right(rt.1))) && final(self)@
                            == (KVParIterModel { left: m.left, cached_left: true, ..taken })
                    }
                }
            }),
    {
        let ghost m0 = self@;
        let left = self.next_left();
        let right = self.next_right();
        match (left, right) {
            (Some(l), None) => Some((l.0, ParIterValue::Left(l.1))),
            (None, Some(rt)) => Some((rt.0, ParIterValue::Right(rt.1))),
            (Some(l), Some(rt)) => {
                if l.0 == rt.0 {
                    Some((l.0, ParIterValue::Both(l.1, rt.1)))
                } else if l.0 < rt.0 {
                    self.value = Some((rt.0, Side::Right(rt.1)));
                    proof {
                        assert(self@.right =~= seq![rt] + spec_take_right(spec_take_left(
                            m0,
                        )).right);
                        assert(self@.right =~= m0.right);
                        assert(self@.left =~= spec_take_right(spec_take_left(m0)).left);
                        assert(self@ == (KVParIterModel {
                            right: m0.right,
                            cached_right: true,
                            ..spec_take_right(spec_take_left(m0))
                        }));
                    }
                    Some((l.0, ParIterValue::Left(l.1)))
                } else {
                    self.value = Some((l.0, Side::Left(l.1)));
                    proof {
                        assert(self@.left =~= seq![l] + spec_take_right(spec_take_left(m0)).left);
                        assert(self@.left =~= m0.left);
                        assert(self@.right =~= spec_take_right(spec_take_left(m0)).right);
                        assert(self@ == (KVParIterModel {
                            left: m0.left,
                            cached_left: true,
                            ..spec_take_right(spec_take_left(m0))
                        }));
                    }
                    Some((rt.0, ParIterValue::Right(rt.1)))
                }
            },
            (None, None) => None,
        }
    }
}

} // verus!
