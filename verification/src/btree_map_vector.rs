//! A sorted multimap: keys kept in increasing order, the values of each key
//! kept as a sorted vector.

use vstd::prelude::*;

verus! {

/// One key together with its sorted values.
pub type Entry = (u64, Vec<u64>);

/// The view of an entry: the key and the values as a sequence.
pub open spec fn entry_view(e: Entry) -> (u64, Seq<u64>) {
    (e.0, e.1@)
}

/// Well-formedness of the association list: keys strictly increasing, every
/// group sorted and non-empty.
pub open spec fn map_wf(s: Seq<(u64, Seq<u64>)>) -> bool {
    &&& forall|i: int, j: int| 0 <= i < j < s.len() ==> s[i].0 < s[j].0
    &&& forall|i: int| 0 <= i < s.len() ==> (#[trigger] s[i]).1.len() > 0
    &&& forall|i: int, p: int, q: int|
        0 <= i < s.len() && 0 <= p < q < s[i].1.len() ==> #[trigger] s[i].1[p]
            <= #[trigger] s[i].1[q]
}

/// Inserting a value into a sorted group: it lands after every value that is
/// less than or equal to it.
pub open spec fn spec_sorted_insert(g: Seq<u64>, v: u64) -> Seq<u64>
    decreases g.len(),
{
    if g.len() == 0 {
        seq![v]
    } else if g[0] <= v {
        seq![g[0]] + spec_sorted_insert(g.drop_first(), v)
    } else {
        seq![v] + g
    }
}

/// Inserting a pair into the association list: the value joins its key's
/// group, or a fresh group is placed before the first greater key.
pub open spec fn spec_insert_entry(s: Seq<(u64, Seq<u64>)>, k: u64, v: u64) -> Seq<
    (u64, Seq<u64>),
>
    decreases s.len(),
{
    if s.len() == 0 {
        seq![(k, seq![v])]
    } else if s[0].0 < k {
        seq![s[0]] + spec_insert_entry(s.drop_first(), k, v)
    } else if s[0].0 == k {
        seq![(k, spec_sorted_insert(s[0].1, v))] + s.drop_first()
    } else {
        seq![(k, seq![v])] + s
    }
}

/// All pairs of one key with each of its values.
pub open spec fn spec_pairs_of(k: u64, g: Seq<u64>) -> Seq<(u64, u64)> {
    g.map(|i: int, v: u64| (k, v))
}

/// All pairs whose key lies in `lo..hi`, in key order, each group in value
/// order.
pub open spec fn spec_range(s: Seq<(u64, Seq<u64>)>, lo: u64, hi: u64) -> Seq<(u64, u64)>
    decreases s.len(),
{
    if s.len() == 0 {
        Seq::<(u64, u64)>::empty()
    } else {
        (if lo <= s[0].0 < hi {
            spec_pairs_of(s[0].0, s[0].1)
        } else {
            Seq::<(u64, u64)>::empty()
        }) + spec_range(s.drop_first(), lo, hi)
    }
}

/// A map from keys to vectors of values, sorted by key, each vector sorted.
#[derive(Debug)]
pub struct BTreeMapVector {
    /// The entries, with strictly increasing keys.
    map: Vec<Entry>,
}

impl View for BTreeMapVector {
    type V = Seq<(u64, Seq<u64>)>;

    closed spec fn view(&self) -> Seq<(u64, Seq<u64>)> {
        self.map@.map(|i: int, e: Entry| entry_view(e))
    }
}

proof fn lemma_sorted_insert_at(g: Seq<u64>, v: u64, p: int)
    requires
        0 <= p <= g.len(),
        forall|q: int| 0 <= q < p ==> g[q] <= v,
        p < g.len() ==> g[p] > v,
    ensures
        spec_sorted_insert(g, v) == g.subrange(0, p) + seq![v] + g.subrange(p, g.len() as int),
    decreases p,
{
    if p == 0 {
        if g.len() == 0 {
            assert(spec_sorted_insert(g, v) =~= g.subrange(0, 0) + seq![v] + g.subrange(
                0,
                g.len() as int,
            ));
        } else {
            assert(spec_sorted_insert(g, v) =~= g.subrange(0, 0) + seq![v] + g.subrange(
                0,
                g.len() as int,
            ));
        }
    } else {
        lemma_sorted_insert_at(g.drop_first(), v, p - 1);
        assert(g.drop_first().subrange(0, p - 1) =~= g.subrange(1, p));
        assert(g.drop_first().subrange(p - 1, g.drop_first().len() as int) =~= g.subrange(
            p,
            g.len() as int,
        ));
        assert(spec_sorted_insert(g, v) =~= g.subrange(0, p) + seq![v] + g.subrange(
            p,
            g.len() as int,
        ));
    }
}

proof fn lemma_insert_entry_at(s: Seq<(u64, Seq<u64>)>, k: u64, v: u64, i: int)
    requires
        0 <= i <= s.len(),
        forall|j: int| 0 <= j < i ==> s[j].0 < k,
        i < s.len() ==> s[i].0 >= k,
    ensures
        i < s.len() && s[i].0 == k ==> spec_insert_entry(s, k, v) == s.update(
            i,
            (k, spec_sorted_insert(s[i].1, v)),
        ),
        !(i < s.len() && s[i].0 == k) ==> spec_insert_entry(s, k, v) == s.subrange(0, i) + seq![
            (k, seq![v]),
        ] + s.subrange(i, s.len() as int),
    decreases i,
{
    if i == 0 {
        if 0 < s.len() && s[0].0 == k {
            assert(spec_insert_entry(s, k, v) =~= s.update(
                0,
                (k, spec_sorted_insert(s[0].1, v)),
            ));
        } else {
            assert(spec_insert_entry(s, k, v) =~= s.subrange(0, 0) + seq![(k, seq![v])]
                + s.subrange(0, s.len() as int));
        }
    } else {
        lemma_insert_entry_at(s.drop_first(), k, v, i - 1);
        if i < s.len() && s[i].0 == k {
            assert(s.drop_first().update(i - 1, (k, spec_sorted_insert(s.drop_first()[i - 1].1, v)))
                =~= s.update(i, (k, spec_sorted_insert(s[i].1, v))).drop_first());
            assert(spec_insert_entry(s, k, v) =~= s.update(
                i,
                (k, spec_sorted_insert(s[i].1, v)),
            ));
        } else {
            assert(s.drop_first().subrange(0, i - 1) =~= s.subrange(1, i));
            assert(s.drop_first().subrange(i - 1, s.drop_first().len() as int) =~= s.subrange(
                i,
                s.len() as int,
            ));
            assert(spec_insert_entry(s, k, v) =~= s.subrange(0, i) + seq![(k, seq![v])]
                + s.subrange(i, s.len() as int));
        }
    }
}

impl BTreeMapVector {
    /// Creates a new, empty map.
    pub fn new() -> (r: Self)
        ensures
            r@ == Seq::<(u64, Seq<u64>)>::empty(),
            map_wf(r@),
    {
        let r = BTreeMapVector { map: Vec::new() };
        proof {
            assert(r@ =~= Seq::<(u64, Seq<u64>)>::empty());
        }
        r
    }

    /// Inserts a key-value pair into the map, keeping keys and each key's
    /// values sorted.
    pub fn insert(&mut self, key: u64, value: u64)
        ensures
            final(self)@ == spec_insert_entry(old(self)@, key, value),
            map_wf(old(self)@) ==> map_wf(final(self)@),
    {
        let ghost s0 = self@;
        let mut i: usize = 0;
        while i < self.map.len() && self.map[i].0 < key
            invariant
                self@ == s0,
                i <= self.map.len(),
                self.map@.len() == s0.len(),
                forall|j: int| 0 <= j < i ==> s0[j].0 < key,
            decreases self.map.len() - i,
        {
            i += 1;
        }
        if i < self.map.len() && self.map[i].0 == key {
            let (k, mut g) = self.map.remove(i);
            let ghost g0 = g@;
            let mut p: usize = 0;
            while p < g.len() && g[p] <= value
                invariant
                    g@ == g0,
                    p <= g.len(),
                    forall|q: int| 0 <= q < p ==> g0[q] <= value,
                decreases g.len() - p,
            {
                p += 1;
            }
            proof {
                lemma_sorted_insert_at(g0, value, p as int);
            }
            g.insert(p, value);
            proof {
                assert(g@ =~= spec_sorted_insert(g0, value));
            }
            self.map.insert(i, (k, g));
            proof {
                lemma_insert_entry_at(s0, key, value, i as int);
                assert(self@ =~= s0.update(i as int, (key, spec_sorted_insert(s0[i as int].1, value))));
            }
        } else {
            let mut g: Vec<u64> = Vec::new();
            g.push(value);
            self.map.insert(i, (key, g));
            proof {
                lemma_insert_entry_at(s0, key, value, i as int);
                assert(self@ =~= s0.subrange(0, i as int) + seq![(key, seq![value])] + s0.subrange(
                    i as int,
                    s0.len() as int,
                ));
            }
        }
        proof {
            if map_wf(s0) {
                lemma_insert_preserves_wf(s0, key, value);
            }
        }
    }

    /// Returns every pair whose key lies in `lo..hi`, keys in increasing
    /// order, each key's values in increasing order.
    pub fn range(&self, lo: u64, hi: u64) -> (r: Vec<(u64, u64)>)
        ensures
            r@ == spec_range(self@, lo, hi),
    {
        let mut r: Vec<(u64, u64)> = Vec::new();
        let mut i: usize = 0;
        proof {
            assert(self@.skip(0) =~= self@);
        }
        while i < self.map.len()
            invariant
                i <= self.map.len(),
                self.map@.len() == self@.len(),
                r@ + spec_range(self@.skip(i as int), lo, hi) == spec_range(self@, lo, hi),
            decreases self.map.len() - i,
        {
            let ghost pre = r@;
            let key = self.map[i].0;
            if lo <= key && key < hi {
                let mut j: usize = 0;
                let glen = self.map[i].1.len();
                while j < glen
                    invariant
                        j <= glen,
                        i < self.map.len(),
                        self.map@.len() == self@.len(),
                        glen == self.map[i as int].1@.len(),
                        key == self.map[i as int].0,
                        r@ == pre + spec_pairs_of(key, self@[i as int].1).take(j as int),
                    decreases glen - j,
                {
                    let v = self.map[i].1[j];
                    r.push((key, v));
                    proof {
                        assert(spec_pairs_of(key, self@[i as int].1).take(j + 1) =~= spec_pairs_of(
                            key,
                            self@[i as int].1,
                        ).take(j as int).push((key, v)));
                    }
                    j += 1;
                }
                proof {
                    assert(spec_pairs_of(key, self@[i as int].1).take(glen as int) =~= spec_pairs_of(
                        key,
                        self@[i as int].1,
                    ));
                }
            }
            proof {
                assert(self@.skip(i as int).drop_first() =~= self@.skip(i + 1));
                assert(self@.skip(i as int)[0] == self@[i as int]);
                assert(r@ + spec_range(self@.skip(i + 1), lo, hi) =~= spec_range(self@, lo, hi));
            }
            i += 1;
        }
        proof {
            assert(spec_range(self@.skip(self@.len() as int), lo, hi) =~= Seq::<(u64, u64)>::empty());
            assert(r@ =~= spec_range(self@, lo, hi));
        }
        r
    }
}

/// Inserting a sorted value keeps a sorted group sorted and non-empty.
proof fn lemma_sorted_insert_sorted(g: Seq<u64>, v: u64)
    requires
        forall|p: int, q: int| 0 <= p < q < g.len() ==> g[p] <= g[q],
    ensures
        spec_sorted_insert(g, v).len() == g.len() + 1,
        forall|p: int, q: int|
            0 <= p < q < spec_sorted_insert(g, v).len() ==> spec_sorted_insert(g, v)[p]
                <= spec_sorted_insert(g, v)[q],
        spec_sorted_insert(g, v).contains(v),
    decreases g.len(),
{
    if g.len() == 0 {
        assert(spec_sorted_insert(g, v)[0] == v);
    } else if g[0] <= v {
        assert(forall|p: int, q: int|
            0 <= p < q < g.drop_first().len() ==> g.drop_first()[p] <= g.drop_first()[q]);
        lemma_sorted_insert_sorted(g.drop_first(), v);
        let r = spec_sorted_insert(g, v);
        let rt = spec_sorted_insert(g.drop_first(), v);
        assert(rt.contains(v));
        assert(exists|x: int| 0 <= x < rt.len() && rt[x] == v);
        assert forall|p: int, q: int| 0 <= p < q < r.len() implies r[p] <= r[q] by {
            if p == 0 {
                if q < r.len() {
                    let x = choose|x: int| 0 <= x < rt.len() && rt[x] == v;
                    if rt[q - 1] == v {
                    } else {
                        lemma_sorted_insert_keeps(g.drop_first(), v, q - 1);
                    }
                }
            }
        }
        assert(r.contains(v)) by {
            let x = choose|x: int| 0 <= x < rt.len() && rt[x] == v;
            assert(r[x + 1] == v);
        }
    } else {
        assert(spec_sorted_insert(g, v)[0] == v);
    }
}

/// Every value of a group after insertion is the new value or an old one.
proof fn lemma_sorted_insert_keeps(g: Seq<u64>, v: u64, p: int)
    requires
        0 <= p < spec_sorted_insert(g, v).len(),
    ensures
        spec_sorted_insert(g, v)[p] == v || g.contains(spec_sorted_insert(g, v)[p]),
    decreases g.len(),
{
    if g.len() == 0 {
    } else if g[0] <= v {
        if p == 0 {
            assert(g.contains(g[0]));
        } else {
            lemma_sorted_insert_keeps(g.drop_first(), v, p - 1);
            if g.drop_first().contains(spec_sorted_insert(g, v)[p]) {
                let x = choose|x: int|
                    0 <= x < g.drop_first().len() && g.drop_first()[x] == spec_sorted_insert(
                        g,
                        v,
                    )[p];
                assert(g[x + 1] == spec_sorted_insert(g, v)[p]);
            }
        }
    } else {
    }
}

/// Inserting a pair preserves the map's well-formedness.
proof fn lemma_insert_preserves_wf(s: Seq<(u64, Seq<u64>)>, k: u64, v: u64)
    requires
        map_wf(s),
    ensures
        map_wf(spec_insert_entry(s, k, v)),
    decreases s.len(),
{
    let r = spec_insert_entry(s, k, v);
    if s.len() == 0 {
        assert(r =~= seq![(k, seq![v])]);
    } else if s[0].0 < k {
        lemma_wf_drop_first(s);
        lemma_insert_preserves_wf(s.drop_first(), k, v);
        let rt = spec_insert_entry(s.drop_first(), k, v);
        assert(r =~= seq![s[0]] + rt);
        assert forall|i: int, j: int| 0 <= i < j < r.len() implies r[i].0 < r[j].0 by {
            if i == 0 {
                lemma_insert_entry_keys(s.drop_first(), k, v, j - 1);
            }
        }
        assert forall|i: int| 0 <= i < r.len() implies (#[trigger] r[i]).1.len() > 0 by {
            if i > 0 {
                assert(rt[i - 1].1.len() > 0);
            }
        }
        assert forall|i: int, p: int, q: int|
            0 <= i < r.len() && 0 <= p < q < r[i].1.len() implies #[trigger] r[i].1[p]
            <= #[trigger] r[i].1[q] by {
            if i > 0 {
                assert(rt[i - 1].1[p] <= rt[i - 1].1[q]);
            }
        }
    } else if s[0].0 == k {
        lemma_sorted_insert_sorted(s[0].1, v);
        assert(r =~= seq![(k, spec_sorted_insert(s[0].1, v))] + s.drop_first());
        assert forall|i: int, j: int| 0 <= i < j < r.len() implies r[i].0 < r[j].0 by {
            if i > 0 {
                assert(s[i].0 < s[j].0);
            } else {
                assert(s[0].0 < s[j].0);
            }
        }
    } else {
        assert(r =~= seq![(k, seq![v])] + s);
    }
}

/// Every key after insertion is the new key or an old one, placed at least as
/// high as the new key.
proof fn lemma_insert_entry_keys(s: Seq<(u64, Seq<u64>)>, k: u64, v: u64, j: int)
    requires
        map_wf(s),
        0 <= j < spec_insert_entry(s, k, v).len(),
    ensures
        spec_insert_entry(s, k, v)[j].0 == k || exists|x: int|
            0 <= x < s.len() && s[x].0 == spec_insert_entry(s, k, v)[j].0,
        spec_insert_entry(s, k, v)[j].0 >= k || (exists|x: int|
            0 <= x < s.len() && s[x].0 == spec_insert_entry(s, k, v)[j].0 && s[x].0 < k),
    decreases s.len(),
{
    let r = spec_insert_entry(s, k, v);
    if s.len() == 0 {
    } else if s[0].0 < k {
        if j == 0 {
        } else {
            lemma_wf_drop_first(s);
            lemma_insert_entry_keys(s.drop_first(), k, v, j - 1);
            let rt = spec_insert_entry(s.drop_first(), k, v);
            assert(r[j] == rt[j - 1]);
            if rt[j - 1].0 != k {
                let x = choose|x: int|
                    0 <= x < s.drop_first().len() && s.drop_first()[x].0 == rt[j - 1].0;
                assert(s[x + 1].0 == r[j].0);
            }
        }
    } else if s[0].0 == k {
        if j > 0 {
            assert(r[j] == s[j]);
        }
    } else {
        if j > 0 {
            assert(r[j] == s[j - 1]);
        }
    }
}

/// A well-formed association list stays well-formed with its head removed.
proof fn lemma_wf_drop_first(s: Seq<(u64, Seq<u64>)>)
    requires
        map_wf(s),
        s.len() > 0,
    ensures
        map_wf(s.drop_first()),
{
    let st = s.drop_first();
    assert forall|i: int, j: int| 0 <= i < j < st.len() implies st[i].0 < st[j].0 by {
        assert(st[i] == s[i + 1]);
        assert(st[j] == s[j + 1]);
    }
    assert forall|i: int| 0 <= i < st.len() implies (#[trigger] st[i]).1.len() > 0 by {
        assert(st[i] == s[i + 1]);
        assert(s[i + 1].1.len() > 0);
    }
    assert forall|i: int, p: int, q: int|
        0 <= i < st.len() && 0 <= p < q < st[i].1.len() implies #[trigger] st[i].1[p]
        <= #[trigger] st[i].1[q] by {
        assert(st[i] == s[i + 1]);
        assert(s[i + 1].1[p] <= s[i + 1].1[q]);
    }
}

} // verus!
