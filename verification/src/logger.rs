//! Merging logging filter directives: the directives already set in the
//! environment, split into source-and-level entries, take precedence over a
//! set of defaults, and the merged set is rendered back into one string.
//!
//! A directive string is entries joined by `,`; an entry is `source=level`
//! or a bare `level`.

use vstd::prelude::*;

verus! {

/// One filter entry: an optional source, and a level.
pub type Filter = (Option<String>, String);

/// The view of one filter entry.
pub open spec fn filter_view(e: Filter) -> (Option<Seq<char>>, Seq<char>) {
    (
        match e.0 {
            Some(s) => Some(s@),
            None => None,
        },
        e.1@,
    )
}

/// The views of a list of filter entries.
pub open spec fn filter_views(v: Seq<Filter>) -> Seq<(Option<Seq<char>>, Seq<char>)> {
    v.map(|i: int, e: Filter| filter_view(e))
}

/// Splitting a string at every occurrence of a separator; `n` separators
/// yield `n + 1` pieces, empty pieces included.
pub open spec fn spec_split(s: Seq<char>, sep: char) -> Seq<Seq<char>>
    decreases s.len(),
{
    if s.len() == 0 {
        seq![Seq::<char>::empty()]
    } else {
        let rest = spec_split(s.drop_first(), sep);
        if s[0] == sep {
            seq![Seq::<char>::empty()] + rest
        } else {
            seq![seq![s[0]] + rest[0]] + rest.drop_first()
        }
    }
}

/// Splitting a string at the first occurrence of a separator, if any.
pub open spec fn spec_split_once(s: Seq<char>, sep: char) -> Option<(Seq<char>, Seq<char>)>
    decreases s.len(),
{
    if s.len() == 0 {
        None
    } else if s[0] == sep {
        Some((Seq::<char>::empty(), s.drop_first()))
    } else {
        match spec_split_once(s.drop_first(), sep) {
            Some((a, b)) => Some((seq![s[0]] + a, b)),
            None => None,
        }
    }
}

/// Reading one entry: the part before the first `=` is the source, the part
/// after it the level; with no `=`, the whole entry is a bare level.
pub open spec fn spec_parse_entry(piece: Seq<char>) -> (Option<Seq<char>>, Seq<char>) {
    match spec_split_once(piece, '=') {
        Some((src, level)) => (Some(src), level),
        None => (None, piece),
    }
}

/// Setting a key's level: the first entry with the key is overwritten in
/// place; a new key is appended.
pub open spec fn spec_upsert(
    m: Seq<(Option<Seq<char>>, Seq<char>)>,
    k: Option<Seq<char>>,
    v: Seq<char>,
) -> Seq<(Option<Seq<char>>, Seq<char>)>
    decreases m.len(),
{
    if m.len() == 0 {
        seq![(k, v)]
    } else if m[0].0 == k {
        seq![(k, v)] + m.drop_first()
    } else {
        seq![m[0]] + spec_upsert(m.drop_first(), k, v)
    }
}

/// Adding a default: an entry whose key is present is left alone; a new key
/// is appended.
pub open spec fn spec_add_default(
    m: Seq<(Option<Seq<char>>, Seq<char>)>,
    k: Option<Seq<char>>,
    v: Seq<char>,
) -> Seq<(Option<Seq<char>>, Seq<char>)>
    decreases m.len(),
{
    if m.len() == 0 {
        seq![(k, v)]
    } else if m[0].0 == k {
        m
    } else {
        seq![m[0]] + spec_add_default(m.drop_first(), k, v)
    }
}

/// Collecting parsed entries front to back, later entries for a key
/// overriding earlier ones.
pub open spec fn spec_collect_from(
    acc: Seq<(Option<Seq<char>>, Seq<char>)>,
    pieces: Seq<Seq<char>>,
) -> Seq<(Option<Seq<char>>, Seq<char>)>
    decreases pieces.len(),
{
    if pieces.len() == 0 {
        acc
    } else {
        let e = spec_parse_entry(pieces[0]);
        spec_collect_from(spec_upsert(acc, e.0, e.1), pieces.drop_first())
    }
}

/// Adding defaults front to back, keys already present left alone.
pub open spec fn spec_add_defaults_from(
    acc: Seq<(Option<Seq<char>>, Seq<char>)>,
    defaults: Seq<(Option<Seq<char>>, Seq<char>)>,
) -> Seq<(Option<Seq<char>>, Seq<char>)>
    decreases defaults.len(),
{
    if defaults.len() == 0 {
        acc
    } else {
        spec_add_defaults_from(
            spec_add_default(acc, defaults[0].0, defaults[0].1),
            defaults.drop_first(),
        )
    }
}

/// Rendering one entry back into text.
pub open spec fn spec_entry_text(e: (Option<Seq<char>>, Seq<char>)) -> Seq<char> {
    match e.0 {
        Some(src) => src + "="@ + e.1,
        None => e.1,
    }
}

/// Rendering the entries back into one directive string.
pub open spec fn spec_join(m: Seq<(Option<Seq<char>>, Seq<char>)>) -> Seq<char>
    decreases m.len(),
{
    if m.len() == 0 {
        Seq::<char>::empty()
    } else if m.len() == 1 {
        spec_entry_text(m[0])
    } else {
        spec_entry_text(m[0]) + ","@ + spec_join(m.drop_first())
    }
}

/// The merged directives of an environment value and a set of defaults: the
/// environment's entries, later duplicates overriding earlier ones, then
/// every default whose key the environment does not set, in order.
pub open spec fn spec_env_filters(
    var: Option<Seq<char>>,
    defaults: Seq<(Option<Seq<char>>, Seq<char>)>,
) -> Seq<char> {
    let parsed = match var {
        Some(s) => spec_collect_from(Seq::empty(), spec_split(s, ',')),
        None => Seq::empty(),
    };
    spec_join(spec_add_defaults_from(parsed, defaults))
}

proof fn lemma_split_at(s: Seq<char>, sep: char, i: int)
    requires
        0 <= i <= s.len(),
        forall|j: int| 0 <= j < i ==> s[j] != sep,
        i < s.len() ==> s[i] == sep,
    ensures
        i == s.len() ==> spec_split(s, sep) == seq![s],
        i < s.len() ==> spec_split(s, sep) == seq![s.take(i)] + spec_split(s.skip(i + 1), sep),
    decreases i,
{
    if i == 0 {
        if 0 == s.len() {
            assert(spec_split(s, sep) =~~= seq![s]);
        } else if s[0] == sep {
            assert(s.drop_first() =~= s.skip(1));
            assert(s.take(0) =~= Seq::<char>::empty());
            assert(spec_split(s, sep) =~~= seq![s.take(0)] + spec_split(s.skip(1), sep));
        } else {
            assert(false);
        }
    } else {
        lemma_split_at(s.drop_first(), sep, i - 1);
        let rest = spec_split(s.drop_first(), sep);
        if i == s.len() {
            assert(rest == seq![s.drop_first()]);
            assert(seq![s[0]] + rest[0] =~= s);
            assert(spec_split(s, sep) =~~= seq![s]);
        } else {
            assert(rest == seq![s.drop_first().take(i - 1)] + spec_split(
                s.drop_first().skip(i),
                sep,
            ));
            assert(s.drop_first().take(i - 1) =~= s.take(i).drop_first());
            assert(seq![s[0]] + rest[0] =~= s.take(i));
            assert(s.drop_first().skip(i) =~= s.skip(i + 1));
            assert(spec_split(s, sep) =~~= seq![s.take(i)] + spec_split(s.skip(i + 1), sep));
        }
    }
}

proof fn lemma_split_once_at(s: Seq<char>, sep: char, i: int)
    requires
        0 <= i <= s.len(),
        forall|j: int| 0 <= j < i ==> s[j] != sep,
        i < s.len() ==> s[i] == sep,
    ensures
        i == s.len() ==> spec_split_once(s, sep) is None,
        i < s.len() ==> spec_split_once(s, sep) == Some((s.take(i), s.skip(i + 1))),
    decreases i,
{
    if i == 0 {
        if 0 < s.len() {
            assert(s.take(0) =~= Seq::<char>::empty());
            assert(s.drop_first() =~= s.skip(1));
        }
    } else {
        lemma_split_once_at(s.drop_first(), sep, i - 1);
        if i < s.len() {
            assert(s.drop_first().take(i - 1) =~= s.take(i).drop_first());
            assert(seq![s[0]] + s.take(i).drop_first() =~= s.take(i));
            assert(s.drop_first().skip(i) =~= s.skip(i + 1));
        }
    }
}

/// Splits a string at every occurrence of a separator.
fn split_string(s: &str, sep: char) -> (r: Vec<String>)
    ensures
        r@.len() == spec_split(s@, sep).len(),
        forall|i: int| 0 <= i < r@.len() ==> (#[trigger] r@[i])@ == spec_split(s@, sep)[i],
    decreases s@.len(),
{
    let len = s.unicode_len();
    let mut i: usize = 0;
    while i < len && s.get_char(i) != sep
        invariant
            i <= len == s@.len(),
            forall|j: int| 0 <= j < i ==> s@[j] != sep,
        decreases len - i,
    {
        i += 1;
    }
    proof {
        lemma_split_at(s@, sep, i as int);
    }
    if i == len {
        let mut r: Vec<String> = Vec::new();
        r.push(s.to_owned());
        r
    } else {
        let piece = s.substring_char(0, i).to_owned();
        let rest = s.substring_char(i + 1, len);
        let mut r = split_string(rest, sep);
        r.insert(0, piece);
        r
    }
}

/// Splits an entry at its first `=`, into source and level.
fn parse_entry(piece: &str) -> (r: Filter)
    ensures
        filter_view(r) == spec_parse_entry(piece@),
{
    let len = piece.unicode_len();
    let mut i: usize = 0;
    while i < len && piece.get_char(i) != '='
        invariant
            i <= len == piece@.len(),
            forall|j: int| 0 <= j < i ==> piece@[j] != '=',
        decreases len - i,
    {
        i += 1;
    }
    proof {
        lemma_split_once_at(piece@, '=', i as int);
    }
    if i == len {
        (None, piece.to_owned())
    } else {
        let src = piece.substring_char(0, i).to_owned();
        let level = piece.substring_char(i + 1, len).to_owned();
        (Some(src), level)
    }
}

/// Returns whether two entry keys are the same source.
fn keys_eq(a: &Option<String>, b: &Option<String>) -> (r: bool)
    ensures
        r == (match (a, b) {
            (Some(x), Some(y)) => Some(x@) == Some::<Seq<char>>(y@),
            (None, None) => true,
            _ => false,
        }),
{
    match (a, b) {
        (Some(x), Some(y)) => x.eq(y),
        (None, None) => true,
        _ => false,
    }
}

/// Sets a key's level, overwriting the first entry with the key in place or
/// appending a new one.
fn upsert(m: Vec<Filter>, k: Option<String>, v: String) -> (r: Vec<Filter>)
    ensures
        filter_views(r@) == spec_upsert(filter_views(m@), filter_view((k, v)).0, v@),
    decreases m@.len(),
{
    let ghost m0 = filter_views(m@);
    let ghost kv = filter_view((k, v));
    let mut mm = m;
    if mm.len() == 0 {
        mm.push((k, v));
        proof {
            assert(filter_views(mm@) =~= spec_upsert(m0, kv.0, kv.1));
        }
        mm
    } else {
        let head = mm.remove(0);
        proof {
            assert(filter_views(mm@) =~= m0.drop_first());
            assert(filter_view(head) == m0[0]);
        }
        if keys_eq(&head.0, &k) {
            mm.insert(0, (k, v));
            proof {
                assert(m0[0].0 == kv.0);
                assert(filter_views(mm@) =~= seq![kv] + m0.drop_first());
                assert(filter_views(mm@) =~= spec_upsert(m0, kv.0, kv.1));
            }
            mm
        } else {
            proof {
                assert(m0[0].0 != kv.0);
            }
            let mut r = upsert(mm, k, v);
            r.insert(0, head);
            proof {
                assert(filter_views(r@) =~= seq![m0[0]] + spec_upsert(m0.drop_first(), kv.0, kv.1));
                assert(filter_views(r@) =~= spec_upsert(m0, kv.0, kv.1));
            }
            r
        }
    }
}

/// Adds a default, leaving an already-present key alone.
fn add_default(m: Vec<Filter>, k: Option<String>, v: String) -> (r: Vec<Filter>)
    ensures
        filter_views(r@) == spec_add_default(filter_views(m@), filter_view((k, v)).0, v@),
    decreases m@.len(),
{
    let ghost m0 = filter_views(m@);
    let ghost kv = filter_view((k, v));
    let mut mm = m;
    if mm.len() == 0 {
        mm.push((k, v));
        proof {
            assert(filter_views(mm@) =~= spec_add_default(m0, kv.0, kv.1));
        }
        mm
    } else {
        let head = mm.remove(0);
        proof {
            assert(filter_views(mm@) =~= m0.drop_first());
            assert(filter_view(head) == m0[0]);
        }
        if keys_eq(&head.0, &k) {
            mm.insert(0, head);
            proof {
                assert(m0[0].0 == kv.0);
                assert(filter_views(mm@) =~= m0);
            }
            mm
        } else {
            proof {
                assert(m0[0].0 != kv.0);
            }
            let mut r = add_default(mm, k, v);
            r.insert(0, head);
            proof {
                assert(filter_views(r@) =~= seq![m0[0]] + spec_add_default(
                    m0.drop_first(),
                    kv.0,
                    kv.1,
                ));
                assert(filter_views(r@) =~= spec_add_default(m0, kv.0, kv.1));
            }
            r
        }
    }
}

/// Renders the entries back into one directive string.
fn join_filters(m: &Vec<Filter>, i: usize) -> (r: String)
    requires
        i <= m@.len(),
    ensures
        r@ == spec_join(filter_views(m@).skip(i as int)),
    decreases m@.len() - i,
{
    let mut out = String::new();
    if i >= m.len() {
        proof {
            assert(filter_views(m@).skip(i as int) =~= Seq::<
                (Option<Seq<char>>, Seq<char>),
            >::empty());
        }
        return out;
    }
    match &m[i].0 {
        Some(src) => {
            out.append(src.as_str());
            out.append("=");
            out.append(m[i].1.as_str());
        },
        None => {
            out.append(m[i].1.as_str());
        },
    }
    if i + 1 < m.len() {
        out.append(",");
        let rest = join_filters(m, i + 1);
        out.append(rest.as_str());
    }
    proof {
        let tail = filter_views(m@).skip(i as int);
        assert(tail[0] == filter_view(m@[i as int]));
        assert(tail.drop_first() =~= filter_views(m@).skip(i + 1));
        assert(out@ =~= spec_join(tail));
    }
    out
}

/// Merges the filter directives of an environment value with defaults: the
/// environment's entries, later duplicates overriding earlier ones, then
/// every default whose source the environment does not mention, and renders
/// them as one directive string. Reading the environment itself is
/// input/output and stays with the host.
pub fn get_env_filters(var: Option<String>, default_filters: Vec<Filter>) -> (r: String)
    ensures
        r@ == spec_env_filters(
            match var {
                Some(v) => Some(v@),
                None => None,
            },
            filter_views(default_filters@),
        ),
{
    let mut entries: Vec<Filter> = Vec::new();
    let ghost parsed_spec = match &var {
        Some(v) => spec_collect_from(Seq::empty(), spec_split(v@, ',')),
        None => Seq::<(Option<Seq<char>>, Seq<char>)>::empty(),
    };
    proof {
        assert(filter_views(entries@) =~= Seq::<(Option<Seq<char>>, Seq<char>)>::empty());
    }
    match &var {
        Some(v) => {
            let pieces = split_string(v.as_str(), ',');
            let ghost all = spec_split(v@, ',');
            let mut i: usize = 0;
            proof {
                assert(all.skip(0) =~= all);
            }
            while i < pieces.len()
                invariant
                    i <= pieces@.len() == all.len(),
                    forall|j: int| 0 <= j < all.len() ==> (#[trigger] pieces@[j])@ == all[j],
                    spec_collect_from(filter_views(entries@), all.skip(i as int)) == parsed_spec,
                decreases pieces@.len() - i,
            {
                let e = parse_entry(pieces[i].as_str());
                entries = upsert(entries, e.0, e.1);
                proof {
                    assert(all.skip(i as int)[0] == all[i as int]);
                    assert(all.skip(i as int).drop_first() =~= all.skip(i + 1));
                }
                i += 1;
            }
            proof {
                assert(all.skip(pieces@.len() as int) =~= Seq::<Seq<char>>::empty());
            }
        },
        None => {},
    }
    proof {
        assert(filter_views(entries@) == parsed_spec);
    }
    let mut defaults = default_filters;
    let ghost defaults0 = filter_views(defaults@);
    let mut merged = entries;
    let ghost mut k: int = 0;
    proof {
        assert(defaults0.skip(0) =~= defaults0);
        assert(filter_views(defaults@) =~= defaults0);
    }
    while defaults.len() > 0
        invariant
            0 <= k,
            k + defaults@.len() == defaults0.len(),
            filter_views(defaults@) == defaults0.skip(k),
            spec_add_defaults_from(filter_views(merged@), defaults0.skip(k))
                == spec_add_defaults_from(parsed_spec, defaults0),
        decreases defaults@.len(),
    {
        let d = defaults.remove(0);
        proof {
            assert(filter_views(defaults@) =~= defaults0.skip(k).drop_first());
            assert(defaults0.skip(k)[0] == defaults0[k]);
        }
        merged = add_default(merged, d.0, d.1);
        proof {
            assert(defaults0.skip(k).drop_first() =~= defaults0.skip(k + 1));
            k = k + 1;
        }
    }
    proof {
        assert(defaults0.skip(k) =~= Seq::<(Option<Seq<char>>, Seq<char>)>::empty());
        assert(filter_views(merged@).skip(0) =~= filter_views(merged@));
    }
    join_filters(&merged, 0)
}

} // verus!

