//! The multi-valued string map at the heart of the Canonical Request
//! Model: field name to ordered, non-empty list of values, with the keys
//! kept in first-appearance order.

use vstd::prelude::*;
use crate::strutil::str_eq;

verus! {

/// First entry whose key is `k`, if any.
pub open spec fn spec_key_index(m: Seq<(Seq<char>, Seq<Seq<char>>)>, k: Seq<char>) -> Option<int>
    decreases m.len(),
{
    if m.len() == 0 {
        None
    } else if m[0].0 == k {
        Some(0)
    } else {
        match spec_key_index(m.drop_first(), k) {
            Some(i) => Some(i + 1),
            None => None,
        }
    }
}

/// `spec_key_index` returns the first entry holding `k`, and `None` only
/// when no entry holds it.
pub proof fn lemma_key_index_correct(m: Seq<(Seq<char>, Seq<Seq<char>>)>, k: Seq<char>)
    ensures
        match spec_key_index(m, k) {
            Some(i) => 0 <= i < m.len() && m[i].0 == k && (forall|j: int|
                0 <= j < i ==> m[j].0 != k),
            None => forall|j: int| 0 <= j < m.len() ==> m[j].0 != k,
        },
    decreases m.len(),
{
    if m.len() == 0 {
    } else if m[0].0 == k {
    } else {
        lemma_key_index_correct(m.drop_first(), k);
        assert(forall|j: int| 1 <= j < m.len() ==> #[trigger] m[j] == m.drop_first()[j - 1]);
    }
}

/// `spec_key_index` looks only at the keys.
pub proof fn lemma_key_index_same_keys(
    m1: Seq<(Seq<char>, Seq<Seq<char>>)>,
    m2: Seq<(Seq<char>, Seq<Seq<char>>)>,
    k: Seq<char>,
)
    requires
        m1.len() == m2.len(),
        forall|i: int| 0 <= i < m1.len() ==> m1[i].0 == m2[i].0,
    ensures
        spec_key_index(m1, k) == spec_key_index(m2, k),
    decreases m1.len(),
{
    if m1.len() > 0 && !(m1[0].0 == k) {
        lemma_key_index_same_keys(m1.drop_first(), m2.drop_first(), k);
        assert(forall|j: int| 1 <= j < m1.len() ==> #[trigger] m1[j] == m1.drop_first()[j - 1]);
        assert(forall|j: int| 1 <= j < m2.len() ==> #[trigger] m2[j] == m2.drop_first()[j - 1]);
    }
}

/// One `key=value` pair appended to a grouped map: the value is pushed
/// onto the key's list, or a fresh single-value entry is added at the end.
pub open spec fn spec_append_value(
    m: Seq<(Seq<char>, Seq<Seq<char>>)>,
    k: Seq<char>,
    v: Seq<char>,
) -> Seq<(Seq<char>, Seq<Seq<char>>)> {
    match spec_key_index(m, k) {
        Some(i) => m.update(i, (m[i].0, m[i].1.push(v))),
        None => m.push((k, seq![v])),
    }
}

/// The grouped form of a pair sequence, built left to right by
/// `spec_append_value`.
pub open spec fn spec_group(pairs: Seq<(Seq<char>, Seq<char>)>) -> Seq<
    (Seq<char>, Seq<Seq<char>>),
>
    decreases pairs.len(),
{
    if pairs.len() == 0 {
        Seq::empty()
    } else {
        spec_append_value(spec_group(pairs.drop_last()), pairs.last().0, pairs.last().1)
    }
}

/// Well-formedness of a grouped map: keys pairwise distinct, every value
/// list non-empty. An absent field is an absent key, never an empty list.
pub open spec fn wf_multi(m: Seq<(Seq<char>, Seq<Seq<char>>)>) -> bool {
    &&& forall|i: int, j: int| 0 <= i < j < m.len() ==> m[i].0 != m[j].0
    &&& forall|i: int| 0 <= i < m.len() ==> (#[trigger] m[i].1).len() >= 1
}

pub proof fn lemma_append_value_wf(
    m: Seq<(Seq<char>, Seq<Seq<char>>)>,
    k: Seq<char>,
    v: Seq<char>,
)
    requires
        wf_multi(m),
    ensures
        wf_multi(spec_append_value(m, k, v)),
{
    lemma_key_index_correct(m, k);
}

pub proof fn lemma_group_wf(pairs: Seq<(Seq<char>, Seq<char>)>)
    ensures
        wf_multi(spec_group(pairs)),
    decreases pairs.len(),
{
    if pairs.len() > 0 {
        lemma_group_wf(pairs.drop_last());
        lemma_append_value_wf(spec_group(pairs.drop_last()), pairs.last().0, pairs.last().1);
    }
}

/// The values carried by `pairs` under key `k`, in pair order.
pub open spec fn spec_values_of(pairs: Seq<(Seq<char>, Seq<char>)>, k: Seq<char>) -> Seq<
    Seq<char>,
>
    decreases pairs.len(),
{
    if pairs.len() == 0 {
        Seq::empty()
    } else {
        let rest = spec_values_of(pairs.drop_last(), k);
        if pairs.last().0 == k {
            rest.push(pairs.last().1)
        } else {
            rest
        }
    }
}

/// Grouping semantics: a key appears in the grouped map exactly when a
/// pair carries it, and its list is then exactly the values of those
/// pairs, in their original order.
pub proof fn lemma_group_semantics(pairs: Seq<(Seq<char>, Seq<char>)>, k: Seq<char>)
    ensures
        spec_key_index(spec_group(pairs), k) is Some <==> spec_values_of(pairs, k).len() > 0,
        spec_key_index(spec_group(pairs), k) matches Some(i) ==> spec_group(pairs)[i].0 == k
            && spec_group(pairs)[i].1 == spec_values_of(pairs, k),
    decreases pairs.len(),
{
    if pairs.len() == 0 {
    } else {
        let prev = spec_group(pairs.drop_last());
        let (pk, pv) = pairs.last();
        lemma_group_semantics(pairs.drop_last(), k);
        lemma_key_index_correct(prev, k);
        lemma_key_index_correct(prev, pk);
        let cur = spec_group(pairs);
        assert(cur == spec_append_value(prev, pk, pv));
        match spec_key_index(prev, pk) {
            Some(i) => {
                assert(cur =~= prev.update(i, (prev[i].0, prev[i].1.push(pv))));
                lemma_key_index_same_keys(cur, prev, k);
            },
            None => {
                assert(cur =~= prev.push((pk, seq![pv])));
                if spec_key_index(prev, k) is Some {
                    lemma_key_index_push_found(prev, k, (pk, seq![pv]));
                } else {
                    lemma_key_index_push_new(prev, k, (pk, seq![pv]));
                }
            },
        }
    }
}

/// Pushing an entry does not move an already-present key.
proof fn lemma_key_index_push_found(
    m: Seq<(Seq<char>, Seq<Seq<char>>)>,
    k: Seq<char>,
    e: (Seq<char>, Seq<Seq<char>>),
)
    requires
        spec_key_index(m, k) is Some,
    ensures
        spec_key_index(m.push(e), k) == spec_key_index(m, k),
        m.push(e)[spec_key_index(m, k).unwrap()] == m[spec_key_index(m, k).unwrap()],
    decreases m.len(),
{
    lemma_key_index_correct(m, k);
    if m.len() > 0 && !(m[0].0 == k) {
        lemma_key_index_push_found(m.drop_first(), k, e);
        assert(m.push(e).drop_first() =~= m.drop_first().push(e));
    }
}

/// Pushing an entry with a fresh key places that key at the end.
proof fn lemma_key_index_push_new(
    m: Seq<(Seq<char>, Seq<Seq<char>>)>,
    k: Seq<char>,
    e: (Seq<char>, Seq<Seq<char>>),
)
    requires
        spec_key_index(m, k) is None,
    ensures
        spec_key_index(m.push(e), k) == if e.0 == k {
            Some(m.len() as int)
        } else {
            None::<int>
        },
    decreases m.len(),
{
    lemma_key_index_correct(m, k);
    if m.len() == 0 {
        assert(m.push(e)[0] == e);
        if e.0 == k {
            assert(spec_key_index(m.push(e), k) == Some(0int));
        } else {
            assert(m.push(e).drop_first() =~= Seq::<(Seq<char>, Seq<Seq<char>>)>::empty());
            assert(spec_key_index(m.push(e).drop_first(), k) is None);
            assert(spec_key_index(m.push(e), k) is None);
        }
    } else {
        lemma_key_index_push_new(m.drop_first(), k, e);
        assert(m.push(e).drop_first() =~= m.drop_first().push(e));
        assert(m.push(e)[0] == m[0]);
        assert(m.drop_first().len() == m.len() - 1);
    }
}

/// Field name to ordered list of values, keys unique and kept in
/// first-appearance order, every list non-empty.
#[derive(Debug)]
pub struct MultiMap {
    entries: Vec<(String, Vec<String>)>,
}

impl View for MultiMap {
    type V = Seq<(Seq<char>, Seq<Seq<char>>)>;

    closed spec fn view(&self) -> Seq<(Seq<char>, Seq<Seq<char>>)> {
        self.entries.deep_view()
    }
}

impl MultiMap {
    /// The map with no fields.
    pub fn new() -> (m: MultiMap)
        ensures
            m@ =~= Seq::<(Seq<char>, Seq<Seq<char>>)>::empty(),
            wf_multi(m@),
    {
        let m = MultiMap { entries: Vec::new() };
        proof {
            assert(m@ =~= Seq::<(Seq<char>, Seq<Seq<char>>)>::empty());
        }
        m
    }

    /// How many distinct field names the map holds.
    pub fn len(&self) -> (n: usize)
        ensures
            n == self@.len(),
    {
        self.entries.len()
    }

    /// The entry at position `i`, as the field name and its value list.
    pub fn entry_at(&self, i: usize) -> (e: &(String, Vec<String>))
        requires
            i < self@.len(),
        ensures
            e.deep_view() == self@[i as int],
    {
        &self.entries[i]
    }

    /// Append `value` to the list of `key`, creating the field at the end
    /// of the map when it is new.
    pub fn add(&mut self, key: String, value: String)
        ensures
            final(self)@ == spec_append_value(old(self)@, key@, value@),
            wf_multi(old(self)@) ==> wf_multi(final(self)@),
    {
        proof {
            if wf_multi(self@) {
                lemma_append_value_wf(self@, key@, value@);
            }
        }
        proof {
            lemma_key_index_correct(self@, key@);
        }
        let n: usize = self.entries.len();
        let mut j: usize = 0;
        while j < n
            invariant
                self == old(self),
                n == self@.len(),
                j <= n,
                forall|t: int| 0 <= t < j ==> (#[trigger] self@[t]).0 != key@,
                match spec_key_index(self@, key@) {
                    Some(i) => 0 <= i < self@.len() && self@[i].0 == key@ && (forall|t: int|
                        0 <= t < i ==> self@[t].0 != key@),
                    None => forall|t: int| 0 <= t < self@.len() ==> self@[t].0 != key@,
                },
            decreases n - j,
        {
            proof {
                assert(self@[j as int] == self.entries@[j as int].deep_view());
            }
            if str_eq(self.entries[j].0.as_str(), key.as_str()) {
                let ghost old_view = self@;
                let mut pair = self.entries.remove(j);
                pair.1.push(value);
                self.entries.insert(j, pair);
                proof {
                    assert(self@ =~~= old_view.update(
                        j as int,
                        (old_view[j as int].0, old_view[j as int].1.push(value@)),
                    ));
                    assert(spec_key_index(old_view, key@) == Some(j as int));
                }
                return ;
            }
            j = j + 1;
        }
        let ghost old_view = self@;
        let mut vs: Vec<String> = Vec::new();
        vs.push(value);
        self.entries.push((key, vs));
        proof {
            assert(vs.deep_view() =~= seq![value@]);
            assert(self@ =~~= old_view.push((key@, seq![value@])));
        }
    }

    /// The value list of `key`, if the field is present.
    pub fn get<'a>(&'a self, key: &str) -> (r: Option<&'a Vec<String>>)
        ensures
            match r {
                Some(vs) => spec_key_index(self@, key@) matches Some(i) && vs.deep_view()
                    == self@[i].1,
                None => spec_key_index(self@, key@) is None,
            },
    {
        proof {
            lemma_key_index_correct(self@, key@);
        }
        let n: usize = self.entries.len();
        let mut j: usize = 0;
        while j < n
            invariant
                n == self@.len(),
                j <= n,
                forall|t: int| 0 <= t < j ==> (#[trigger] self@[t]).0 != key@,
                match spec_key_index(self@, key@) {
                    Some(i) => 0 <= i < self@.len() && self@[i].0 == key@ && (forall|t: int|
                        0 <= t < i ==> self@[t].0 != key@),
                    None => forall|t: int| 0 <= t < self@.len() ==> self@[t].0 != key@,
                },
            decreases n - j,
        {
            proof {
                assert(self@[j as int] == self.entries@[j as int].deep_view());
            }
            if str_eq(self.entries[j].0.as_str(), key) {
                return Some(&self.entries[j].1);
            }
            j = j + 1;
        }
        None
    }
}

/// Group a sequence of `key=value` pairs into a `MultiMap`, preserving
/// the order of repeated values per field.
pub fn multi_map(pairs: &Vec<(String, String)>) -> (m: MultiMap)
    ensures
        m@ == spec_group(pairs.deep_view()),
        wf_multi(m@),
{
    proof {
        lemma_group_wf(pairs.deep_view());
    }
    let n: usize = pairs.len();
    let mut m = MultiMap::new();
    let mut i: usize = 0;
    while i < n
        invariant
            n == pairs@.len(),
            i <= n,
            pairs.deep_view().len() == n,
            m@ == spec_group(pairs.deep_view().subrange(0, i as int)),
        decreases n - i,
    {
        proof {
            assert(pairs.deep_view()[i as int] == (pairs@[i as int].0@, pairs@[i as int].1@));
            assert(pairs.deep_view().subrange(0, i + 1 as int).drop_last() =~= pairs.deep_view()
                .subrange(0, i as int));
        }
        m.add(pairs[i].0.clone(), pairs[i].1.clone());
        i = i + 1;
    }
    proof {
        assert(pairs.deep_view().subrange(0, n as int) =~= pairs.deep_view());
    }
    m
}

} // verus!
