//! Small tables keyed by text: a map and a set that keep the order of insertion.

use vstd::prelude::*;
use crate::lists::texts;
use crate::text::str_eq;

verus! {

broadcast use crate::lists::group_texts;

/// The index of the first entry with key `k`, or the number of entries where there is none.
pub open spec fn key_index<V>(m: Seq<(Seq<char>, V)>, k: Seq<char>) -> int
    decreases m.len(),
{
    if m.len() == 0 || m[0].0 == k {
        0
    } else {
        1 + key_index(m.skip(1), k)
    }
}

pub open spec fn has_key<V>(m: Seq<(Seq<char>, V)>, k: Seq<char>) -> bool {
    key_index(m, k) < m.len()
}

/// The value that `k` maps to.
pub open spec fn value_of<V>(m: Seq<(Seq<char>, V)>, k: Seq<char>) -> Option<V> {
    if has_key(m, k) {
        Some(m[key_index(m, k)].1)
    } else {
        None
    }
}

/// `m` with `k` mapping to `v`: in place where `k` has an entry, at the end otherwise.
pub open spec fn with_key<V>(m: Seq<(Seq<char>, V)>, k: Seq<char>, v: V) -> Seq<(Seq<char>, V)> {
    if has_key(m, k) {
        m.update(key_index(m, k), (k, v))
    } else {
        m.push((k, v))
    }
}

/// `m` without `k`; the other entries keep their order.
pub open spec fn without_key<V>(m: Seq<(Seq<char>, V)>, k: Seq<char>) -> Seq<(Seq<char>, V)>
    decreases m.len(),
{
    if m.len() == 0 {
        m
    } else if m.last().0 == k {
        without_key(m.drop_last(), k)
    } else {
        without_key(m.drop_last(), k).push(m.last())
    }
}

/// The keys in order.
pub open spec fn keys_of<V>(m: Seq<(Seq<char>, V)>) -> Seq<Seq<char>> {
    Seq::new(m.len(), |i: int| m[i].0)
}

/// No key occurs twice.
pub open spec fn unique_keys<V>(m: Seq<(Seq<char>, V)>) -> bool {
    forall|i: int, j: int| 0 <= i < j < m.len() ==> m[i].0 != m[j].0
}

pub proof fn lemma_key_index<V>(m: Seq<(Seq<char>, V)>, k: Seq<char>)
    ensures
        0 <= key_index(m, k) <= m.len(),
        has_key(m, k) ==> m[key_index(m, k)].0 == k,
        forall|j: int| 0 <= j < key_index(m, k) ==> m[j].0 != k,
    decreases m.len(),
{
    if m.len() > 0 && m[0].0 != k {
        lemma_key_index(m.skip(1), k);
        let p = key_index(m.skip(1), k);
        assert forall|j: int| 0 <= j < 1 + p implies m[j].0 != k by {
            if j > 0 {
                assert(m.skip(1)[j - 1] == m[j]);
            }
        }
    }
}

pub proof fn lemma_key_index_at<V>(m: Seq<(Seq<char>, V)>, k: Seq<char>, p: int)
    requires
        0 <= p <= m.len(),
        p < m.len() ==> m[p].0 == k,
        forall|j: int| 0 <= j < p ==> m[j].0 != k,
    ensures
        key_index(m, k) == p,
{
    lemma_key_index(m, k);
    let q = key_index(m, k);
    if q < p {
        assert(m[q].0 != k);
    } else if p < q {
        assert(m[p].0 != k);
    }
}

/// After `k` was set to `v`, it maps to `v`, and every other key maps as before.
pub proof fn lemma_with_key<V>(m: Seq<(Seq<char>, V)>, k: Seq<char>, v: V, k2: Seq<char>)
    ensures
        value_of(with_key(m, k, v), k2) == (if k2 == k {
            Some(v)
        } else {
            value_of(m, k2)
        }),
        has_key(with_key(m, k, v), k2) == (k2 == k || has_key(m, k2)),
        unique_keys(m) ==> unique_keys(with_key(m, k, v)),
{
    lemma_key_index(m, k);
    lemma_key_index(m, k2);
    let n = with_key(m, k, v);
    let p = key_index(m, k);
    let q = key_index(m, k2);
    if k2 == k {
        lemma_key_index_at(n, k2, p);
    } else if q < m.len() {
        lemma_key_index_at(n, k2, q);
    } else {
        assert forall|j: int| 0 <= j < n.len() implies n[j].0 != k2 by {
            if j < m.len() {
                assert(m[j].0 != k2);
            }
        }
        lemma_key_index_at(n, k2, n.len() as int);
    }
    if unique_keys(m) {
        assert forall|i: int, j: int| 0 <= i < j < n.len() implies n[i].0 != n[j].0 by {
            if j < m.len() {
                assert(m[i].0 != m[j].0);
            } else {
                assert(m[i].0 != k);
            }
        }
    }
}

proof fn lemma_without_key_at<V>(m: Seq<(Seq<char>, V)>, k: Seq<char>, j: int) -> (i: int)
    requires
        0 <= j < without_key(m, k).len(),
    ensures
        0 <= i < m.len(),
        without_key(m, k)[j] == m[i],
        m[i].0 != k,
        j <= i,
    decreases m.len(),
{
    if m.last().0 == k {
        lemma_without_key_at(m.drop_last(), k, j)
    } else if j == without_key(m, k).len() - 1 {
        lemma_without_key_len(m.drop_last(), k);
        m.len() - 1
    } else {
        lemma_without_key_at(m.drop_last(), k, j)
    }
}

pub proof fn lemma_without_key_len<V>(m: Seq<(Seq<char>, V)>, k: Seq<char>)
    ensures
        without_key(m, k).len() <= m.len(),
    decreases m.len(),
{
    if m.len() > 0 {
        lemma_without_key_len(m.drop_last(), k);
    }
}

proof fn lemma_key_index_push<V>(m: Seq<(Seq<char>, V)>, e: (Seq<char>, V), k: Seq<char>)
    ensures
        has_key(m, k) ==> key_index(m.push(e), k) == key_index(m, k),
        !has_key(m, k) && e.0 == k ==> key_index(m.push(e), k) == m.len(),
        !has_key(m, k) && e.0 != k ==> !has_key(m.push(e), k),
{
    lemma_key_index(m, k);
    let n = m.push(e);
    let p = key_index(m, k);
    if p < m.len() {
        lemma_key_index_at(n, k, p);
    } else if e.0 == k {
        lemma_key_index_at(n, k, p);
    } else {
        lemma_key_index_at(n, k, n.len() as int);
    }
}

/// After `k` was removed, it maps to nothing, and every other key maps as before.
pub proof fn lemma_without_key<V>(m: Seq<(Seq<char>, V)>, k: Seq<char>, k2: Seq<char>)
    ensures
        value_of(without_key(m, k), k2) == (if k2 == k {
            None
        } else {
            value_of(m, k2)
        }),
        has_key(without_key(m, k), k2) == (k2 != k && has_key(m, k2)),
    decreases m.len(),
{
    if m.len() > 0 {
        let d = m.drop_last();
        lemma_without_key(d, k, k2);
        assert(m =~= d.push(m.last()));
        lemma_key_index_push(d, m.last(), k2);
        lemma_key_index_push(without_key(d, k), m.last(), k2);
        lemma_key_index(d, k2);
        lemma_key_index(without_key(d, k), k2);
    }
}

/// Removing a key keeps the keys distinct.
pub proof fn lemma_without_key_unique<V>(m: Seq<(Seq<char>, V)>, k: Seq<char>)
    requires
        unique_keys(m),
    ensures
        unique_keys(without_key(m, k)),
    decreases m.len(),
{
    if m.len() > 0 {
        let d = m.drop_last();
        assert(unique_keys(d)) by {
            assert forall|i: int, j: int| 0 <= i < j < d.len() implies d[i].0 != d[j].0 by {
                assert(m[i].0 != m[j].0);
            }
        }
        lemma_without_key_unique(d, k);
        if m.last().0 != k {
            let w = without_key(d, k);
            assert forall|i: int, j: int| 0 <= i < j < w.push(m.last()).len() implies w.push(
                m.last(),
            )[i].0 != w.push(m.last())[j].0 by {
                if j == w.len() {
                    let t = lemma_without_key_at(d, k, i);
                    assert(m[t].0 != m[m.len() - 1].0);
                }
            }
        }
    }
}

proof fn lemma_without_key_front<V>(a: Seq<(Seq<char>, V)>, e: (Seq<char>, V), b: Seq<(Seq<char>, V)>, k: Seq<char>)
    requires
        e.0 == k,
    ensures
        without_key(a + seq![e] + b, k) == without_key(a + b, k),
    decreases b.len(),
{
    let m = a + seq![e] + b;
    if b.len() == 0 {
        assert(m.drop_last() =~= a + b);
    } else {
        lemma_without_key_front(a, e, b.drop_last(), k);
        assert(m.drop_last() =~= a + seq![e] + b.drop_last());
        assert((a + b).drop_last() =~= a + b.drop_last());
    }
}

proof fn lemma_without_absent_key<V>(m: Seq<(Seq<char>, V)>, k: Seq<char>)
    requires
        forall|j: int| 0 <= j < m.len() ==> m[j].0 != k,
    ensures
        without_key(m, k) == m,
    decreases m.len(),
{
    if m.len() > 0 {
        lemma_without_absent_key(m.drop_last(), k);
        assert(m.drop_last().push(m.last()) =~= m);
    }
}

/// The names and values of a list of entries.
spec fn entry_pairs<V>(v: Seq<(String, V)>) -> Seq<(Seq<char>, V)> {
    Seq::new(v.len(), |i: int| (v[i].0@, v[i].1))
}

/// The keys of a table that names none twice are distinct.
pub proof fn lemma_keys_distinct<V>(m: Seq<(Seq<char>, V)>)
    requires
        unique_keys(m),
    ensures
        keys_of(m).no_duplicates(),
{
    let k = keys_of(m);
    assert forall|i: int, j: int| 0 <= i < k.len() && 0 <= j < k.len() && i != j implies k[i]
        != k[j] by {
        if i < j {
            assert(m[i].0 != m[j].0);
        } else {
            assert(m[j].0 != m[i].0);
        }
    }
}

/// A map from names to values, each name once. Iteration follows the order of insertion.
#[derive(Debug)]
pub struct NameMap<V> {
    entries: Vec<(String, V)>,
}

impl<V> View for NameMap<V> {
    type V = Seq<(Seq<char>, V)>;

    closed spec fn view(&self) -> Seq<(Seq<char>, V)> {
        entry_pairs(self.entries@)
    }
}

impl<V> NameMap<V> {
    #[verifier::type_invariant]
    spec fn names_are_distinct(self) -> bool {
        unique_keys(entry_pairs(self.entries@))
    }

    pub fn new() -> (r: Self)
        ensures
            r@ == Seq::<(Seq<char>, V)>::empty(),
    {
        let r = NameMap { entries: Vec::new() };
        assert(r@ =~= Seq::<(Seq<char>, V)>::empty());
        r
    }

    fn position(&self, k: &str) -> (r: usize)
        ensures
            r == key_index(self@, k@),
            r <= self.entries.len(),
    {
        let mut i: usize = 0;
        while i < self.entries.len()
            invariant
                i <= self.entries.len(),
                forall|j: int| 0 <= j < i ==> self@[j].0 != k@,
            decreases self.entries.len() - i,
        {
            if str_eq(self.entries[i].0.as_str(), k) {
                proof {
                    lemma_key_index_at(self@, k@, i as int);
                }
                return i;
            }
            i = i + 1;
        }
        proof {
            lemma_key_index_at(self@, k@, i as int);
        }
        i
    }

    /// The number of names. No name occurs twice.
    pub fn len(&self) -> (r: usize)
        ensures
            r == self@.len(),
            unique_keys(self@),
    {
        proof {
            use_type_invariant(self);
        }
        self.entries.len()
    }

    pub fn is_empty(&self) -> (r: bool)
        ensures
            r == (self@.len() == 0),
    {
        self.entries.len() == 0
    }

    pub fn contains_key(&self, k: &str) -> (r: bool)
        ensures
            r == has_key(self@, k@),
    {
        self.position(k) < self.entries.len()
    }

    pub fn get(&self, k: &str) -> (r: Option<&V>)
        ensures
            match r {
                Some(v) => value_of(self@, k@) == Some(*v),
                None => value_of(self@, k@) is None,
            },
    {
        let p: usize = self.position(k);
        if p < self.entries.len() {
            Some(&self.entries[p].1)
        } else {
            None
        }
    }

    /// Maps `k` to `v`.
    pub fn insert(&mut self, k: String, v: V)
        ensures
            final(self)@ == with_key(old(self)@, k@, v),
            unique_keys(final(self)@),
    {
        let p: usize = self.position(k.as_str());
        let ghost before = self@;
        proof {
            use_type_invariant(&*self);
            lemma_with_key(before, k@, v, k@);
        }
        let mut entries: Vec<(String, V)> = Vec::new();
        std::mem::swap(&mut entries, &mut self.entries);
        if p < entries.len() {
            entries[p] = (k, v);
            assert(entry_pairs(entries@) =~= before.update(p as int, (k@, v)));
        } else {
            entries.push((k, v));
            assert(entry_pairs(entries@) =~= before.push((k@, v)));
        }
        self.entries = entries;
    }

    /// Removes `k`; says whether it had an entry.
    pub fn remove(&mut self, k: &str) -> (r: bool)
        ensures
            final(self)@ == without_key(old(self)@, k@),
            r == has_key(old(self)@, k@),
            unique_keys(final(self)@),
    {
        let ghost before = self@;
        let p: usize = self.position(k);
        let found: bool = p < self.entries.len();
        proof {
            use_type_invariant(&*self);
            lemma_without_key_unique(before, k@);
        }
        let mut entries: Vec<(String, V)> = Vec::new();
        std::mem::swap(&mut entries, &mut self.entries);
        let mut i: usize = 0;
        while i < entries.len()
            invariant
                i <= entries.len(),
                forall|j: int| 0 <= j < i ==> entry_pairs(entries@)[j].0 != k@,
                without_key(entry_pairs(entries@), k@) == without_key(before, k@),
            decreases entries.len() - i,
        {
            if str_eq(entries[i].0.as_str(), k) {
                let ghost m = entry_pairs(entries@);
                entries.remove(i);
                proof {
                    let a = m.take(i as int);
                    let b = m.skip(i + 1);
                    assert(m =~= a + seq![m[i as int]] + b);
                    assert(entry_pairs(entries@) =~= a + b);
                    lemma_without_key_front(a, m[i as int], b, k@);
                    assert forall|j: int| 0 <= j < i implies entry_pairs(entries@)[j].0 != k@ by {
                        assert(m[j].0 != k@);
                    }
                }
            } else {
                i = i + 1;
            }
        }
        proof {
            lemma_without_absent_key(entry_pairs(entries@), k@);
        }
        self.entries = entries;
        found
    }

    pub fn clear(&mut self)
        ensures
            final(self)@ == Seq::<(Seq<char>, V)>::empty(),
    {
        let entries: Vec<(String, V)> = Vec::new();
        assert(entry_pairs(entries@) =~= Seq::<(Seq<char>, V)>::empty());
        self.entries = entries;
    }

    /// The names in order.
    pub fn keys(&self) -> (r: Vec<String>)
        ensures
            texts(r@) == keys_of(self@),
            keys_of(self@).no_duplicates(),
    {
        proof {
            use_type_invariant(self);
            lemma_keys_distinct(self@);
        }
        let mut out: Vec<String> = Vec::new();
        let mut i: usize = 0;
        while i < self.entries.len()
            invariant
                i <= self.entries.len(),
                texts(out@) == keys_of(self@).take(i as int),
            decreases self.entries.len() - i,
        {
            let ghost done = texts(out@);
            out.push(self.entries[i].0.clone());
            assert(texts(out@) =~= done.push(self@[i as int].0));
            assert(texts(out@) =~= keys_of(self@).take(i + 1));
            i = i + 1;
        }
        assert(keys_of(self@).take(self@.len() as int) =~= keys_of(self@));
        out
    }
}

impl<V> NameMap<V> {
    /// The name at a place in the order.
    pub fn key_at(&self, i: usize) -> (r: &str)
        requires
            i < self@.len(),
        ensures
            r@ == self@[i as int].0,
    {
        self.entries[i].0.as_str()
    }

    /// The value at a place in the order.
    pub fn value_at(&self, i: usize) -> (r: &V)
        requires
            i < self@.len(),
        ensures
            *r == self@[i as int].1,
    {
        &self.entries[i].1
    }
}

/// The entries whose time lies after `now`, in order.
pub open spec fn later_entries(m: Seq<(Seq<char>, u128)>, now: u64) -> Seq<(Seq<char>, u128)>
    decreases m.len(),
{
    if m.len() == 0 {
        m
    } else if m.last().1 > now {
        later_entries(m.drop_last(), now).push(m.last())
    } else {
        later_entries(m.drop_last(), now)
    }
}

proof fn lemma_later_skip(a: Seq<(Seq<char>, u128)>, e: (Seq<char>, u128), b: Seq<(Seq<char>, u128)>, now: u64)
    requires
        e.1 <= now,
    ensures
        later_entries(a + seq![e] + b, now) == later_entries(a + b, now),
    decreases b.len(),
{
    let m = a + seq![e] + b;
    if b.len() == 0 {
        assert(m.drop_last() =~= a + b);
    } else {
        lemma_later_skip(a, e, b.drop_last(), now);
        assert(m.drop_last() =~= a + seq![e] + b.drop_last());
        assert((a + b).drop_last() =~= a + b.drop_last());
    }
}

proof fn lemma_all_later(m: Seq<(Seq<char>, u128)>, now: u64)
    requires
        forall|j: int| 0 <= j < m.len() ==> (#[trigger] m[j]).1 > now,
    ensures
        later_entries(m, now) == m,
    decreases m.len(),
{
    if m.len() > 0 {
        lemma_all_later(m.drop_last(), now);
        assert(m[m.len() - 1].1 > now);
        assert(m.drop_last().push(m.last()) =~= m);
    }
}

/// Dropping entries keeps the keys distinct.
pub proof fn lemma_later_unique(m: Seq<(Seq<char>, u128)>, now: u64)
    requires
        unique_keys(m),
    ensures
        unique_keys(later_entries(m, now)),
        forall|i: int|
            0 <= i < later_entries(m, now).len() ==> m.contains(
                #[trigger] later_entries(m, now)[i],
            ),
    decreases m.len(),
{
    if m.len() > 0 {
        let d = m.drop_last();
        assert forall|i: int, j: int| 0 <= i < j < d.len() implies d[i].0 != d[j].0 by {
            assert(m[i].0 != m[j].0);
        }
        lemma_later_unique(d, now);
        let k = later_entries(d, now);
        let w = later_entries(m, now);
        assert forall|i: int| 0 <= i < w.len() implies m.contains(#[trigger] w[i]) by {
            if i < k.len() {
                assert(d.contains(k[i]));
                let j = choose|j: int| 0 <= j < d.len() && d[j] == k[i];
                assert(m[j] == w[i]);
            } else {
                assert(m[m.len() - 1] == w[i]);
            }
        }
        assert forall|i: int, j: int| 0 <= i < j < w.len() implies w[i].0 != w[j].0 by {
            if j == k.len() {
                assert(d.contains(k[i]));
                let x = choose|x: int| 0 <= x < d.len() && d[x] == k[i];
                assert(m[x].0 != m[m.len() - 1].0);
            } else {
                assert(k[i].0 != k[j].0);
            }
        }
    }
}

impl NameMap<u128> {
    /// Keeps the entries whose time lies after `now`.
    pub fn retain_later(&mut self, now: u64)
        ensures
            final(self)@ == later_entries(old(self)@, now),
            unique_keys(final(self)@),
    {
        let ghost before = self@;
        proof {
            use_type_invariant(&*self);
            lemma_later_unique(before, now);
        }
        let mut entries: Vec<(String, u128)> = Vec::new();
        std::mem::swap(&mut entries, &mut self.entries);
        let mut i: usize = 0;
        while i < entries.len()
            invariant
                i <= entries.len(),
                forall|j: int| 0 <= j < i ==> (#[trigger] entry_pairs(entries@)[j]).1 > now,
                later_entries(entry_pairs(entries@), now) == later_entries(before, now),
            decreases entries.len() - i,
        {
            if entries[i].1 <= now as u128 {
                let ghost m = entry_pairs(entries@);
                entries.remove(i);
                proof {
                    let a = m.take(i as int);
                    let b = m.skip(i + 1);
                    assert(m =~= a + seq![m[i as int]] + b);
                    assert(entry_pairs(entries@) =~= a + b);
                    lemma_later_skip(a, m[i as int], b, now);
                    assert forall|j: int| 0 <= j < i implies (#[trigger] entry_pairs(
                        entries@,
                    )[j]).1 > now by {
                        assert(m[j].1 > now);
                    }
                }
            } else {
                i = i + 1;
            }
        }
        proof {
            lemma_all_later(entry_pairs(entries@), now);
        }
        self.entries = entries;
    }
}

/// `s` with `k` added at the end, where it was not there.
pub open spec fn with_name(s: Seq<Seq<char>>, k: Seq<char>) -> Seq<Seq<char>> {
    if s.contains(k) {
        s
    } else {
        s.push(k)
    }
}

/// `s` without `k`; the other names keep their order.
pub open spec fn without_name(s: Seq<Seq<char>>, k: Seq<char>) -> Seq<Seq<char>>
    decreases s.len(),
{
    if s.len() == 0 {
        s
    } else if s.last() == k {
        without_name(s.drop_last(), k)
    } else {
        without_name(s.drop_last(), k).push(s.last())
    }
}

pub proof fn lemma_with_name(s: Seq<Seq<char>>, k: Seq<char>, k2: Seq<char>)
    ensures
        with_name(s, k).contains(k2) == (k2 == k || s.contains(k2)),
        s.no_duplicates() ==> with_name(s, k).no_duplicates(),
{
    if !s.contains(k) {
        let n = s.push(k);
        assert(n[s.len() as int] == k);
        if s.contains(k2) {
            let i = choose|i: int| 0 <= i < s.len() && s[i] == k2;
            assert(n[i] == k2);
        }
        if n.contains(k2) && k2 != k {
            let i = choose|i: int| 0 <= i < n.len() && n[i] == k2;
            assert(s[i] == k2);
        }
    }
}

pub proof fn lemma_without_name(s: Seq<Seq<char>>, k: Seq<char>, k2: Seq<char>)
    ensures
        without_name(s, k).contains(k2) == (k2 != k && s.contains(k2)),
        s.no_duplicates() ==> without_name(s, k).no_duplicates(),
        without_name(s, k).len() <= s.len(),
        !s.contains(k) ==> without_name(s, k) == s,
    decreases s.len(),
{
    if s.len() > 0 {
        let d = s.drop_last();
        lemma_without_name(d, k, k2);
        lemma_without_name(d, k, s.last());
        let w = without_name(d, k);
        let n = w.push(s.last());
        assert(s =~= d.push(s.last()));
        assert(s.contains(k2) == (d.contains(k2) || s.last() == k2)) by {
            if d.contains(k2) {
                let i = choose|i: int| 0 <= i < d.len() && d[i] == k2;
                assert(s[i] == k2);
            }
            assert(s[s.len() - 1] == s.last());
            if s.contains(k2) && s.last() != k2 {
                let i = choose|i: int| 0 <= i < s.len() && s[i] == k2;
                assert(d[i] == k2);
            }
        }
        assert(n.contains(k2) == (w.contains(k2) || s.last() == k2)) by {
            if w.contains(k2) {
                let i = choose|i: int| 0 <= i < w.len() && w[i] == k2;
                assert(n[i] == k2);
            }
            assert(n[w.len() as int] == s.last());
            if n.contains(k2) && s.last() != k2 {
                let i = choose|i: int| 0 <= i < n.len() && n[i] == k2;
                assert(w[i] == k2);
            }
        }
        if s.no_duplicates() {
            assert(d.no_duplicates());
            assert(!d.contains(s.last())) by {
                if d.contains(s.last()) {
                    let i = choose|i: int| 0 <= i < d.len() && d[i] == s.last();
                    assert(s[i] == s[s.len() - 1]);
                }
            }
        }
        if !s.contains(k) {
            assert(s[s.len() - 1] == s.last());
            assert(!d.contains(k)) by {
                if d.contains(k) {
                    let i = choose|i: int| 0 <= i < d.len() && d[i] == k;
                    assert(s[i] == k);
                }
            }
            assert(n =~= s);
        }
    }
}

proof fn lemma_without_name_front(a: Seq<Seq<char>>, e: Seq<char>, b: Seq<Seq<char>>)
    ensures
        without_name(a + seq![e] + b, e) == without_name(a + b, e),
    decreases b.len(),
{
    let m = a + seq![e] + b;
    if b.len() == 0 {
        assert(m.drop_last() =~= a + b);
    } else {
        lemma_without_name_front(a, e, b.drop_last());
        assert(m.drop_last() =~= a + seq![e] + b.drop_last());
        assert((a + b).drop_last() =~= a + b.drop_last());
    }
}

/// Whether the list holds the name.
pub fn contains_name(v: &Vec<String>, k: &str) -> (r: bool)
    ensures
        r == texts(v@).contains(k@),
{
    let mut i: usize = 0;
    while i < v.len()
        invariant
            i <= v.len(),
            forall|j: int| 0 <= j < i ==> texts(v@)[j] != k@,
        decreases v.len() - i,
    {
        if str_eq(v[i].as_str(), k) {
            assert(texts(v@)[i as int] == k@);
            return true;
        }
        i = i + 1;
    }
    false
}

/// Removes every occurrence of the name.
pub fn remove_name(v: &mut Vec<String>, k: &str)
    ensures
        texts(final(v)@) == without_name(texts(old(v)@), k@),
{
    let ghost before = texts(v@);
    let mut i: usize = 0;
    while i < v.len()
        invariant
            i <= v.len(),
            forall|j: int| 0 <= j < i ==> texts(v@)[j] != k@,
            without_name(texts(v@), k@) == without_name(before, k@),
        decreases v.len() - i,
    {
        if str_eq(v[i].as_str(), k) {
            let ghost m = texts(v@);
            v.remove(i);
            proof {
                let a = m.take(i as int);
                let b = m.skip(i + 1);
                assert(m =~= a + seq![k@] + b);
                assert(texts(v@) =~= a + b);
                lemma_without_name_front(a, k@, b);
                assert forall|j: int| 0 <= j < i implies texts(v@)[j] != k@ by {
                    assert(m[j] != k@);
                }
            }
        } else {
            i = i + 1;
        }
    }
    proof {
        lemma_without_name(texts(v@), k@, k@);
    }
}

/// A set of names, each once, in the order of insertion.
#[derive(Debug)]
pub struct NameSet {
    names: Vec<String>,
}

impl View for NameSet {
    type V = Seq<Seq<char>>;

    closed spec fn view(&self) -> Seq<Seq<char>> {
        texts(self.names@)
    }
}

impl NameSet {
    #[verifier::type_invariant]
    spec fn names_are_distinct(self) -> bool {
        texts(self.names@).no_duplicates()
    }

    pub fn new() -> (r: Self)
        ensures
            r@ == Seq::<Seq<char>>::empty(),
    {
        let r = NameSet { names: Vec::new() };
        assert(r@ =~= Seq::<Seq<char>>::empty());
        r
    }

    /// The number of names. None occurs twice.
    pub fn len(&self) -> (r: usize)
        ensures
            r == self@.len(),
            self@.no_duplicates(),
    {
        proof {
            use_type_invariant(self);
        }
        self.names.len()
    }

    pub fn is_empty(&self) -> (r: bool)
        ensures
            r == (self@.len() == 0),
    {
        self.names.len() == 0
    }

    pub fn contains(&self, k: &str) -> (r: bool)
        ensures
            r == self@.contains(k@),
    {
        contains_name(&self.names, k)
    }

    /// The names in order.
    pub fn list(&self) -> (r: &Vec<String>)
        ensures
            texts(r@) == self@,
            self@.no_duplicates(),
    {
        proof {
            use_type_invariant(self);
        }
        &self.names
    }

    /// Gives the names up, in order.
    pub fn into_list(self) -> (r: Vec<String>)
        ensures
            texts(r@) == self@,
            self@.no_duplicates(),
    {
        proof {
            use_type_invariant(&self);
        }
        self.names
    }

    /// Adds `k` where it is not there.
    pub fn insert(&mut self, k: String)
        ensures
            final(self)@ == with_name(old(self)@, k@),
            final(self)@.no_duplicates(),
    {
        let ghost before = self@;
        proof {
            use_type_invariant(&*self);
            lemma_with_name(before, k@, k@);
        }
        if !self.contains(k.as_str()) {
            let mut names: Vec<String> = Vec::new();
            std::mem::swap(&mut names, &mut self.names);
            names.push(k);
            assert(texts(names@) =~= before.push(k@));
            self.names = names;
        }
    }

    pub fn remove(&mut self, k: &str)
        ensures
            final(self)@ == without_name(old(self)@, k@),
            final(self)@.no_duplicates(),
    {
        let ghost before = self@;
        proof {
            use_type_invariant(&*self);
            lemma_without_name(before, k@, k@);
        }
        let mut names: Vec<String> = Vec::new();
        std::mem::swap(&mut names, &mut self.names);
        remove_name(&mut names, k);
        self.names = names;
    }

    pub fn clear(&mut self)
        ensures
            final(self)@ == Seq::<Seq<char>>::empty(),
    {
        let names: Vec<String> = Vec::new();
        assert(texts(names@) =~= Seq::<Seq<char>>::empty());
        self.names = names;
    }
}

} // verus!
