//! Orders: texts by their characters, and sorted lists.

use vstd::prelude::*;
use crate::lists::texts;
use crate::text::chars_of;

verus! {

broadcast use crate::lists::group_texts;

/// Whether `a` comes before `b`: at the first difference it has the smaller character, or
/// it ends where `b` goes on. This is also the order of the UTF-8 encodings.
pub open spec fn text_lt(a: Seq<char>, b: Seq<char>) -> bool
    decreases a.len(),
{
    if b.len() == 0 {
        false
    } else if a.len() == 0 {
        true
    } else if a[0] != b[0] {
        (a[0] as u32) < (b[0] as u32)
    } else {
        text_lt(a.skip(1), b.skip(1))
    }
}

pub proof fn lemma_text_lt_total(a: Seq<char>, b: Seq<char>)
    ensures
        text_lt(a, b) || text_lt(b, a) || a == b,
        !(text_lt(a, b) && text_lt(b, a)),
        a == b ==> !text_lt(a, b),
    decreases a.len(),
{
    if a.len() > 0 && b.len() > 0 {
        lemma_text_lt_total(a.skip(1), b.skip(1));
        if a[0] == b[0] && a.skip(1) == b.skip(1) {
            assert(a =~= seq![a[0]] + a.skip(1));
            assert(b =~= seq![b[0]] + b.skip(1));
        }
        if a[0] != b[0] {
            vstd::utf8::char_u32_cast(a[0], a[0] as u32);
            vstd::utf8::char_u32_cast(b[0], b[0] as u32);
        }
    } else if a.len() == 0 && b.len() == 0 {
        assert(a =~= b);
    }
}

pub proof fn lemma_text_lt_transitive(a: Seq<char>, b: Seq<char>, c: Seq<char>)
    requires
        text_lt(a, b),
        text_lt(b, c),
    ensures
        text_lt(a, c),
    decreases a.len(),
{
    if a.len() > 0 && b.len() > 0 && c.len() > 0 && a[0] == b[0] && b[0] == c[0] {
        lemma_text_lt_transitive(a.skip(1), b.skip(1), c.skip(1));
    }
}

/// Whether `a` comes before `b`.
pub fn text_less(a: &str, b: &str) -> (r: bool)
    ensures
        r == text_lt(a@, b@),
{
    let x: Vec<char> = chars_of(a);
    let y: Vec<char> = chars_of(b);
    let mut i: usize = 0;
    assert(a@.skip(0) =~= a@);
    assert(b@.skip(0) =~= b@);
    while i < x.len() && i < y.len()
        invariant
            i <= x.len(),
            i <= y.len(),
            x@ == a@,
            y@ == b@,
            text_lt(a@, b@) == text_lt(a@.skip(i as int), b@.skip(i as int)),
        decreases x.len() - i,
    {
        let c: char = x[i];
        let d: char = y[i];
        assert(a@.skip(i as int)[0] == c && b@.skip(i as int)[0] == d);
        if c != d {
            return (c as u32) < (d as u32);
        }
        assert(a@.skip(i as int).skip(1) =~= a@.skip(i + 1));
        assert(b@.skip(i as int).skip(1) =~= b@.skip(i + 1));
        i = i + 1;
    }
    i < y.len()
}

/// `s` with `x` put in after the texts that do not come after it.
pub open spec fn with_inserted(s: Seq<Seq<char>>, x: Seq<char>) -> Seq<Seq<char>>
    decreases s.len(),
{
    if s.len() > 0 && text_lt(x, s.last()) {
        with_inserted(s.drop_last(), x).push(s.last())
    } else {
        s.push(x)
    }
}

/// The texts in ascending order.
pub open spec fn sorted_texts(s: Seq<Seq<char>>) -> Seq<Seq<char>>
    decreases s.len(),
{
    if s.len() == 0 {
        s
    } else {
        with_inserted(sorted_texts(s.drop_last()), s.last())
    }
}

/// Ascending: no text comes before one that precedes it.
pub open spec fn ascending(s: Seq<Seq<char>>) -> bool {
    forall|i: int, j: int| 0 <= i < j < s.len() ==> !text_lt(s[j], s[i])
}

proof fn lemma_with_inserted(s: Seq<Seq<char>>, x: Seq<char>)
    ensures
        with_inserted(s, x).to_multiset() == s.to_multiset().insert(x),
        with_inserted(s, x).len() == s.len() + 1,
    decreases s.len(),
{
    broadcast use vstd::seq_lib::group_to_multiset_ensures;

    if s.len() > 0 && text_lt(x, s.last()) {
        lemma_with_inserted(s.drop_last(), x);
        assert(s =~= s.drop_last().push(s.last()));
        assert(with_inserted(s, x).to_multiset() =~= s.to_multiset().insert(x));
    }
}

proof fn lemma_with_inserted_ascending(s: Seq<Seq<char>>, x: Seq<char>)
    requires
        ascending(s),
    ensures
        ascending(with_inserted(s, x)),
        forall|y: Seq<char>|
            (forall|i: int| 0 <= i < s.len() ==> !text_lt(y, #[trigger] s[i])) && !text_lt(y, x)
                ==> forall|i: int|
                0 <= i < with_inserted(s, x).len() ==> !text_lt(y, #[trigger] with_inserted(
                    s,
                    x,
                )[i]),
    decreases s.len(),
{
    lemma_with_inserted(s, x);
    let r = with_inserted(s, x);
    if s.len() > 0 && text_lt(x, s.last()) {
        let d = s.drop_last();
        assert(ascending(d)) by {
            assert forall|i: int, j: int| 0 <= i < j < d.len() implies !text_lt(d[j], d[i]) by {
                assert(!text_lt(s[j], s[i]));
            }
        }
        lemma_with_inserted_ascending(d, x);
        lemma_with_inserted(d, x);
        let w = with_inserted(d, x);
        assert(forall|i: int| 0 <= i < d.len() ==> !text_lt(s.last(), #[trigger] d[i])) by {
            assert forall|i: int| 0 <= i < d.len() implies !text_lt(s.last(), #[trigger] d[i]) by {
                assert(!text_lt(s[s.len() - 1], s[i]));
            }
        }
        lemma_text_lt_total(x, s.last());
        assert forall|i: int, j: int| 0 <= i < j < r.len() implies !text_lt(r[j], r[i]) by {
            if j == r.len() - 1 {
                assert(r[i] == w[i]);
            } else {
                assert(r[i] == w[i] && r[j] == w[j]);
            }
        }
        assert forall|y: Seq<char>|
            (forall|i: int| 0 <= i < s.len() ==> !text_lt(y, #[trigger] s[i])) && !text_lt(
                y,
                x,
            ) implies forall|i: int|
            0 <= i < r.len() ==> !text_lt(y, #[trigger] r[i]) by {
            assert forall|i: int| 0 <= i < d.len() implies !text_lt(y, #[trigger] d[i]) by {
                assert(!text_lt(y, s[i]));
            }
            assert forall|i: int| 0 <= i < r.len() implies !text_lt(y, #[trigger] r[i]) by {
                if i < w.len() {
                    assert(r[i] == w[i]);
                } else {
                    assert(r[i] == s[s.len() - 1]);
                }
            }
        }
    } else {
        assert forall|i: int, j: int| 0 <= i < j < r.len() implies !text_lt(r[j], r[i]) by {
            if j == s.len() {
                // x does not come before the last text, hence before none
                assert(s.len() > 0);
                if text_lt(x, s[i]) {
                    lemma_text_lt_total(s[i], s.last());
                    if i < s.len() - 1 {
                        assert(!text_lt(s[s.len() - 1], s[i]));
                        if s[i] != s.last() {
                            lemma_text_lt_transitive(x, s[i], s.last());
                        }
                    }
                }
            } else {
                assert(!text_lt(s[j], s[i]));
            }
        }
    }
}

/// Sorting keeps texts distinct.
pub proof fn lemma_sorted_distinct(s: Seq<Seq<char>>)
    requires
        s.no_duplicates(),
    ensures
        sorted_texts(s).no_duplicates(),
{
    broadcast use vstd::seq_lib::group_to_multiset_ensures;

    law_sorted_texts(s);
    s.lemma_multiset_has_no_duplicates();
    sorted_texts(s).lemma_multiset_has_no_duplicates_conv();
}

/// Sorting gives an ascending list with the same texts, each as often as before.
pub proof fn law_sorted_texts(s: Seq<Seq<char>>)
    ensures
        ascending(sorted_texts(s)),
        sorted_texts(s).to_multiset() == s.to_multiset(),
        sorted_texts(s).len() == s.len(),
    decreases s.len(),
{
    broadcast use vstd::seq_lib::group_to_multiset_ensures;

    if s.len() > 0 {
        law_sorted_texts(s.drop_last());
        lemma_with_inserted_ascending(sorted_texts(s.drop_last()), s.last());
        lemma_with_inserted(sorted_texts(s.drop_last()), s.last());
        assert(s =~= s.drop_last().push(s.last()));
    }
}

/// Puts a string into a sorted list.
fn insert_sorted(v: &mut Vec<String>, x: String)
    ensures
        texts(final(v)@) == with_inserted(texts(old(v)@), x@),
{
    let ghost all = texts(v@);
    let mut n: usize = v.len();
    assert(all.take(n as int) =~= all);
    assert(all.skip(n as int) =~= Seq::empty());
    assert(with_inserted(all, x@) + all.skip(n as int) =~= with_inserted(all, x@));
    while n > 0 && text_less(x.as_str(), v[n - 1].as_str())
        invariant
            n <= v.len(),
            all == texts(v@),
            with_inserted(all, x@) == with_inserted(all.take(n as int), x@) + all.skip(n as int),
        decreases n,
    {
        proof {
            let t = all.take(n as int);
            assert(t.drop_last() =~= all.take(n - 1));
            assert(t.last() == all[n - 1]);
            assert(with_inserted(t.drop_last(), x@).push(t.last()) + all.skip(n as int)
                =~= with_inserted(t.drop_last(), x@) + all.skip(n - 1));
        }
        n = n - 1;
    }
    proof {
        let t = all.take(n as int);
        assert(n > 0 ==> t.last() == all[n - 1]);
        assert(with_inserted(t, x@) == t.push(x@));
    }
    v.insert(n, x);
    assert(texts(v@) =~= all.take(n as int).push(x@) + all.skip(n as int));
}

/// The strings in ascending order.
pub fn sort_texts(v: &Vec<String>) -> (r: Vec<String>)
    ensures
        texts(r@) == sorted_texts(texts(v@)),
{
    let mut out: Vec<String> = Vec::new();
    let ghost all = texts(v@);
    let mut i: usize = 0;
    assert(texts(out@) =~= sorted_texts(all.take(0)));
    while i < v.len()
        invariant
            i <= v.len(),
            all == texts(v@),
            texts(out@) == sorted_texts(all.take(i as int)),
        decreases v.len() - i,
    {
        insert_sorted(&mut out, v[i].clone());
        assert(all.take(i + 1).drop_last() =~= all.take(i as int));
        i = i + 1;
    }
    assert(all.take(all.len() as int) =~= all);
    out
}

/// `s` with `x` put in its place, unless it is there.
pub open spec fn with_number(s: Seq<u32>, x: u32) -> Seq<u32>
    decreases s.len(),
{
    if s.len() == 0 || s.last() < x {
        s.push(x)
    } else if s.last() == x {
        s
    } else {
        with_number(s.drop_last(), x).push(s.last())
    }
}

/// The different numbers of a list in ascending order.
pub open spec fn sorted_set(s: Seq<u32>) -> Seq<u32>
    decreases s.len(),
{
    if s.len() == 0 {
        s
    } else {
        with_number(sorted_set(s.drop_last()), s.last())
    }
}

pub open spec fn strictly_ascending(s: Seq<u32>) -> bool {
    forall|i: int, j: int| 0 <= i < j < s.len() ==> s[i] < s[j]
}

proof fn lemma_with_number(s: Seq<u32>, x: u32)
    requires
        strictly_ascending(s),
    ensures
        strictly_ascending(with_number(s, x)),
        forall|y: u32|
            #[trigger] with_number(s, x).contains(y) <==> (y == x || s.contains(y)),
        with_number(s, x).len() <= s.len() + 1,
    decreases s.len(),
{
    let r = with_number(s, x);
    if s.len() == 0 || s.last() < x {
        assert(r[s.len() as int] == x);
        assert forall|y: u32| #[trigger] r.contains(y) <==> (y == x || s.contains(y)) by {
            if s.contains(y) {
                let i = choose|i: int| 0 <= i < s.len() && s[i] == y;
                assert(r[i] == y);
            }
            if r.contains(y) && y != x {
                let i = choose|i: int| 0 <= i < r.len() && r[i] == y;
                assert(s[i] == y);
            }
        }
    } else if s.last() == x {
        assert(s[s.len() - 1] == x);
    } else {
        let d = s.drop_last();
        lemma_with_number(d, x);
        let w = with_number(d, x);
        assert forall|y: u32| #[trigger] r.contains(y) <==> (y == x || s.contains(y)) by {
            if s.contains(y) {
                let i = choose|i: int| 0 <= i < s.len() && s[i] == y;
                if i < d.len() {
                    assert(d[i] == y);
                    assert(w.contains(y));
                    let j = choose|j: int| 0 <= j < w.len() && w[j] == y;
                    assert(r[j] == y);
                } else {
                    assert(r[w.len() as int] == y);
                }
            }
            if y == x {
                assert(w.contains(x));
                let j = choose|j: int| 0 <= j < w.len() && w[j] == x;
                assert(r[j] == x);
            }
            if r.contains(y) && y != x {
                let i = choose|i: int| 0 <= i < r.len() && r[i] == y;
                if i < w.len() {
                    assert(w[i] == y);
                    assert(w.contains(y));
                    assert(d.contains(y));
                    let j = choose|j: int| 0 <= j < d.len() && d[j] == y;
                    assert(s[j] == y);
                } else {
                    assert(s[s.len() - 1] == y);
                }
            }
        }
        assert forall|i: int, j: int| 0 <= i < j < r.len() implies r[i] < r[j] by {
            if j == w.len() {
                assert(w.contains(w[i]));
                if w[i] != x {
                    assert(d.contains(w[i]));
                    let t = choose|t: int| 0 <= t < d.len() && d[t] == w[i];
                    assert(s[t] < s[s.len() - 1]);
                }
            } else {
                assert(w[i] < w[j]);
            }
        }
    }
}

/// The sorted set holds exactly the numbers of the list, each once, in ascending order.
pub proof fn law_sorted_set(s: Seq<u32>)
    ensures
        strictly_ascending(sorted_set(s)),
        forall|y: u32| #[trigger] sorted_set(s).contains(y) <==> s.contains(y),
    decreases s.len(),
{
    if s.len() > 0 {
        let d = s.drop_last();
        law_sorted_set(d);
        lemma_with_number(sorted_set(d), s.last());
        assert forall|y: u32| #[trigger] sorted_set(s).contains(y) <==> s.contains(y) by {
            if s.contains(y) {
                let i = choose|i: int| 0 <= i < s.len() && s[i] == y;
                if i < d.len() {
                    assert(d[i] == y);
                }
            }
            if d.contains(y) {
                let i = choose|i: int| 0 <= i < d.len() && d[i] == y;
                assert(s[i] == y);
            }
            assert(s[s.len() - 1] == s.last());
        }
    }
}

/// Puts a number into an ascending list, unless it is there.
pub fn insert_number(v: &mut Vec<u32>, x: u32)
    ensures
        final(v)@ == with_number(old(v)@, x),
{
    let ghost all = v@;
    let mut n: usize = v.len();
    assert(all.take(n as int) =~= all);
    assert(with_number(all, x) + all.skip(n as int) =~= with_number(all, x));
    while n > 0 && v[n - 1] > x
        invariant
            n <= v.len(),
            all == v@,
            with_number(all, x) == with_number(all.take(n as int), x) + all.skip(n as int),
        decreases n,
    {
        proof {
            let t = all.take(n as int);
            assert(t.drop_last() =~= all.take(n - 1));
            assert(with_number(t.drop_last(), x).push(t.last()) + all.skip(n as int)
                =~= with_number(t.drop_last(), x) + all.skip(n - 1));
        }
        n = n - 1;
    }
    if n > 0 && v[n - 1] == x {
        proof {
            let t = all.take(n as int);
            assert(t.last() == x);
            assert(t + all.skip(n as int) =~= all);
        }
        return;
    }
    proof {
        let t = all.take(n as int);
        assert(n > 0 ==> t.last() == all[n - 1]);
    }
    v.insert(n, x);
    assert(v@ =~= all.take(n as int).push(x) + all.skip(n as int));
}

} // verus!
