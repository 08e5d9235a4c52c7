//! The live processes of the packages, as reported.

use vstd::prelude::*;
use crate::text::str_eq;

verus! {

/// The index of the first entry for `k`, or the number of entries where there is none.
pub open spec fn pkg_index(m: Seq<(Seq<char>, Seq<u32>)>, k: Seq<char>) -> int
    decreases m.len(),
{
    if m.len() == 0 || m[0].0 == k {
        0
    } else {
        1 + pkg_index(m.skip(1), k)
    }
}

/// The index after a process of the package started; a process is listed once.
pub open spec fn pid_added(m: Seq<(Seq<char>, Seq<u32>)>, pkg: Seq<char>, pid: u32) -> Seq<
    (Seq<char>, Seq<u32>),
> {
    let p = pkg_index(m, pkg);
    if p >= m.len() {
        m.push((pkg, seq![pid]))
    } else if m[p].1.contains(pid) {
        m
    } else {
        m.update(p, (pkg, m[p].1.push(pid)))
    }
}

/// `s` without its first `x`.
pub open spec fn without_first(s: Seq<u32>, x: u32) -> Seq<u32>
    decreases s.len(),
{
    if s.len() == 0 {
        s
    } else if s[0] == x {
        s.skip(1)
    } else {
        seq![s[0]] + without_first(s.skip(1), x)
    }
}

/// The index after a process ended: it leaves the first list that holds it.
pub open spec fn pid_removed(m: Seq<(Seq<char>, Seq<u32>)>, pid: u32) -> Seq<
    (Seq<char>, Seq<u32>),
>
    decreases m.len(),
{
    if m.len() == 0 {
        m
    } else if m[0].1.contains(pid) {
        seq![(m[0].0, without_first(m[0].1, pid))] + m.skip(1)
    } else {
        seq![m[0]] + pid_removed(m.skip(1), pid)
    }
}

/// The index without a package.
pub open spec fn pkg_removed(m: Seq<(Seq<char>, Seq<u32>)>, k: Seq<char>) -> Seq<
    (Seq<char>, Seq<u32>),
>
    decreases m.len(),
{
    if m.len() == 0 {
        m
    } else if m[0].0 == k {
        pkg_removed(m.skip(1), k)
    } else {
        seq![m[0]] + pkg_removed(m.skip(1), k)
    }
}

/// The processes of every package.
#[derive(Debug)]
pub struct PidIndex {
    entries: Vec<(String, Vec<u32>)>,
}

impl View for PidIndex {
    type V = Seq<(Seq<char>, Seq<u32>)>;

    closed spec fn view(&self) -> Seq<(Seq<char>, Seq<u32>)> {
        Seq::new(self.entries@.len(), |i: int| (self.entries@[i].0@, self.entries@[i].1@))
    }
}

fn position(v: &Vec<u32>, x: u32) -> (r: Option<usize>)
    ensures
        match r {
            Some(p) => p < v.len() && v@[p as int] == x && forall|j: int|
                0 <= j < p ==> v@[j] != x,
            None => !v@.contains(x),
        },
{
    let mut i: usize = 0;
    while i < v.len()
        invariant
            i <= v.len(),
            forall|j: int| 0 <= j < i ==> v@[j] != x,
        decreases v.len() - i,
    {
        if v[i] == x {
            return Some(i);
        }
        i = i + 1;
    }
    None
}

proof fn lemma_without_first(s: Seq<u32>, x: u32, p: int)
    requires
        0 <= p < s.len(),
        s[p] == x,
        forall|j: int| 0 <= j < p ==> s[j] != x,
    ensures
        without_first(s, x) == s.remove(p),
    decreases p,
{
    if p == 0 {
        assert(s.skip(1) =~= s.remove(0));
    } else {
        assert(s[0] != x);
        assert forall|j: int| 0 <= j < p - 1 implies s.skip(1)[j] != x by {
            assert(s.skip(1)[j] == s[j + 1]);
        }
        lemma_without_first(s.skip(1), x, p - 1);
        assert(seq![s[0]] + s.skip(1).remove(p - 1) =~= s.remove(p));
    }
}

impl PidIndex {
    pub fn new() -> (r: Self)
        ensures
            r@ == Seq::<(Seq<char>, Seq<u32>)>::empty(),
    {
        let r = PidIndex { entries: Vec::new() };
        assert(r@ =~= Seq::<(Seq<char>, Seq<u32>)>::empty());
        r
    }

    fn find_pkg(&self, k: &str) -> (r: usize)
        ensures
            r == pkg_index(self@, k@),
            r <= self.entries.len(),
    {
        let mut i: usize = 0;
        assert(self@.skip(0) =~= self@);
        while i < self.entries.len()
            invariant
                i <= self.entries.len(),
                pkg_index(self@, k@) == i + pkg_index(self@.skip(i as int), k@),
            decreases self.entries.len() - i,
        {
            if str_eq(self.entries[i].0.as_str(), k) {
                return i;
            }
            assert(self@.skip(i as int).skip(1) =~= self@.skip(i + 1));
            i = i + 1;
        }
        i
    }

    /// A process of the package started.
    pub fn add_pid(&mut self, pkg: &str, pid: u32)
        ensures
            final(self)@ == pid_added(old(self)@, pkg@, pid),
    {
        let ghost before = self@;
        let p: usize = self.find_pkg(pkg);
        if p >= self.entries.len() {
            let mut list: Vec<u32> = Vec::new();
            list.push(pid);
            assert(list@ =~= seq![pid]);
            self.entries.push((String::from_str(pkg), list));
            assert(self@ =~= before.push((pkg@, seq![pid])));
        } else {
            let known: bool = position(&self.entries[p].1, pid).is_some();
            if !known {
                let (name, mut list) = self.entries.remove(p);
                list.push(pid);
                let ghost nv = name@;
                self.entries.insert(p, (name, list));
                proof {
                    lemma_pkg_index(before, pkg@);
                    assert(nv == before[p as int].0);
                    assert(self@ =~= before.update(p as int, (pkg@, before[p as int].1.push(pid))));
                }
            }
        }
    }

    /// A process ended.
    pub fn remove_pid(&mut self, pid: u32)
        ensures
            final(self)@ == pid_removed(old(self)@, pid),
    {
        let ghost before = self@;
        let mut i: usize = 0;
        assert(before.skip(0) =~= before);
        assert(before.take(0) + pid_removed(before, pid) =~= pid_removed(before, pid));
        while i < self.entries.len()
            invariant
                i <= self.entries.len(),
                self@ == before,
                before == old(self)@,
                pid_removed(before, pid) == before.take(i as int) + pid_removed(
                    before.skip(i as int),
                    pid,
                ),
            decreases self.entries.len() - i,
        {
            if let Some(p) = position(&self.entries[i].1, pid) {
                let (name, mut list) = self.entries.remove(i);
                let ghost lv = list@;
                list.remove(p);
                proof {
                    lemma_without_first(lv, pid, p as int);
                    assert(lv.contains(pid));
                    assert(before.skip(i as int)[0] == before[i as int]);
                }
                self.entries.insert(i, (name, list));
                assert(self@ =~= before.take(i as int) + pid_removed(before.skip(i as int), pid));
                return;
            }
            proof {
                let rest = before.skip(i as int);
                assert(rest[0] == before[i as int]);
                assert(rest.skip(1) =~= before.skip(i + 1));
                assert(before.take(i + 1) + pid_removed(rest.skip(1), pid) =~= before.take(i as int)
                    + (seq![rest[0]] + pid_removed(rest.skip(1), pid)));
            }
            i = i + 1;
        }
        assert(before.take(i as int) + pid_removed(before.skip(i as int), pid) =~= before);
    }

    /// Forgets a package.
    pub fn remove_pkg(&mut self, k: &str)
        ensures
            final(self)@ == pkg_removed(old(self)@, k@),
    {
        let ghost before = self@;
        let mut i: usize = 0;
        assert(before.skip(0) =~= before);
        assert(before.take(0) + pkg_removed(before, k@) =~= pkg_removed(before, k@));
        while i < self.entries.len()
            invariant
                i <= self.entries.len(),
                pkg_removed(before, k@) == self@.take(i as int) + pkg_removed(
                    self@.skip(i as int),
                    k@,
                ),
            decreases self.entries.len() - i,
        {
            let ghost m = self@;
            if str_eq(self.entries[i].0.as_str(), k) {
                self.entries.remove(i);
                proof {
                    assert(m.skip(i as int)[0] == m[i as int]);
                    assert(m.skip(i as int).skip(1) =~= self@.skip(i as int));
                    assert(m.take(i as int) =~= self@.take(i as int));
                }
            } else {
                proof {
                    let rest = m.skip(i as int);
                    assert(rest[0] == m[i as int]);
                    assert(rest.skip(1) =~= m.skip(i + 1));
                    assert(m.take(i + 1) + pkg_removed(rest.skip(1), k@) =~= m.take(i as int) + (
                    seq![rest[0]] + pkg_removed(rest.skip(1), k@)));
                }
                i = i + 1;
            }
        }
        assert(self@.take(i as int) + pkg_removed(self@.skip(i as int), k@) =~= self@);
    }
}

proof fn lemma_pkg_index(m: Seq<(Seq<char>, Seq<u32>)>, k: Seq<char>)
    ensures
        0 <= pkg_index(m, k) <= m.len(),
        pkg_index(m, k) < m.len() ==> m[pkg_index(m, k)].0 == k,
    decreases m.len(),
{
    if m.len() > 0 && m[0].0 != k {
        lemma_pkg_index(m.skip(1), k);
    }
}

} // verus!
