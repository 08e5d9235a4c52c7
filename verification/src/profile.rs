//! Usage profiles: what every app was seen doing. They live in memory only.

use vstd::prelude::*;
use crate::names::{lemma_with_key, unique_keys, value_of, with_key, NameMap};
use crate::network::{elapsed, time_since};
use crate::order::{lemma_text_lt_total, lemma_text_lt_transitive, text_less, text_lt};
use crate::text::str_eq;

verus! {

/// The profile of one app.
#[derive(Debug)]
pub struct AppProfile {
    pub focus_count: u64,
    /// Milliseconds in the foreground.
    pub focus_ms: u64,
    pub freeze_count: u64,
    pub unfreeze_count: u64,
    pub discard_count: u64,
    /// All wakeups, whether they thawed the app or not.
    pub wakeup_count: u64,
    /// Wakeups by source.
    pub wakeup_sources: NameMap<u64>,
    /// Seconds since the epoch; 0 before the first report.
    pub first_seen_at: u64,
    pub last_seen_at: u64,
    pub last_focus_at: u64,
    pub last_freeze_at: u64,
    /// When the app came to the foreground, in nanoseconds, while it is there.
    pub focus_since: Option<u64>,
}

pub struct ProfileView {
    pub focus_count: u64,
    pub focus_ms: u64,
    pub freeze_count: u64,
    pub unfreeze_count: u64,
    pub discard_count: u64,
    pub wakeup_count: u64,
    pub wakeup_sources: Seq<(Seq<char>, u64)>,
    pub first_seen_at: u64,
    pub last_seen_at: u64,
    pub last_focus_at: u64,
    pub last_freeze_at: u64,
    pub focus_since: Option<u64>,
}

impl View for AppProfile {
    type V = ProfileView;

    open spec fn view(&self) -> ProfileView {
        ProfileView {
            focus_count: self.focus_count,
            focus_ms: self.focus_ms,
            freeze_count: self.freeze_count,
            unfreeze_count: self.unfreeze_count,
            discard_count: self.discard_count,
            wakeup_count: self.wakeup_count,
            wakeup_sources: self.wakeup_sources@,
            first_seen_at: self.first_seen_at,
            last_seen_at: self.last_seen_at,
            last_focus_at: self.last_focus_at,
            last_freeze_at: self.last_freeze_at,
            focus_since: self.focus_since,
        }
    }
}

/// The profile of an app of which nothing is known.
pub open spec fn blank_profile() -> ProfileView {
    ProfileView {
        focus_count: 0,
        focus_ms: 0,
        freeze_count: 0,
        unfreeze_count: 0,
        discard_count: 0,
        wakeup_count: 0,
        wakeup_sources: Seq::empty(),
        first_seen_at: 0,
        last_seen_at: 0,
        last_focus_at: 0,
        last_freeze_at: 0,
        focus_since: None,
    }
}

/// The profile of an app that was seen at `epoch`.
pub open spec fn touched(p: ProfileView, epoch: u64) -> ProfileView {
    ProfileView {
        first_seen_at: if p.first_seen_at == 0 {
            epoch
        } else {
            p.first_seen_at
        },
        last_seen_at: epoch,
        ..p
    }
}

pub open spec fn focused(p: ProfileView, now: u64, epoch: u64) -> ProfileView {
    touched(
        ProfileView {
            focus_count: p.focus_count.wrapping_add(1),
            focus_since: Some(now),
            last_focus_at: epoch,
            ..p
        },
        epoch,
    )
}

/// Leaving the foreground adds the time there; without an arrival there is none to add.
pub open spec fn left(p: ProfileView, now: u64) -> ProfileView {
    match p.focus_since {
        Some(since) => ProfileView {
            focus_ms: p.focus_ms.wrapping_add((elapsed(now, since) / 1_000_000) as u64),
            focus_since: None,
            ..p
        },
        None => p,
    }
}

pub open spec fn count_in(m: Seq<(Seq<char>, u64)>, k: Seq<char>) -> u64 {
    match value_of(m, k) {
        Some(n) => n,
        None => 0,
    }
}

pub open spec fn woken(p: ProfileView, source: Seq<char>, epoch: u64) -> ProfileView {
    touched(
        ProfileView {
            wakeup_count: p.wakeup_count.wrapping_add(1),
            wakeup_sources: with_key(
                p.wakeup_sources,
                source,
                count_in(p.wakeup_sources, source).wrapping_add(1),
            ),
            ..p
        },
        epoch,
    )
}

pub open spec fn frozen_once(p: ProfileView, epoch: u64) -> ProfileView {
    touched(
        ProfileView { freeze_count: p.freeze_count.wrapping_add(1), last_freeze_at: epoch, ..p },
        epoch,
    )
}

pub open spec fn thawed_once(p: ProfileView, epoch: u64) -> ProfileView {
    touched(ProfileView { unfreeze_count: p.unfreeze_count.wrapping_add(1), ..p }, epoch)
}

pub open spec fn discarded_once(p: ProfileView, epoch: u64) -> ProfileView {
    touched(ProfileView { discard_count: p.discard_count.wrapping_add(1), ..p }, epoch)
}

impl AppProfile {
    fn blank() -> (r: AppProfile)
        ensures
            r@ == blank_profile(),
    {
        AppProfile {
            focus_count: 0,
            focus_ms: 0,
            freeze_count: 0,
            unfreeze_count: 0,
            discard_count: 0,
            wakeup_count: 0,
            wakeup_sources: NameMap::new(),
            first_seen_at: 0,
            last_seen_at: 0,
            last_focus_at: 0,
            last_freeze_at: 0,
            focus_since: None,
        }
    }

    fn touch(&mut self, epoch: u64)
        ensures
            final(self)@ == touched(old(self)@, epoch),
    {
        if self.first_seen_at == 0 {
            self.first_seen_at = epoch;
        }
        self.last_seen_at = epoch;
    }

    fn on_focus(&mut self, now: u64, epoch: u64)
        ensures
            final(self)@ == focused(old(self)@, now, epoch),
    {
        self.focus_count = self.focus_count.wrapping_add(1);
        self.focus_since = Some(now);
        self.last_focus_at = epoch;
        self.touch(epoch);
    }

    fn on_leave(&mut self, now: u64)
        ensures
            final(self)@ == left(old(self)@, now),
    {
        if let Some(since) = self.focus_since {
            self.focus_ms = self.focus_ms.wrapping_add(time_since(now, since) / 1_000_000);
            self.focus_since = None;
        }
    }

    fn on_wakeup(&mut self, source: &str, epoch: u64)
        ensures
            final(self)@ == woken(old(self)@, source@, epoch),
    {
        self.wakeup_count = self.wakeup_count.wrapping_add(1);
        let n: u64 = match self.wakeup_sources.get(source) {
            Some(n) => *n,
            None => 0,
        };
        self.wakeup_sources.insert(String::from_str(source), n.wrapping_add(1));
        self.touch(epoch);
    }

    fn on_freeze(&mut self, epoch: u64)
        ensures
            final(self)@ == frozen_once(old(self)@, epoch),
    {
        self.freeze_count = self.freeze_count.wrapping_add(1);
        self.last_freeze_at = epoch;
        self.touch(epoch);
    }

    fn on_unfreeze(&mut self, epoch: u64)
        ensures
            final(self)@ == thawed_once(old(self)@, epoch),
    {
        self.unfreeze_count = self.unfreeze_count.wrapping_add(1);
        self.touch(epoch);
    }

    fn on_discard(&mut self, epoch: u64)
        ensures
            final(self)@ == discarded_once(old(self)@, epoch),
    {
        self.discard_count = self.discard_count.wrapping_add(1);
        self.touch(epoch);
    }
}

/// The names and profiles of a list.
spec fn profile_pairs(v: Seq<(String, AppProfile)>) -> Seq<(Seq<char>, ProfileView)> {
    Seq::new(v.len(), |i: int| (v[i].0@, v[i].1@))
}

/// The profiles of all apps, one for each.
#[derive(Debug)]
pub struct ProfileTable {
    apps: Vec<(String, AppProfile)>,
}

impl View for ProfileTable {
    type V = Seq<(Seq<char>, ProfileView)>;

    closed spec fn view(&self) -> Seq<(Seq<char>, ProfileView)> {
        profile_pairs(self.apps@)
    }
}

/// The profile of an app; a blank one where there is none.
pub open spec fn profile_of(t: Seq<(Seq<char>, ProfileView)>, pkg: Seq<char>) -> ProfileView {
    match value_of(t, pkg) {
        Some(p) => p,
        None => blank_profile(),
    }
}

/// The number of wakeups of all apps.
pub open spec fn wakeups_of(t: Seq<(Seq<char>, ProfileView)>) -> u64
    decreases t.len(),
{
    if t.len() == 0 {
        0
    } else {
        wakeups_of(t.drop_last()).wrapping_add(t.last().1.wakeup_count)
    }
}

/// The number of freezes of all apps.
pub open spec fn freezes_of(t: Seq<(Seq<char>, ProfileView)>) -> u64
    decreases t.len(),
{
    if t.len() == 0 {
        0
    } else {
        freezes_of(t.drop_last()).wrapping_add(t.last().1.freeze_count)
    }
}

/// Whether `a` stands before `b` in the ranking by wakeups: it has more of them, or as many
/// and the smaller name.
pub open spec fn wakes_more(a: (Seq<char>, ProfileView), b: (Seq<char>, ProfileView)) -> bool {
    a.1.wakeup_count > b.1.wakeup_count || (a.1.wakeup_count == b.1.wakeup_count && text_lt(
        a.0,
        b.0,
    ))
}

pub open spec fn with_waker(s: Seq<(Seq<char>, ProfileView)>, x: (Seq<char>, ProfileView)) -> Seq<
    (Seq<char>, ProfileView),
>
    decreases s.len(),
{
    if s.len() > 0 && wakes_more(x, s.last()) {
        with_waker(s.drop_last(), x).push(s.last())
    } else {
        s.push(x)
    }
}

/// The apps by wakeups, the most first.
pub open spec fn by_wakeups(t: Seq<(Seq<char>, ProfileView)>) -> Seq<(Seq<char>, ProfileView)>
    decreases t.len(),
{
    if t.len() == 0 {
        t
    } else {
        with_waker(by_wakeups(t.drop_last()), t.last())
    }
}

pub open spec fn first_of<T>(s: Seq<T>, n: int) -> Seq<T> {
    if n < s.len() {
        s.take(n)
    } else {
        s
    }
}

proof fn lemma_with_waker(s: Seq<(Seq<char>, ProfileView)>, x: (Seq<char>, ProfileView))
    requires
        forall|i: int, j: int| 0 <= i < j < s.len() ==> !wakes_more(s[j], s[i]),
    ensures
        forall|i: int, j: int|
            0 <= i < j < with_waker(s, x).len() ==> !wakes_more(
                with_waker(s, x)[j],
                with_waker(s, x)[i],
            ),
        with_waker(s, x).to_multiset() == s.to_multiset().insert(x),
        with_waker(s, x).len() == s.len() + 1,
        forall|k: int|
            0 <= k < with_waker(s, x).len() ==> (#[trigger] with_waker(s, x)[k] == x || s.contains(
                with_waker(s, x)[k],
            )),
    decreases s.len(),
{
    broadcast use vstd::seq_lib::group_to_multiset_ensures;

    let r = with_waker(s, x);
    if s.len() > 0 && wakes_more(x, s.last()) {
        let d = s.drop_last();
        assert forall|i: int, j: int| 0 <= i < j < d.len() implies !wakes_more(d[j], d[i]) by {
            assert(!wakes_more(s[j], s[i]));
        }
        lemma_with_waker(d, x);
        let w = with_waker(d, x);
        assert(s =~= d.push(s.last()));
        assert(r.to_multiset() =~= s.to_multiset().insert(x));
        assert forall|k: int| 0 <= k < r.len() implies (#[trigger] r[k] == x || s.contains(r[k])) by {
            if k < w.len() {
                assert(w[k] == x || d.contains(w[k]));
                if d.contains(w[k]) {
                    let j = choose|j: int| 0 <= j < d.len() && d[j] == w[k];
                    assert(s[j] == r[k]);
                }
            } else {
                assert(s[s.len() - 1] == r[k]);
            }
        }
        assert forall|i: int, j: int| 0 <= i < j < r.len() implies !wakes_more(r[j], r[i]) by {
            if j == w.len() {
                assert(w[i] == x || d.contains(w[i]));
                if w[i] == x {
                    lemma_text_lt_total(x.0, s.last().0);
                } else {
                    let t = choose|t: int| 0 <= t < d.len() && d[t] == w[i];
                    assert(!wakes_more(s[s.len() - 1], s[t]));
                }
            } else {
                assert(!wakes_more(w[j], w[i]));
            }
        }
    } else {
        assert forall|i: int, j: int| 0 <= i < j < r.len() implies !wakes_more(r[j], r[i]) by {
            if j == s.len() {
                if i < s.len() - 1 {
                    assert(!wakes_more(s[s.len() - 1], s[i]));
                    if wakes_more(x, s[i]) {
                        lemma_text_lt_total(s[i].0, s.last().0);
                        if text_lt(x.0, s[i].0) && text_lt(s[i].0, s.last().0) {
                            lemma_text_lt_transitive(x.0, s[i].0, s.last().0);
                        }
                    }
                }
            } else {
                assert(!wakes_more(s[j], s[i]));
            }
        }
        assert forall|k: int| 0 <= k < r.len() implies (#[trigger] r[k] == x || s.contains(r[k])) by {
            if k < s.len() {
                assert(s[k] == r[k]);
            }
        }
    }
}

/// The ranking holds every app once, those with more wakeups first, and of those with as many
/// the smaller name first.
pub proof fn law_ranking_by_wakeups(t: Seq<(Seq<char>, ProfileView)>)
    ensures
        forall|i: int, j: int|
            0 <= i < j < by_wakeups(t).len() ==> !wakes_more(by_wakeups(t)[j], by_wakeups(t)[i]),
        by_wakeups(t).to_multiset() == t.to_multiset(),
        by_wakeups(t).len() == t.len(),
    decreases t.len(),
{
    broadcast use vstd::seq_lib::group_to_multiset_ensures;

    if t.len() > 0 {
        law_ranking_by_wakeups(t.drop_last());
        lemma_with_waker(by_wakeups(t.drop_last()), t.last());
        assert(t =~= t.drop_last().push(t.last()));
    }
}

proof fn lemma_waker_names(s: Seq<(Seq<char>, ProfileView)>, x: (Seq<char>, ProfileView))
    requires
        unique_keys(s),
        forall|i: int| 0 <= i < s.len() ==> (#[trigger] s[i]).0 != x.0,
    ensures
        unique_keys(with_waker(s, x)),
        forall|k: int|
            0 <= k < with_waker(s, x).len() ==> (#[trigger] with_waker(s, x)[k] == x || s.contains(
                with_waker(s, x)[k],
            )),
    decreases s.len(),
{
    let r = with_waker(s, x);
    if s.len() > 0 && wakes_more(x, s.last()) {
        let d = s.drop_last();
        let l = s.last();
        assert(s[s.len() - 1] == l);
        assert forall|i: int, j: int| 0 <= i < j < d.len() implies d[i].0 != d[j].0 by {
            assert(s[i].0 != s[j].0);
        }
        assert forall|i: int| 0 <= i < d.len() implies (#[trigger] d[i]).0 != x.0 by {
            assert(s[i].0 != x.0);
        }
        lemma_waker_names(d, x);
        let w = with_waker(d, x);
        assert forall|k: int| 0 <= k < r.len() implies (#[trigger] r[k] == x || s.contains(r[k])) by {
            if k < w.len() {
                assert(w[k] == x || d.contains(w[k]));
                if w[k] != x {
                    let j = choose|j: int| 0 <= j < d.len() && d[j] == w[k];
                    assert(s[j] == r[k]);
                }
            }
        }
        assert forall|i: int, j: int| 0 <= i < j < r.len() implies r[i].0 != r[j].0 by {
            if j == w.len() {
                assert(w[i] == x || d.contains(w[i]));
                if w[i] != x {
                    let t = choose|t: int| 0 <= t < d.len() && d[t] == w[i];
                    assert(s[t].0 != s[s.len() - 1].0);
                }
            } else {
                assert(w[i].0 != w[j].0);
            }
        }
    } else {
        assert forall|k: int| 0 <= k < r.len() implies (#[trigger] r[k] == x || s.contains(r[k])) by {
            if k < s.len() {
                assert(s[k] == r[k]);
            }
        }
        assert forall|i: int, j: int| 0 <= i < j < r.len() implies r[i].0 != r[j].0 by {
            assert(s[i].0 != x.0);
        }
    }
}

proof fn lemma_ranked_entries(t: Seq<(Seq<char>, ProfileView)>)
    requires
        unique_keys(t),
    ensures
        unique_keys(by_wakeups(t)),
        forall|k: int|
            0 <= k < by_wakeups(t).len() ==> t.contains(#[trigger] by_wakeups(t)[k]),
    decreases t.len(),
{
    if t.len() > 0 {
        let d = t.drop_last();
        let x = t.last();
        assert forall|i: int, j: int| 0 <= i < j < d.len() implies d[i].0 != d[j].0 by {
            assert(t[i].0 != t[j].0);
        }
        lemma_ranked_entries(d);
        let w = by_wakeups(d);
        assert forall|i: int| 0 <= i < w.len() implies (#[trigger] w[i]).0 != x.0 by {
            assert(d.contains(w[i]));
            let j = choose|j: int| 0 <= j < d.len() && d[j] == w[i];
            assert(t[j].0 != t[t.len() - 1].0);
        }
        lemma_waker_names(w, x);
        let r = by_wakeups(t);
        assert forall|k: int| 0 <= k < r.len() implies t.contains(#[trigger] r[k]) by {
            assert(r[k] == x || w.contains(r[k]));
            assert(t[t.len() - 1] == x);
            if r[k] != x {
                let i = choose|i: int| 0 <= i < w.len() && w[i] == r[k];
                assert(d.contains(w[i]));
                let j = choose|j: int| 0 <= j < d.len() && d[j] == w[i];
                assert(t[j] == r[k]);
            }
        }
    }
}

/// The ranking, and every beginning of it, names no app twice.
pub proof fn law_ranking_names_each_once(t: Seq<(Seq<char>, ProfileView)>)
    requires
        unique_keys(t),
    ensures
        unique_keys(by_wakeups(t)),
        forall|n: int| 0 <= n ==> unique_keys(#[trigger] first_of(by_wakeups(t), n)),
{
    lemma_ranked_entries(t);
    let r = by_wakeups(t);
    assert forall|n: int| 0 <= n implies unique_keys(#[trigger] first_of(r, n)) by {
        let f = first_of(r, n);
        assert forall|i: int, j: int| 0 <= i < j < f.len() implies f[i].0 != f[j].0 by {
            assert(r[i].0 != r[j].0);
        }
    }
}

impl Default for ProfileTable {
    fn default() -> (r: Self)
        ensures
            r@ == Seq::<(Seq<char>, ProfileView)>::empty(),
    {
        let r = ProfileTable { apps: Vec::new() };
        assert(r@ =~= Seq::<(Seq<char>, ProfileView)>::empty());
        r
    }
}

pub open spec fn waker_views(v: Seq<(String, &AppProfile)>) -> Seq<(Seq<char>, ProfileView)> {
    Seq::new(v.len(), |i: int| (v[i].0@, v[i].1@))
}

fn insert_waker<'a>(v: &mut Vec<(String, &'a AppProfile)>, name: String, p: &'a AppProfile)
    ensures
        waker_views(final(v)@) == with_waker(waker_views(old(v)@), (name@, p@)),
{
    let ghost all = waker_views(v@);
    let ghost x = (name@, p@);
    let mut n: usize = v.len();
    assert(all.take(n as int) =~= all);
    assert(with_waker(all, x) + all.skip(n as int) =~= with_waker(all, x));
    while n > 0 && (p.wakeup_count > v[n - 1].1.wakeup_count || (p.wakeup_count
        == v[n - 1].1.wakeup_count && text_less(name.as_str(), v[n - 1].0.as_str())))
        invariant
            n <= v.len(),
            all == waker_views(v@),
            x == (name@, p@),
            with_waker(all, x) == with_waker(all.take(n as int), x) + all.skip(n as int),
        decreases n,
    {
        proof {
            let t = all.take(n as int);
            assert(t.drop_last() =~= all.take(n - 1));
            assert(t.last() == all[n - 1]);
            assert(with_waker(t.drop_last(), x).push(t.last()) + all.skip(n as int)
                =~= with_waker(t.drop_last(), x) + all.skip(n - 1));
        }
        n = n - 1;
    }
    proof {
        let t = all.take(n as int);
        assert(n > 0 ==> t.last() == all[n - 1]);
        assert(with_waker(t, x) == t.push(x));
    }
    v.insert(n, (name, p));
    assert(waker_views(v@) =~= all.take(n as int).push(x) + all.skip(n as int));
}

/// The place of an app; it gets a blank profile where it has none.
fn slot(apps: &mut Vec<(String, AppProfile)>, pkg: &str) -> (r: usize)
    ensures
        r == crate::names::key_index(profile_pairs(final(apps)@), pkg@),
        r < final(apps)@.len(),
        profile_pairs(final(apps)@) == with_key(
            profile_pairs(old(apps)@),
            pkg@,
            profile_of(profile_pairs(old(apps)@), pkg@),
        ),
{
    let ghost before = profile_pairs(apps@);
    let mut i: usize = 0;
    while i < apps.len()
        invariant
            i <= apps.len(),
            profile_pairs(apps@) == before,
            forall|j: int| 0 <= j < i ==> before[j].0 != pkg@,
        decreases apps.len() - i,
    {
        if str_eq(apps[i].0.as_str(), pkg) {
            proof {
                crate::names::lemma_key_index_at(before, pkg@, i as int);
                assert(before.update(i as int, (pkg@, before[i as int].1)) =~= before);
            }
            return i;
        }
        i = i + 1;
    }
    apps.push((String::from_str(pkg), AppProfile::blank()));
    proof {
        crate::names::lemma_key_index_at(before, pkg@, i as int);
        assert(profile_pairs(apps@) =~= before.push((pkg@, blank_profile())));
        crate::names::lemma_key_index_at(profile_pairs(apps@), pkg@, i as int);
    }
    i
}

impl ProfileTable {
    #[verifier::type_invariant]
    spec fn names_are_distinct(self) -> bool {
        unique_keys(profile_pairs(self.apps@))
    }

    /// An app came to the foreground.
    pub fn on_focus(&mut self, pkg: &str, now: u64, epoch: u64)
        ensures
            final(self)@ == with_key(
                old(self)@,
                pkg@,
                focused(profile_of(old(self)@, pkg@), now, epoch),
            ),
    {
        let ghost before = self@;
        proof {
            use_type_invariant(&*self);
            lemma_slot(before, pkg@);
        }
        let mut apps: Vec<(String, AppProfile)> = Vec::new();
        std::mem::swap(&mut apps, &mut self.apps);
        let i: usize = slot(&mut apps, pkg);
        let ghost mid = profile_pairs(apps@);
        apps[i].1.on_focus(now, epoch);
        proof {
            let p = focused(mid[i as int].1, now, epoch);
            assert(profile_pairs(apps@) =~= mid.update(i as int, (pkg@, p)));
            lemma_with_key(before, pkg@, p, pkg@);
        }
        self.apps = apps;
    }

    /// An app left the foreground.
    pub fn on_leave(&mut self, pkg: &str, now: u64)
        ensures
            final(self)@ == with_key(old(self)@, pkg@, left(profile_of(old(self)@, pkg@), now)),
    {
        let ghost before = self@;
        proof {
            use_type_invariant(&*self);
            lemma_slot(before, pkg@);
        }
        let mut apps: Vec<(String, AppProfile)> = Vec::new();
        std::mem::swap(&mut apps, &mut self.apps);
        let i: usize = slot(&mut apps, pkg);
        let ghost mid = profile_pairs(apps@);
        apps[i].1.on_leave(now);
        proof {
            let p = left(mid[i as int].1, now);
            assert(profile_pairs(apps@) =~= mid.update(i as int, (pkg@, p)));
            lemma_with_key(before, pkg@, p, pkg@);
        }
        self.apps = apps;
    }

    /// An app was woken.
    pub fn on_wakeup(&mut self, pkg: &str, source: &str, epoch: u64)
        ensures
            final(self)@ == with_key(
                old(self)@,
                pkg@,
                woken(profile_of(old(self)@, pkg@), source@, epoch),
            ),
    {
        let ghost before = self@;
        proof {
            use_type_invariant(&*self);
            lemma_slot(before, pkg@);
        }
        let mut apps: Vec<(String, AppProfile)> = Vec::new();
        std::mem::swap(&mut apps, &mut self.apps);
        let i: usize = slot(&mut apps, pkg);
        let ghost mid = profile_pairs(apps@);
        apps[i].1.on_wakeup(source, epoch);
        proof {
            let p = woken(mid[i as int].1, source@, epoch);
            assert(profile_pairs(apps@) =~= mid.update(i as int, (pkg@, p)));
            lemma_with_key(before, pkg@, p, pkg@);
        }
        self.apps = apps;
    }

    /// An app was frozen.
    pub fn on_freeze(&mut self, pkg: &str, epoch: u64)
        ensures
            final(self)@ == with_key(
                old(self)@,
                pkg@,
                frozen_once(profile_of(old(self)@, pkg@), epoch),
            ),
    {
        let ghost before = self@;
        proof {
            use_type_invariant(&*self);
            lemma_slot(before, pkg@);
        }
        let mut apps: Vec<(String, AppProfile)> = Vec::new();
        std::mem::swap(&mut apps, &mut self.apps);
        let i: usize = slot(&mut apps, pkg);
        let ghost mid = profile_pairs(apps@);
        apps[i].1.on_freeze(epoch);
        proof {
            let p = frozen_once(mid[i as int].1, epoch);
            assert(profile_pairs(apps@) =~= mid.update(i as int, (pkg@, p)));
            lemma_with_key(before, pkg@, p, pkg@);
        }
        self.apps = apps;
    }

    /// An app was thawed.
    pub fn on_unfreeze(&mut self, pkg: &str, epoch: u64)
        ensures
            final(self)@ == with_key(
                old(self)@,
                pkg@,
                thawed_once(profile_of(old(self)@, pkg@), epoch),
            ),
    {
        let ghost before = self@;
        proof {
            use_type_invariant(&*self);
            lemma_slot(before, pkg@);
        }
        let mut apps: Vec<(String, AppProfile)> = Vec::new();
        std::mem::swap(&mut apps, &mut self.apps);
        let i: usize = slot(&mut apps, pkg);
        let ghost mid = profile_pairs(apps@);
        apps[i].1.on_unfreeze(epoch);
        proof {
            let p = thawed_once(mid[i as int].1, epoch);
            assert(profile_pairs(apps@) =~= mid.update(i as int, (pkg@, p)));
            lemma_with_key(before, pkg@, p, pkg@);
        }
        self.apps = apps;
    }

    /// An app was discarded.
    pub fn on_discard(&mut self, pkg: &str, epoch: u64)
        ensures
            final(self)@ == with_key(
                old(self)@,
                pkg@,
                discarded_once(profile_of(old(self)@, pkg@), epoch),
            ),
    {
        let ghost before = self@;
        proof {
            use_type_invariant(&*self);
            lemma_slot(before, pkg@);
        }
        let mut apps: Vec<(String, AppProfile)> = Vec::new();
        std::mem::swap(&mut apps, &mut self.apps);
        let i: usize = slot(&mut apps, pkg);
        let ghost mid = profile_pairs(apps@);
        apps[i].1.on_discard(epoch);
        proof {
            let p = discarded_once(mid[i as int].1, epoch);
            assert(profile_pairs(apps@) =~= mid.update(i as int, (pkg@, p)));
            lemma_with_key(before, pkg@, p, pkg@);
        }
        self.apps = apps;
    }

    /// The number of apps. None occurs twice.
    pub fn app_count(&self) -> (r: usize)
        ensures
            r == self@.len(),
            unique_keys(self@),
    {
        proof {
            use_type_invariant(self);
        }
        self.apps.len()
    }

    /// The `n` apps with the most wakeups.
    pub fn top_wakeups(&self, n: usize) -> (r: Vec<(String, &AppProfile)>)
        ensures
            waker_views(r@) == first_of(by_wakeups(self@), n as int),
            unique_keys(waker_views(r@)),
    {
        proof {
            use_type_invariant(self);
            law_ranking_names_each_once(self@);
        }
        let ghost all = self@;
        let mut out: Vec<(String, &AppProfile)> = Vec::new();
        let mut i: usize = 0;
        assert(waker_views(out@) =~= by_wakeups(all.take(0)));
        while i < self.apps.len()
            invariant
                i <= self.apps.len(),
                all == self@,
                waker_views(out@) == by_wakeups(all.take(i as int)),
            decreases self.apps.len() - i,
        {
            assert(all.take(i + 1).drop_last() =~= all.take(i as int));
            insert_waker(&mut out, self.apps[i].0.clone(), &self.apps[i].1);
            i = i + 1;
        }
        assert(all.take(all.len() as int) =~= all);
        let ghost ranked = waker_views(out@);
        if n < out.len() {
            out.truncate(n);
            assert(waker_views(out@) =~= ranked.take(n as int));
        }
        out
    }

    pub fn total_wakeups(&self) -> (r: u64)
        ensures
            r == wakeups_of(self@),
    {
        let ghost all = self@;
        let mut sum: u64 = 0;
        let mut i: usize = 0;
        while i < self.apps.len()
            invariant
                i <= self.apps.len(),
                all == self@,
                sum == wakeups_of(all.take(i as int)),
            decreases self.apps.len() - i,
        {
            assert(all.take(i + 1).drop_last() =~= all.take(i as int));
            sum = sum.wrapping_add(self.apps[i].1.wakeup_count);
            i = i + 1;
        }
        assert(all.take(all.len() as int) =~= all);
        sum
    }

    pub fn total_freezes(&self) -> (r: u64)
        ensures
            r == freezes_of(self@),
    {
        let ghost all = self@;
        let mut sum: u64 = 0;
        let mut i: usize = 0;
        while i < self.apps.len()
            invariant
                i <= self.apps.len(),
                all == self@,
                sum == freezes_of(all.take(i as int)),
            decreases self.apps.len() - i,
        {
            assert(all.take(i + 1).drop_last() =~= all.take(i as int));
            sum = sum.wrapping_add(self.apps[i].1.freeze_count);
            i = i + 1;
        }
        assert(all.take(all.len() as int) =~= all);
        sum
    }

    /// The profile of an app.
    pub fn get(&self, pkg: &str) -> (r: Option<&AppProfile>)
        ensures
            match r {
                Some(p) => value_of(self@, pkg@) == Some(p@),
                None => value_of(self@, pkg@) is None,
            },
    {
        let mut i: usize = 0;
        while i < self.apps.len()
            invariant
                i <= self.apps.len(),
                forall|j: int| 0 <= j < i ==> self@[j].0 != pkg@,
            decreases self.apps.len() - i,
        {
            if str_eq(self.apps[i].0.as_str(), pkg) {
                proof {
                    crate::names::lemma_key_index_at(self@, pkg@, i as int);
                }
                return Some(&self.apps[i].1);
            }
            i = i + 1;
        }
        proof {
            crate::names::lemma_key_index_at(self@, pkg@, i as int);
        }
        None
    }
}

proof fn lemma_slot(t: Seq<(Seq<char>, ProfileView)>, pkg: Seq<char>)
    ensures
        ({
            let p = profile_of(t, pkg);
            let m = with_key(t, pkg, p);
            let i = crate::names::key_index(m, pkg);
            &&& 0 <= i < m.len()
            &&& m[i] == (pkg, p)
            &&& forall|q: ProfileView| with_key(t, pkg, q) == #[trigger] m.update(i, (pkg, q))
        }),
{
    let p = profile_of(t, pkg);
    let m = with_key(t, pkg, p);
    crate::names::lemma_key_index(t, pkg);
    let k = crate::names::key_index(t, pkg);
    crate::names::lemma_key_index_at(m, pkg, k);
    assert forall|q: ProfileView| with_key(t, pkg, q) == #[trigger] m.update(k, (pkg, q)) by {
        assert(with_key(t, pkg, q) =~= m.update(k, (pkg, q)));
    }
}

} // verus!
