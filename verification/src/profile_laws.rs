//! What the profiles add up to, whatever was recorded.

use vstd::prelude::*;
use crate::names::{
    has_key, key_index, lemma_key_index, lemma_with_key, unique_keys, value_of, with_key,
};
use crate::order::text_lt;
use crate::profile::{
    blank_profile, by_wakeups, count_in, discarded_once, focused, freezes_of, frozen_once,
    law_ranking_by_wakeups, left, profile_of, thawed_once, wakes_more, wakeups_of, with_waker,
    woken, ProfileView,
};

verus! {

/// The profiles of all apps.
pub type Profiles = Seq<(Seq<char>, ProfileView)>;

// ---- Wakeups by source ----

/// The sum of the counts.
pub open spec fn sum_of(m: Seq<(Seq<char>, u64)>) -> nat
    decreases m.len(),
{
    if m.len() == 0 {
        0
    } else {
        sum_of(m.drop_last()) + m.last().1 as nat
    }
}

/// The wakeups of an app are those of its sources together.
pub open spec fn adds_up(p: ProfileView) -> bool {
    p.wakeup_count == sum_of(p.wakeup_sources)
}

/// The same of every app.
pub open spec fn all_add_up(t: Profiles) -> bool {
    forall|i: int| 0 <= i < t.len() ==> adds_up((#[trigger] t[i]).1)
}

proof fn lemma_sum_update(m: Seq<(Seq<char>, u64)>, i: int, x: (Seq<char>, u64))
    requires
        0 <= i < m.len(),
    ensures
        sum_of(m.update(i, x)) + m[i].1 == sum_of(m) + x.1,
        m[i].1 <= sum_of(m),
    decreases m.len(),
{
    let d = m.drop_last();
    if i == m.len() - 1 {
        assert(m.update(i, x).drop_last() =~= d);
    } else {
        assert(m.update(i, x).drop_last() =~= d.update(i, x));
        lemma_sum_update(d, i, x);
    }
}

proof fn lemma_sum_with(m: Seq<(Seq<char>, u64)>, k: Seq<char>)
    requires
        sum_of(m) < u64::MAX,
    ensures
        count_in(m, k) <= sum_of(m),
        sum_of(with_key(m, k, count_in(m, k).wrapping_add(1))) == sum_of(m) + 1,
{
    let n = count_in(m, k).wrapping_add(1);
    lemma_key_index(m, k);
    if has_key(m, k) {
        lemma_sum_update(m, key_index(m, k), (k, n));
    } else {
        assert(m.push((k, n)).drop_last() =~= m);
    }
}

/// A wakeup counts once for the app and once for the source, below the limit of the counter,
/// and so the wakeups of the app stay the sum of those by source. Nothing else is counted.
pub proof fn law_a_wakeup_counts_once(p: ProfileView, source: Seq<char>, epoch: u64)
    requires
        adds_up(p),
        p.wakeup_count < u64::MAX,
    ensures
        adds_up(woken(p, source, epoch)),
        woken(p, source, epoch).wakeup_count == p.wakeup_count + 1,
        count_in(woken(p, source, epoch).wakeup_sources, source) == count_in(
            p.wakeup_sources,
            source,
        ) + 1,
        forall|other: Seq<char>|
            other != source ==> #[trigger] count_in(woken(p, source, epoch).wakeup_sources, other)
                == count_in(p.wakeup_sources, other),
        woken(p, source, epoch).focus_count == p.focus_count,
        woken(p, source, epoch).focus_ms == p.focus_ms,
        woken(p, source, epoch).freeze_count == p.freeze_count,
        woken(p, source, epoch).unfreeze_count == p.unfreeze_count,
        woken(p, source, epoch).discard_count == p.discard_count,
{
    let m = p.wakeup_sources;
    let n = count_in(m, source).wrapping_add(1);
    lemma_sum_with(m, source);
    lemma_with_key(m, source, n, source);
    assert forall|other: Seq<char>| other != source implies #[trigger] count_in(
        woken(p, source, epoch).wakeup_sources,
        other,
    ) == count_in(m, other) by {
        lemma_with_key(m, source, n, other);
    }
}

/// The profile of an app that is new adds up.
pub proof fn law_a_blank_profile_adds_up()
    ensures
        adds_up(blank_profile()),
{
}

// ---- Sequences of reports ----

/// What is reported of an app.
pub enum Report {
    Focus { now: u64, epoch: u64 },
    Leave { now: u64 },
    Wakeup { source: Seq<char>, epoch: u64 },
    Freeze { epoch: u64 },
    Unfreeze { epoch: u64 },
    Discard { epoch: u64 },
}

/// A profile after one more report.
pub open spec fn reported(p: ProfileView, r: Report) -> ProfileView {
    match r {
        Report::Focus { now, epoch } => focused(p, now, epoch),
        Report::Leave { now } => left(p, now),
        Report::Wakeup { source, epoch } => woken(p, source, epoch),
        Report::Freeze { epoch } => frozen_once(p, epoch),
        Report::Unfreeze { epoch } => thawed_once(p, epoch),
        Report::Discard { epoch } => discarded_once(p, epoch),
    }
}

/// The profiles after one more report.
pub open spec fn recorded(t: Profiles, pkg: Seq<char>, r: Report) -> Profiles {
    with_key(t, pkg, reported(profile_of(t, pkg), r))
}

/// The profiles after the reports, in order, from none.
pub open spec fn recorded_all(rs: Seq<(Seq<char>, Report)>) -> Profiles
    decreases rs.len(),
{
    if rs.len() == 0 {
        Seq::empty()
    } else {
        recorded(recorded_all(rs.drop_last()), rs.last().0, rs.last().1)
    }
}

/// How many of the reports are wakeups.
pub open spec fn wakeups_among(rs: Seq<(Seq<char>, Report)>) -> nat
    decreases rs.len(),
{
    if rs.len() == 0 {
        0
    } else if rs.last().1 is Wakeup {
        wakeups_among(rs.drop_last()) + 1
    } else {
        wakeups_among(rs.drop_last())
    }
}

/// A report is about one app: every other profile stays as it is, no app occurs twice, and there
/// is one app more exactly where this one was not there.
pub proof fn law_a_report_is_about_one_app(t: Profiles, pkg: Seq<char>, r: Report, other: Seq<char>)
    ensures
        profile_of(recorded(t, pkg, r), pkg) == reported(profile_of(t, pkg), r),
        has_key(recorded(t, pkg, r), pkg),
        other != pkg ==> value_of(recorded(t, pkg, r), other) == value_of(t, other),
        unique_keys(t) ==> unique_keys(recorded(t, pkg, r)),
        recorded(t, pkg, r).len() == t.len() + if has_key(t, pkg) {
            0int
        } else {
            1
        },
{
    lemma_key_index(t, pkg);
    lemma_with_key(t, pkg, reported(profile_of(t, pkg), r), pkg);
    lemma_with_key(t, pkg, reported(profile_of(t, pkg), r), other);
}

/// The wakeups of every app stay the sum of those by source, whatever is reported, below the
/// limit of the counter.
pub proof fn law_profiles_add_up(t: Profiles, pkg: Seq<char>, r: Report)
    requires
        all_add_up(t),
        profile_of(t, pkg).wakeup_count < u64::MAX,
    ensures
        all_add_up(recorded(t, pkg, r)),
{
    let p = profile_of(t, pkg);
    lemma_key_index(t, pkg);
    let i = key_index(t, pkg);
    if has_key(t, pkg) {
        assert(adds_up(t[i].1));
    }
    if let Report::Wakeup { source, epoch } = r {
        law_a_wakeup_counts_once(p, source, epoch);
    }
    let u = recorded(t, pkg, r);
    assert forall|j: int| 0 <= j < u.len() implies adds_up((#[trigger] u[j]).1) by {
        if j < t.len() && j != i {
            assert(u[j] == t[j]);
        }
    }
}

// ---- All wakeups ----

proof fn lemma_wakeups_push(t: Profiles, x: (Seq<char>, ProfileView))
    ensures
        wakeups_of(t.push(x)) == wakeups_of(t).wrapping_add(x.1.wakeup_count),
{
    assert(t.push(x).drop_last() =~= t);
}

proof fn lemma_wakeups_update(t: Profiles, i: int, x: (Seq<char>, ProfileView))
    requires
        0 <= i < t.len(),
    ensures
        wakeups_of(t.update(i, x)).wrapping_add(t[i].1.wakeup_count) == wakeups_of(t).wrapping_add(
            x.1.wakeup_count,
        ),
    decreases t.len(),
{
    let d = t.drop_last();
    if i == t.len() - 1 {
        assert(t.update(i, x).drop_last() =~= d);
    } else {
        assert(t.update(i, x).drop_last() =~= d.update(i, x));
        assert(t.update(i, x).last() == t.last());
        lemma_wakeups_update(d, i, x);
    }
}

/// Each wakeup makes all wakeups one more, and no other report changes their number. As with
/// every counter, the one after the largest number is 0.
pub proof fn law_wakeups_grow_by_wakeups(t: Profiles, pkg: Seq<char>, r: Report)
    ensures
        r is Wakeup ==> wakeups_of(recorded(t, pkg, r)) == wakeups_of(t).wrapping_add(1),
        !(r is Wakeup) ==> wakeups_of(recorded(t, pkg, r)) == wakeups_of(t),
{
    let p = profile_of(t, pkg);
    let q = reported(p, r);
    lemma_key_index(t, pkg);
    if has_key(t, pkg) {
        lemma_wakeups_update(t, key_index(t, pkg), (pkg, q));
    } else {
        lemma_wakeups_push(t, (pkg, q));
    }
}

/// The profiles that a sequence of reports gives count its wakeups, name no app twice, and each
/// of them adds up, as long as no counter reaches its limit.
pub proof fn law_all_wakeups_are_the_reported_ones(rs: Seq<(Seq<char>, Report)>)
    ensures
        wakeups_of(recorded_all(rs)) == wakeups_among(rs) % 0x1_0000_0000_0000_0000,
        unique_keys(recorded_all(rs)),
        rs.len() <= u64::MAX ==> all_add_up(recorded_all(rs)) && (forall|pkg: Seq<char>|
            (#[trigger] profile_of(recorded_all(rs), pkg)).wakeup_count <= rs.len()),
    decreases rs.len(),
{
    if rs.len() > 0 {
        let d = rs.drop_last();
        let (pkg, r) = rs.last();
        let t = recorded_all(d);
        let u = recorded_all(rs);
        law_all_wakeups_are_the_reported_ones(d);
        law_wakeups_grow_by_wakeups(t, pkg, r);
        law_a_report_is_about_one_app(t, pkg, r, pkg);
        if rs.len() <= u64::MAX {
            assert(profile_of(t, pkg).wakeup_count <= d.len());
            law_profiles_add_up(t, pkg, r);
            assert forall|other: Seq<char>| (#[trigger] profile_of(u, other)).wakeup_count
                <= rs.len() by {
                law_a_report_is_about_one_app(t, pkg, r, other);
                assert(profile_of(t, other).wakeup_count <= d.len());
            }
        }
    }
}

proof fn lemma_wakeups_with_waker(s: Profiles, x: (Seq<char>, ProfileView))
    ensures
        wakeups_of(with_waker(s, x)) == wakeups_of(s).wrapping_add(x.1.wakeup_count),
    decreases s.len(),
{
    if s.len() > 0 && wakes_more(x, s.last()) {
        let d = s.drop_last();
        lemma_wakeups_with_waker(d, x);
        lemma_wakeups_push(with_waker(d, x), s.last());
    } else {
        lemma_wakeups_push(s, x);
    }
}

/// All wakeups are the sum over the ranking.
pub proof fn law_all_wakeups_are_those_of_the_ranking(t: Profiles)
    ensures
        wakeups_of(by_wakeups(t)) == wakeups_of(t),
    decreases t.len(),
{
    if t.len() > 0 {
        law_all_wakeups_are_those_of_the_ranking(t.drop_last());
        lemma_wakeups_with_waker(by_wakeups(t.drop_last()), t.last());
    }
}

// ---- What a single report records ----

/// Whether an app was seen at a time: it is the last one, and the first where there was none.
pub open spec fn seen(p: ProfileView, q: ProfileView, epoch: u64) -> bool {
    &&& q.last_seen_at == epoch
    &&& p.first_seen_at == 0 ==> q.first_seen_at == epoch
    &&& p.first_seen_at != 0 ==> q.first_seen_at == p.first_seen_at
}

/// Whether nothing is recorded of wakeups.
pub open spec fn same_wakeups(p: ProfileView, q: ProfileView) -> bool {
    q.wakeup_count == p.wakeup_count && q.wakeup_sources == p.wakeup_sources
}

/// An app that comes to the foreground has come once more, at that time, and nothing else of it
/// is counted.
pub proof fn law_focus_is_recorded(p: ProfileView, now: u64, epoch: u64)
    ensures
        ({
            let q = focused(p, now, epoch);
            &&& q.focus_count == p.focus_count.wrapping_add(1)
            &&& q.last_focus_at == epoch
            &&& seen(p, q, epoch) && same_wakeups(p, q)
            &&& q.focus_ms == p.focus_ms && q.freeze_count == p.freeze_count && q.unfreeze_count
                == p.unfreeze_count && q.discard_count == p.discard_count && q.last_freeze_at
                == p.last_freeze_at
        }),
{
}

/// A stay in the foreground counts for the milliseconds from the arrival to the leave, once; a
/// leave without an arrival counts for nothing.
pub proof fn law_stay_is_measured(p: ProfileView, from: u64, to: u64, epoch: u64, later: u64)
    requires
        from <= to,
    ensures
        ({
            let q = left(focused(p, from, epoch), to);
            &&& q.focus_ms == p.focus_ms.wrapping_add(((to - from) / 1_000_000) as u64)
            &&& q.focus_count == p.focus_count.wrapping_add(1)
            &&& left(q, later) == q
            &&& same_wakeups(p, q)
            &&& q.freeze_count == p.freeze_count && q.unfreeze_count == p.unfreeze_count
                && q.discard_count == p.discard_count
        }),
        p.focus_since is None ==> left(p, to) == p,
{
}

/// A freeze, a thaw and a discard are counted each by itself, and a freeze with its time.
pub proof fn law_operations_are_recorded(p: ProfileView, epoch: u64)
    ensures
        ({
            let q = frozen_once(p, epoch);
            &&& q.freeze_count == p.freeze_count.wrapping_add(1) && q.last_freeze_at == epoch
            &&& q.unfreeze_count == p.unfreeze_count && q.discard_count == p.discard_count
            &&& seen(p, q, epoch) && same_wakeups(p, q)
            &&& q.focus_count == p.focus_count && q.focus_ms == p.focus_ms && q.focus_since
                == p.focus_since && q.last_focus_at == p.last_focus_at
        }),
        ({
            let q = thawed_once(p, epoch);
            &&& q.unfreeze_count == p.unfreeze_count.wrapping_add(1)
            &&& q.freeze_count == p.freeze_count && q.discard_count == p.discard_count
            &&& seen(p, q, epoch) && same_wakeups(p, q)
            &&& q.focus_count == p.focus_count && q.focus_ms == p.focus_ms && q.focus_since
                == p.focus_since && q.last_freeze_at == p.last_freeze_at
        }),
        ({
            let q = discarded_once(p, epoch);
            &&& q.discard_count == p.discard_count.wrapping_add(1)
            &&& q.freeze_count == p.freeze_count && q.unfreeze_count == p.unfreeze_count
            &&& seen(p, q, epoch) && same_wakeups(p, q)
            &&& q.focus_count == p.focus_count && q.focus_ms == p.focus_ms && q.focus_since
                == p.focus_since && q.last_freeze_at == p.last_freeze_at
        }),
{
}

/// A wakeup is seen like everything else of an app.
pub proof fn law_wakeup_is_seen(p: ProfileView, source: Seq<char>, epoch: u64)
    ensures
        seen(p, woken(p, source, epoch), epoch),
        woken(p, source, epoch).wakeup_count == p.wakeup_count.wrapping_add(1),
        count_in(woken(p, source, epoch).wakeup_sources, source) == count_in(
            p.wakeup_sources,
            source,
        ).wrapping_add(1),
        woken(p, source, epoch).last_focus_at == p.last_focus_at,
        woken(p, source, epoch).last_freeze_at == p.last_freeze_at,
        woken(p, source, epoch).focus_since == p.focus_since,
{
    let n = count_in(p.wakeup_sources, source).wrapping_add(1);
    lemma_with_key(p.wakeup_sources, source, n, source);
}

proof fn lemma_freezes_push(t: Profiles, x: (Seq<char>, ProfileView))
    ensures
        freezes_of(t.push(x)) == freezes_of(t).wrapping_add(x.1.freeze_count),
{
    assert(t.push(x).drop_last() =~= t);
}

proof fn lemma_freezes_update(t: Profiles, i: int, x: (Seq<char>, ProfileView))
    requires
        0 <= i < t.len(),
    ensures
        freezes_of(t.update(i, x)).wrapping_add(t[i].1.freeze_count) == freezes_of(t).wrapping_add(
            x.1.freeze_count,
        ),
    decreases t.len(),
{
    let d = t.drop_last();
    if i == t.len() - 1 {
        assert(t.update(i, x).drop_last() =~= d);
    } else {
        lemma_freezes_update(d, i, x);
        assert(t.update(i, x).drop_last() =~= d.update(i, x));
    }
}

/// The number of all freezes grows by one with every freeze of any app, and with nothing else.
pub proof fn law_freezes_grow_by_freezes(t: Profiles, pkg: Seq<char>, r: Report)
    ensures
        r is Freeze ==> freezes_of(recorded(t, pkg, r)) == freezes_of(t).wrapping_add(1),
        !(r is Freeze) ==> freezes_of(recorded(t, pkg, r)) == freezes_of(t),
{
    let p = profile_of(t, pkg);
    let q = reported(p, r);
    lemma_key_index(t, pkg);
    if has_key(t, pkg) {
        lemma_freezes_update(t, key_index(t, pkg), (pkg, q));
    } else {
        lemma_freezes_push(t, (pkg, q));
    }
}

/// In the ranking an app that comes first has as many wakeups or more, and one with as many has
/// no larger name.
pub proof fn law_first_apps_wake_most(t: Profiles, i: int, j: int)
    requires
        0 <= i < j < t.len(),
    ensures
        ({
            let r = by_wakeups(t);
            &&& r.len() == t.len()
            &&& r[i].1.wakeup_count >= r[j].1.wakeup_count
            &&& r[i].1.wakeup_count == r[j].1.wakeup_count ==> !text_lt(r[j].0, r[i].0)
        }),
{
    law_ranking_by_wakeups(t);
    let r = by_wakeups(t);
    assert(!wakes_more(r[j], r[i]));
}

} // verus!
