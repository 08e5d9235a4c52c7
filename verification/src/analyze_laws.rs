//! When advice is given, and to whom.

use vstd::prelude::*;
use crate::analyze::{
    advice, advice_on, all_advice, exempt_advice, hourly_rate, jitter_advice, main_source, percent,
    source_advice, storm_advice, storm_detail, throttle_advice, Quantity, SuggestionView, Topic,
};
use crate::profile::{by_wakeups, law_ranking_by_wakeups, wakeups_of, ProfileView};
use crate::report_laws::stands_at;
use crate::text::dec;

verus! {

/// A share in percent is the nearest whole number.
pub proof fn law_percent_is_nearest(part: nat, whole: nat)
    requires
        whole > 0,
    ensures
        2 * (100 * part - percent(part, whole) * whole) <= whole,
        2 * (percent(part, whole) * whole - 100 * part) <= whole,
{
    let n = 100 * part;
    let q = n / whole;
    let r = n % whole;
    assert(n == q * whole + r && 0 <= r < whole) by (nonlinear_arith)
        requires
            whole > 0,
            q == n / whole,
            r == n % whole,
    ;
    assert((q + 1) * whole == q * whole + whole) by (nonlinear_arith);
}

/// When advice is given about an app: of a storm from ten wakeups on, or where it has more than
/// half of all; of a source where it has five or more, of which more than seven in ten come
/// from one; of jitter where it was frozen twice or more and woken at least three times as
/// often; of an exemption where it was three times or more in the foreground and frozen all the
/// same; of a throttle from five to nine wakeups that are no storm.
pub proof fn law_when_advice_is_given(pkg: Seq<char>, p: ProfileView, total: u64)
    ensures
        ({
            let storm = p.wakeup_count >= 10 || p.wakeup_count + p.wakeup_count > total;
            let x = (pkg, p);
            &&& advice(Topic::Storm, x, total) is Some <==> storm
            &&& advice(Topic::Source, x, total) is Some <==> p.wakeup_count >= 5 && (main_source(
                p.wakeup_sources,
            ) matches Some(m) && m.1 * 10 > p.wakeup_count * 7)
            &&& advice(Topic::Jitter, x, total) is Some <==> p.freeze_count >= 2 && p.wakeup_count
                >= p.freeze_count * 3
            &&& advice(Topic::Exempt, x, total) is Some <==> p.focus_count >= 3 && p.freeze_count
                >= 1
            &&& advice(Topic::Throttle, x, total) is Some <==> p.wakeup_count >= 5 && !storm
        }),
{
}

/// Advice names the app, what it is about, and how much it matters.
pub proof fn law_what_advice_is_about(pkg: Seq<char>, p: ProfileView, total: u64, topic: Topic)
    ensures
        advice(topic, (pkg, p), total) matches Some(s) ==> {
            &&& s.pkg == Some(pkg)
            &&& topic == Topic::Storm ==> s.kind == "wakeup_storm"@ && s.level == "warn"@
            &&& topic == Topic::Source ==> s.kind == "source_pattern"@ && s.level == "info"@
            &&& topic == Topic::Jitter ==> s.kind == "jitter"@ && s.level == "warn"@
            &&& topic == Topic::Exempt ==> s.kind == "exempt"@ && s.level == "info"@
            &&& topic == Topic::Throttle ==> s.kind == "throttle"@ && s.level == "info"@
        },
{
}

/// The rate per hour rests on the time between the first and the last sight of the app, where
/// that is a minute or more.
pub proof fn law_rate_needs_a_minute(p: ProfileView)
    ensures
        p.last_seen_at >= p.first_seen_at + 60 ==> hourly_rate(p) == Some(
            (p.wakeup_count, (p.last_seen_at - p.first_seen_at) as u64),
        ),
        p.last_seen_at < p.first_seen_at + 60 ==> hourly_rate(p) is None,
{
}

proof fn lemma_advice_on(topic: Topic, apps: Seq<(Seq<char>, ProfileView)>, total: u64, i: int)
    requires
        0 <= i < apps.len(),
        advice(topic, apps[i], total) is Some,
    ensures
        advice_on(topic, apps, total).contains(advice(topic, apps[i], total)->0),
    decreases apps.len(),
{
    let w = advice_on(topic, apps, total);
    let d = apps.drop_last();
    if i < d.len() {
        lemma_advice_on(topic, d, total, i);
        let k = advice_on(topic, d, total);
        let j = choose|j: int| 0 <= j < k.len() && k[j] == advice(topic, apps[i], total)->0;
        assert(w[j] == k[j]);
    } else {
        assert(w[w.len() - 1] == advice(topic, apps[i], total)->0);
    }
}

proof fn lemma_advice_from(
    topic: Topic,
    apps: Seq<(Seq<char>, ProfileView)>,
    total: u64,
    s: SuggestionView,
) -> (i: int)
    requires
        advice_on(topic, apps, total).contains(s),
    ensures
        0 <= i < apps.len(),
        advice(topic, apps[i], total) == Some(s),
    decreases apps.len(),
{
    let w = advice_on(topic, apps, total);
    let d = apps.drop_last();
    let k = advice_on(topic, d, total);
    let j = choose|j: int| 0 <= j < w.len() && w[j] == s;
    if j < k.len() {
        assert(k[j] == s);
        lemma_advice_from(topic, d, total, s)
    } else {
        apps.len() - 1
    }
}

proof fn lemma_ranked(t: Seq<(Seq<char>, ProfileView)>, x: (Seq<char>, ProfileView))
    ensures
        by_wakeups(t).contains(x) <==> t.contains(x),
{
    broadcast use vstd::seq_lib::group_to_multiset_ensures;

    law_ranking_by_wakeups(t);
    assert(by_wakeups(t).to_multiset().contains(x) == t.to_multiset().contains(x));
}

/// Where there is enough to go by, from three apps and ten wakeups on, every app gets the advice
/// that it is due on every topic.
pub proof fn law_every_app_gets_its_advice(t: Seq<(Seq<char>, ProfileView)>, topic: Topic, i: int)
    requires
        t.len() >= 3,
        wakeups_of(t) >= 10,
        0 <= i < t.len(),
        advice(topic, t[i], wakeups_of(t)) is Some,
    ensures
        all_advice(t).contains(advice(topic, t[i], wakeups_of(t))->0),
{
    let total = wakeups_of(t);
    let apps = by_wakeups(t);
    assert(t.contains(t[i]));
    lemma_ranked(t, t[i]);
    let n = choose|n: int| 0 <= n < apps.len() && apps[n] == t[i];
    lemma_advice_on(topic, apps, total, n);
    let s = advice(topic, t[i], total)->0;
    let a = advice_on(Topic::Storm, apps, total);
    let b = advice_on(Topic::Source, apps, total);
    let c = advice_on(Topic::Jitter, apps, total);
    let d = advice_on(Topic::Exempt, apps, total);
    let e = advice_on(Topic::Throttle, apps, total);
    let w = all_advice(t);
    let k = advice_on(topic, apps, total);
    let j = choose|j: int| 0 <= j < k.len() && k[j] == s;
    match topic {
        Topic::Storm => {
            assert(w[j] == s);
        },
        Topic::Source => {
            assert(w[a.len() + j] == s);
        },
        Topic::Jitter => {
            assert(w[a.len() + b.len() + j] == s);
        },
        Topic::Exempt => {
            assert(w[a.len() + b.len() + c.len() + j] == s);
        },
        Topic::Throttle => {
            assert(w[a.len() + b.len() + c.len() + d.len() + j] == s);
        },
    }
}

/// No advice is given that is not due to some app.
pub proof fn law_no_advice_without_an_app(t: Seq<(Seq<char>, ProfileView)>, s: SuggestionView) -> (r: (
    Topic,
    int,
))
    requires
        t.len() >= 3,
        wakeups_of(t) >= 10,
        all_advice(t).contains(s),
    ensures
        0 <= r.1 < t.len(),
        advice(r.0, t[r.1], wakeups_of(t)) == Some(s),
{
    let total = wakeups_of(t);
    let apps = by_wakeups(t);
    let a = advice_on(Topic::Storm, apps, total);
    let b = advice_on(Topic::Source, apps, total);
    let c = advice_on(Topic::Jitter, apps, total);
    let d = advice_on(Topic::Exempt, apps, total);
    let e = advice_on(Topic::Throttle, apps, total);
    let w = all_advice(t);
    let j = choose|j: int| 0 <= j < w.len() && w[j] == s;
    let topic = if j < a.len() {
        assert(a[j] == s);
        Topic::Storm
    } else if j < a.len() + b.len() {
        assert(b[j - a.len()] == s);
        Topic::Source
    } else if j < a.len() + b.len() + c.len() {
        assert(c[j - a.len() - b.len()] == s);
        Topic::Jitter
    } else if j < a.len() + b.len() + c.len() + d.len() {
        assert(d[j - a.len() - b.len() - c.len()] == s);
        Topic::Exempt
    } else {
        assert(e[j - a.len() - b.len() - c.len() - d.len()] == s);
        Topic::Throttle
    };
    let n = lemma_advice_from(topic, apps, total, s);
    assert(apps.contains(apps[n]));
    lemma_ranked(t, apps[n]);
    let i = choose|i: int| 0 <= i < t.len() && t[i] == apps[n];
    (topic, i)
}

// ---- What advice says ----

/// Whether a text has the key and behind it the value.
pub open spec fn mentions(text: Seq<char>, key: Seq<char>, value: Seq<char>) -> bool {
    exists|a: Seq<char>, b: Seq<char>| #[trigger] stands_at(text, a, key, value, b)
}

broadcast proof fn mentioned_here(a: Seq<char>, key: Seq<char>, value: Seq<char>, b: Seq<char>)
    ensures
        #[trigger] mentions(a + key + value + b, key, value),
{
    assert(stands_at(a + key + value + b, a, key, value, b));
}

broadcast proof fn mentioned_first(key: Seq<char>, value: Seq<char>, b: Seq<char>)
    ensures
        #[trigger] mentions(key + value + b, key, value),
{
    let a = Seq::<char>::empty();
    assert(a + key + value + b =~= key + value + b);
    assert(stands_at(key + value + b, a, key, value, b));
}

broadcast proof fn mentioned_before(x: Seq<char>, y: Seq<char>, key: Seq<char>, value: Seq<char>)
    requires
        mentions(x, key, value),
    ensures
        #[trigger] mentions(x + y, key, value),
{
    let (a, b) = choose|a: Seq<char>, b: Seq<char>| #[trigger] stands_at(x, a, key, value, b);
    assert(a + key + value + (b + y) =~= x + y);
    assert(stands_at(x + y, a, key, value, b + y));
}

/// Advice tells the numbers that it rests on: a storm the wakeups of the app and of all, a source
/// its own and those of the app, jitter the freezes and the wakeups, an exemption the stays and
/// the freezes, a throttle the wakeups.
#[verifier::rlimit(30)]
#[verifier::spinoff_prover]
pub proof fn law_numbers_of_advice(pkg: Seq<char>, p: ProfileView, total: u64, source: Seq<char>, n: u64)
    ensures
        mentions(
            storm_advice(pkg, p, total).title,
            " 疑似唤醒风暴（"@,
            dec(p.wakeup_count as nat),
        ),
        storm_advice(pkg, p, total).detail.quantity == (match hourly_rate(p) {
            Some((count, seconds)) => Quantity::PerHour { count, seconds },
            None => Quantity::Absent,
        }),
        mentions(storm_detail(p, total).before, "%（"@, dec(p.wakeup_count as nat)),
        mentions(storm_detail(p, total).before, " / "@, dec(total as nat)),
        mentions(
            source_advice(pkg, p, source, n).title,
            " 为主（"@,
            dec(percent(n as nat, p.wakeup_count as nat)),
        ),
        mentions(source_advice(pkg, p, source, n).title, " 唤醒以 "@, source),
        mentions(source_advice(pkg, p, source, n).detail.before, " 源 "@, dec(n as nat)),
        mentions(
            source_advice(pkg, p, source, n).detail.before,
            " 次 / 共 "@,
            dec(p.wakeup_count as nat),
        ),
        mentions(
            jitter_advice(pkg, p).title,
            " 疑似冻结-唤醒抖动（冻 "@,
            dec(p.freeze_count as nat),
        ),
        mentions(jitter_advice(pkg, p).title, " / 醒 "@, dec(p.wakeup_count as nat)),
        mentions(jitter_advice(pkg, p).detail.before, "冻结 "@, dec(p.freeze_count as nat)),
        mentions(jitter_advice(pkg, p).detail.before, " 次、唤醒 "@, dec(p.wakeup_count as nat)),
        mentions(
            exempt_advice(pkg, p).title,
            " 频繁使用但曾被冻结（前台 "@,
            dec(p.focus_count as nat),
        ),
        mentions(exempt_advice(pkg, p).title, " 次 / 冻结 "@, dec(p.freeze_count as nat)),
        mentions(exempt_advice(pkg, p).detail.before, "前台 "@, dec(p.focus_count as nat)),
        exempt_advice(pkg, p).detail.quantity == (Quantity::Seconds { millis: p.focus_ms }),
        mentions(exempt_advice(pkg, p).detail.after, "s）、冻结 "@, dec(p.freeze_count as nat)),
        mentions(throttle_advice(pkg, p).title, " 唤醒偏多（"@, dec(p.wakeup_count as nat)),
{
    broadcast use {mentioned_here, mentioned_first, mentioned_before};

}

} // verus!
