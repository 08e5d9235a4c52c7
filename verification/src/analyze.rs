//! Advice drawn from the usage profiles. It is text for a person to act on: nothing here
//! changes a setting.

use vstd::prelude::*;
use crate::events::opt_view;
use crate::names::NameMap;
use crate::profile::{
    by_wakeups, first_of, waker_views, wakeups_of, AppProfile, ProfileTable, ProfileView,
};
use crate::text::{dec, push_dec, push_wide_dec, str_eq};

verus! {

/// A number that stands in the middle of a text.
#[derive(Clone, Copy, Debug, PartialEq, Eq, Structural)]
pub enum Quantity {
    /// No number: the text after it is empty.
    Absent,
    /// `count` in `seconds`, as a rate for one hour, with one decimal.
    PerHour { count: u64, seconds: u64 },
    /// Milliseconds, as seconds with one decimal.
    Seconds { millis: u64 },
}

/// A text that may have a fractional number in it.
#[derive(Debug)]
pub struct Detail {
    pub before: String,
    pub quantity: Quantity,
    pub after: String,
}

pub struct DetailView {
    pub before: Seq<char>,
    pub quantity: Quantity,
    pub after: Seq<char>,
}

impl View for Detail {
    type V = DetailView;

    open spec fn view(&self) -> DetailView {
        DetailView { before: self.before@, quantity: self.quantity, after: self.after@ }
    }
}

/// One piece of advice.
#[derive(Debug)]
pub struct Suggestion {
    /// `info` or `warn`.
    pub level: &'static str,
    pub kind: &'static str,
    /// The app it is about; none where it is about all of them.
    pub pkg: Option<String>,
    pub title: String,
    /// The facts behind it.
    pub detail: Detail,
    /// What a person may do.
    pub action_hint: String,
}

pub struct SuggestionView {
    pub level: Seq<char>,
    pub kind: Seq<char>,
    pub pkg: Option<Seq<char>>,
    pub title: Seq<char>,
    pub detail: DetailView,
    pub action_hint: Seq<char>,
}

impl View for Suggestion {
    type V = SuggestionView;

    open spec fn view(&self) -> SuggestionView {
        SuggestionView {
            level: self.level@,
            kind: self.kind@,
            pkg: opt_view(self.pkg),
            title: self.title@,
            detail: self.detail@,
            action_hint: self.action_hint@,
        }
    }
}

pub open spec fn suggestion_views(v: Seq<Suggestion>) -> Seq<SuggestionView> {
    Seq::new(v.len(), |i: int| v[i]@)
}

/// `part` as a percentage of `whole`, rounded to the nearest whole number, halves to the even
/// one.
pub open spec fn percent(part: nat, whole: nat) -> nat
    recommends
        whole > 0,
{
    let q = 100 * part / whole;
    let r = 100 * part % whole;
    if 2 * r > whole || (2 * r == whole && q % 2 == 1) {
        q + 1
    } else {
        q
    }
}

fn percentage(part: u64, whole: u64) -> (r: u128)
    requires
        whole > 0,
    ensures
        r == percent(part as nat, whole as nat),
{
    let n: u128 = 100 * (part as u128);
    let w: u128 = whole as u128;
    let q: u128 = n / w;
    let rest: u128 = n % w;
    assert(q <= n) by (nonlinear_arith)
        requires
            w > 0,
            q == n / w,
    ;
    if 2 * rest > w || (2 * rest == w && q % 2 == 1) {
        q + 1
    } else {
        q
    }
}

/// Whether there is enough to go by.
pub open spec fn enough_data(apps: nat, total: u64) -> bool {
    apps >= 3 && total >= 10
}

/// The source with the most wakeups, of those with at least two; the first one of several.
pub open spec fn main_source(s: Seq<(Seq<char>, u64)>) -> Option<(Seq<char>, u64)>
    decreases s.len(),
{
    if s.len() == 0 {
        None
    } else {
        let best = main_source(s.drop_last());
        if s.last().1 >= 2 && (best is None || s.last().1 > (best->0).1) {
            Some(s.last())
        } else {
            best
        }
    }
}

/// The source that counts most is one of the sources, and none counts more.
pub proof fn law_main_source(s: Seq<(Seq<char>, u64)>)
    ensures
        main_source(s) is Some <==> exists|i: int| 0 <= i < s.len() && (#[trigger] s[i]).1 >= 2,
        main_source(s) is Some ==> s.contains(main_source(s)->0),
        main_source(s) is Some ==> forall|i: int|
            0 <= i < s.len() ==> (#[trigger] s[i]).1 <= (main_source(s)->0).1,
    decreases s.len(),
{
    if s.len() > 0 {
        let d = s.drop_last();
        law_main_source(d);
        assert(s =~= d.push(s.last()));
        if exists|i: int| 0 <= i < d.len() && (#[trigger] d[i]).1 >= 2 {
            let i = choose|i: int| 0 <= i < d.len() && (#[trigger] d[i]).1 >= 2;
            assert(s[i].1 >= 2);
        }
        if exists|i: int| 0 <= i < s.len() && (#[trigger] s[i]).1 >= 2 {
            let i = choose|i: int| 0 <= i < s.len() && (#[trigger] s[i]).1 >= 2;
            if i < d.len() {
                assert(d[i].1 >= 2);
            }
        }
        assert forall|i: int| 0 <= i < s.len() && main_source(s) is Some implies (
        #[trigger] s[i]).1 <= (main_source(s)->0).1 by {
            if i < d.len() {
                assert(d[i] == s[i]);
            }
        }
    }
}

/// The source with the most wakeups and their number.
pub fn dominant_source(sources: &NameMap<u64>) -> (r: Option<(&str, u64)>)
    ensures
        match r {
            Some((k, n)) => main_source(sources@) == Some((k@, n)),
            None => main_source(sources@) is None,
        },
{
    let ghost all = sources@;
    let mut best: Option<(&str, u64)> = None;
    let mut i: usize = 0;
    while i < sources.len()
        invariant
            i <= all.len(),
            all == sources@,
            match best {
                Some((k, n)) => main_source(all.take(i as int)) == Some((k@, n)),
                None => main_source(all.take(i as int)) is None,
            },
        decreases all.len() - i,
    {
        assert(all.take(i + 1).drop_last() =~= all.take(i as int));
        let n: u64 = *sources.value_at(i);
        let more: bool = match best {
            Some((_, m)) => n > m,
            None => true,
        };
        if n >= 2 && more {
            best = Some((sources.key_at(i), n));
        }
        i = i + 1;
    }
    assert(all.take(all.len() as int) =~= all);
    best
}

/// Wakeups and the seconds in which they came; none where these are less than a minute.
pub open spec fn hourly_rate(p: ProfileView) -> Option<(u64, u64)> {
    if p.last_seen_at <= p.first_seen_at || p.last_seen_at - p.first_seen_at < 60 {
        None
    } else {
        Some((p.wakeup_count, (p.last_seen_at - p.first_seen_at) as u64))
    }
}

pub fn wakeup_rate_per_hour(p: &AppProfile) -> (r: Option<(u64, u64)>)
    ensures
        r == hourly_rate(p@),
{
    if p.last_seen_at <= p.first_seen_at || p.last_seen_at - p.first_seen_at < 60 {
        None
    } else {
        Some((p.wakeup_count, p.last_seen_at - p.first_seen_at))
    }
}

/// A package name with dashes for its dots.
pub open spec fn dashed(s: Seq<char>) -> Seq<char> {
    s.map_values(
        |c: char|
            if c == '.' {
                '-'
            } else {
                c
            },
    )
}

fn push_dashed(out: &mut String, s: &str)
    ensures
        final(out)@ == old(out)@ + dashed(s@),
{
    let v: Vec<char> = crate::text::chars_of(s);
    let ghost before = out@;
    let mut i: usize = 0;
    assert(before + dashed(s@).take(0) =~= before);
    while i < v.len()
        invariant
            i <= v.len(),
            v@ == s@,
            out@ == before + dashed(s@).take(i as int),
        decreases v.len() - i,
    {
        if v[i] == '.' {
            out.push('-');
        } else {
            out.push(v[i]);
        }
        assert(dashed(s@).take(i + 1) =~= dashed(s@).take(i as int).push(dashed(s@)[i as int]));
        i = i + 1;
    }
    assert(dashed(s@).take(v.len() as int) =~= dashed(s@));
}

/// What advice can be about, in the order in which it is given.
#[derive(Clone, Copy, Debug, PartialEq, Eq, Structural)]
pub enum Topic {
    /// An app with at least ten wakeups, or with more than half of all of them.
    Storm,
    /// An app of whose wakeups one source has more than seven in ten.
    Source,
    /// An app that is woken far more often than it is frozen.
    Jitter,
    /// An app that is in use a lot and was frozen all the same.
    Exempt,
    /// An app with more than a few wakeups that is no storm.
    Throttle,
}

/// At least ten wakeups, or more than half of all of them.
pub open spec fn is_storm(p: ProfileView, total: u64) -> bool {
    p.wakeup_count >= 10 || 2 * p.wakeup_count > total
}

pub open spec fn plain_detail(text: Seq<char>) -> DetailView {
    DetailView { before: text, quantity: Quantity::Absent, after: Seq::empty() }
}

pub open spec fn storm_detail(p: ProfileView, total: u64) -> DetailView {
    let facts = "占全部唤醒 "@ + dec(percent(p.wakeup_count as nat, total as nat)) + "%（"@ + dec(
        p.wakeup_count as nat,
    ) + " / "@ + dec(total as nat) + "）"@;
    match hourly_rate(p) {
        Some((count, seconds)) => DetailView {
            before: facts + "，约 "@,
            quantity: Quantity::PerHour { count, seconds },
            after: " 次/小时"@,
        },
        None => plain_detail(facts),
    }
}

pub open spec fn storm_advice(pkg: Seq<char>, p: ProfileView, total: u64) -> SuggestionView {
    SuggestionView {
        level: "warn"@,
        kind: "wakeup_storm"@,
        pkg: Some(pkg),
        title: pkg + " 疑似唤醒风暴（"@ + dec(p.wakeup_count as nat) + " 次）"@,
        detail: storm_detail(p, total),
        action_hint: "写 rules.toml 抑制唤醒（不重编译 dex）：\n[rules.\""@ + dashed(pkg)
            + "-storm\"]\napplies_to = [ \""@ + pkg
            + "\" ]\ncondition = \"wakeup\"\naction = \"suppress\"\nthrottle = 60"@,
    }
}

/// What to do about a source.
pub open spec fn source_hint(source: Seq<char>) -> Seq<char> {
    if source == "broadcast"@ {
        "若为骚扰广播：rules.toml 加 source=\"broadcast\" 的 suppress 规则，或 policy.toml 配 receiver_gate 白名单"@
    } else if source == "service"@ {
        "若为后台服务拉起：rules.toml 加 source=\"service\" 的 suppress 规则，或 policy.toml 配 service_gate"@
    } else if source == "pendingintent"@ {
        "若为闹钟/任务：评估保留（用户主动）或 rules.toml 加 source=\"pendingintent\" suppress"@
    } else {
        "观察该源的真实业务含义后再决定"@
    }
}

pub open spec fn source_advice(pkg: Seq<char>, p: ProfileView, source: Seq<char>, n: u64) -> SuggestionView {
    SuggestionView {
        level: "info"@,
        kind: "source_pattern"@,
        pkg: Some(pkg),
        title: pkg + " 唤醒以 "@ + source + " 为主（"@ + dec(
            percent(n as nat, p.wakeup_count as nat),
        ) + "%）"@,
        detail: plain_detail(
            source + " 源 "@ + dec(n as nat) + " 次 / 共 "@ + dec(p.wakeup_count as nat)
                + " 次；模式=广播风暴/服务拉起/任务闹钟"@,
        ),
        action_hint: source_hint(source),
    }
}

pub open spec fn jitter_advice(pkg: Seq<char>, p: ProfileView) -> SuggestionView {
    SuggestionView {
        level: "warn"@,
        kind: "jitter"@,
        pkg: Some(pkg),
        title: pkg + " 疑似冻结-唤醒抖动（冻 "@ + dec(p.freeze_count as nat) + " / 醒 "@ + dec(
            p.wakeup_count as nat,
        ) + "）"@,
        detail: plain_detail(
            "冻结 "@ + dec(p.freeze_count as nat) + " 次、唤醒 "@ + dec(p.wakeup_count as nat)
                + " 次（唤醒 ≥ 冻结×3）：反复冻结-解冻消耗资源，用户体验差"@,
        ),
        action_hint:
            "二选一：① 豁免（rules.toml action=\"exempt\"）；② 加大 grace（policy.toml [general] grace_seconds，当前观察模式可先不处理）"@,
    }
}

pub open spec fn exempt_advice(pkg: Seq<char>, p: ProfileView) -> SuggestionView {
    SuggestionView {
        level: "info"@,
        kind: "exempt"@,
        pkg: Some(pkg),
        title: pkg + " 频繁使用但曾被冻结（前台 "@ + dec(p.focus_count as nat) + " 次 / 冻结 "@
            + dec(p.freeze_count as nat) + " 次）"@,
        detail: DetailView {
            before: "前台 "@ + dec(p.focus_count as nat) + " 次（累计 "@,
            quantity: Quantity::Seconds { millis: p.focus_ms },
            after: "s）、冻结 "@ + dec(p.freeze_count as nat)
                + " 次：用户常用 app 被冻结有解冻卡顿风险"@,
        },
        action_hint: "rules.toml 豁免：\n[rules.\""@ + dashed(pkg)
            + "-keep\"]\naction = \"exempt\"\napplies_to = [ \""@ + pkg
            + "\" ]\npriority = 200"@,
    }
}

pub open spec fn throttle_advice(pkg: Seq<char>, p: ProfileView) -> SuggestionView {
    SuggestionView {
        level: "info"@,
        kind: "throttle"@,
        pkg: Some(pkg),
        title: pkg + " 唤醒偏多（"@ + dec(p.wakeup_count as nat) + " 次），可适度节流"@,
        detail: plain_detail(
            dec(p.wakeup_count as nat)
                + " 次唤醒未达风暴阈值，但高于均值；节流可降低后台唤醒频率"@,
        ),
        action_hint:
            "policy.toml [general] wake_throttle_seconds 调大（如 60→120），或 rules.toml 加 throttle=60 的 suppress 规则"@,
    }
}

/// The advice on one app, if any.
pub open spec fn advice(topic: Topic, x: (Seq<char>, ProfileView), total: u64) -> Option<
    SuggestionView,
> {
    let (pkg, p) = x;
    match topic {
        Topic::Storm => if is_storm(p, total) {
            Some(storm_advice(pkg, p, total))
        } else {
            None
        },
        Topic::Source => if p.wakeup_count < 5 {
            None
        } else {
            match main_source(p.wakeup_sources) {
                Some((source, n)) => if 10 * n > 7 * p.wakeup_count {
                    Some(source_advice(pkg, p, source, n))
                } else {
                    None
                },
                None => None,
            }
        },
        Topic::Jitter => if p.freeze_count >= 2 && p.wakeup_count >= 3 * p.freeze_count {
            Some(jitter_advice(pkg, p))
        } else {
            None
        },
        Topic::Exempt => if p.focus_count >= 3 && p.freeze_count > 0 {
            Some(exempt_advice(pkg, p))
        } else {
            None
        },
        Topic::Throttle => if 5 <= p.wakeup_count < 10 && !is_storm(p, total) {
            Some(throttle_advice(pkg, p))
        } else {
            None
        },
    }
}

/// The advice on one topic, in the order of the apps.
pub open spec fn advice_on(topic: Topic, apps: Seq<(Seq<char>, ProfileView)>, total: u64) -> Seq<
    SuggestionView,
>
    decreases apps.len(),
{
    if apps.len() == 0 {
        Seq::empty()
    } else {
        let before = advice_on(topic, apps.drop_last(), total);
        match advice(topic, apps.last(), total) {
            Some(s) => before.push(s),
            None => before,
        }
    }
}

/// What is said where there is too little to go by.
pub open spec fn need_data(apps: nat, total: u64) -> SuggestionView {
    SuggestionView {
        level: "info"@,
        kind: "data_insufficient"@,
        pkg: None,
        title: "画像数据不足，建议继续采集"@,
        detail: plain_detail(
            "当前 "@ + dec(apps) + " 个 app / "@ + dec(total as nat)
                + " 次唤醒；分析门槛 = ≥3 app 且 ≥10 次唤醒（避免小样本误判）"@,
        ),
        action_hint: "正常使用几天后重跑 sunctl analyze"@,
    }
}

/// All advice.
pub open spec fn all_advice(t: Seq<(Seq<char>, ProfileView)>) -> Seq<SuggestionView> {
    let total = wakeups_of(t);
    if !enough_data(t.len(), total) {
        seq![need_data(t.len(), total)]
    } else {
        let apps = by_wakeups(t);
        advice_on(Topic::Storm, apps, total) + advice_on(Topic::Source, apps, total) + advice_on(
            Topic::Jitter,
            apps,
            total,
        ) + advice_on(Topic::Exempt, apps, total) + advice_on(Topic::Throttle, apps, total)
    }
}

/// With too little to go by the only advice is to wait; with enough of it that is never said.
pub proof fn law_advice_needs_data(t: Seq<(Seq<char>, ProfileView)>)
    ensures
        !enough_data(t.len(), wakeups_of(t)) ==> all_advice(t).len() == 1 && all_advice(t)[0].kind
            == "data_insufficient"@ && all_advice(t)[0].pkg is None,
        enough_data(t.len(), wakeups_of(t)) ==> forall|i: int|
            0 <= i < all_advice(t).len() ==> (#[trigger] all_advice(t)[i]).pkg is Some,
{
    let total = wakeups_of(t);
    let apps = by_wakeups(t);
    lemma_advice_names_an_app(Topic::Storm, apps, total);
    lemma_advice_names_an_app(Topic::Source, apps, total);
    lemma_advice_names_an_app(Topic::Jitter, apps, total);
    lemma_advice_names_an_app(Topic::Exempt, apps, total);
    lemma_advice_names_an_app(Topic::Throttle, apps, total);
}

proof fn lemma_advice_names_an_app(topic: Topic, apps: Seq<(Seq<char>, ProfileView)>, total: u64)
    ensures
        forall|i: int|
            0 <= i < advice_on(topic, apps, total).len() ==> (#[trigger] advice_on(
                topic,
                apps,
                total,
            )[i]).pkg is Some,
    decreases apps.len(),
{
    if apps.len() > 0 {
        lemma_advice_names_an_app(topic, apps.drop_last(), total);
    }
}

/// An app that is reported as a storm gets no advice to throttle it besides.
pub proof fn law_storm_is_not_throttled(x: (Seq<char>, ProfileView), total: u64)
    ensures
        advice(Topic::Storm, x, total) is Some ==> advice(Topic::Throttle, x, total) is None,
{
}

fn plain(text: String) -> (r: Detail)
    ensures
        r@ == plain_detail(text@),
{
    let r = Detail { before: text, quantity: Quantity::Absent, after: String::new() };
    assert(r.after@ =~= Seq::<char>::empty());
    r
}

fn storm(pkg: &str, p: &AppProfile, total: u64) -> (r: Suggestion)
    requires
        total > 0,
    ensures
        r@ == storm_advice(pkg@, p@, total),
{
    let mut title: String = String::from_str(pkg);
    title.append(" 疑似唤醒风暴（");
    push_dec(&mut title, p.wakeup_count);
    title.append(" 次）");
    let mut facts: String = String::from_str("占全部唤醒 ");
    push_wide_dec(&mut facts, percentage(p.wakeup_count, total));
    facts.append("%（");
    push_dec(&mut facts, p.wakeup_count);
    facts.append(" / ");
    push_dec(&mut facts, total);
    facts.append("）");
    let detail: Detail = match wakeup_rate_per_hour(p) {
        Some((count, seconds)) => {
            facts.append("，约 ");
            Detail {
                before: facts,
                quantity: Quantity::PerHour { count, seconds },
                after: String::from_str(" 次/小时"),
            }
        },
        None => plain(facts),
    };
    let mut hint: String = String::from_str(
        "写 rules.toml 抑制唤醒（不重编译 dex）：\n[rules.\"",
    );
    push_dashed(&mut hint, pkg);
    hint.append("-storm\"]\napplies_to = [ \"");
    hint.append(pkg);
    hint.append("\" ]\ncondition = \"wakeup\"\naction = \"suppress\"\nthrottle = 60");
    Suggestion {
        level: "warn",
        kind: "wakeup_storm",
        pkg: Some(String::from_str(pkg)),
        title,
        detail,
        action_hint: hint,
    }
}

fn hint_for(source: &str) -> (r: &'static str)
    ensures
        r@ == source_hint(source@),
{
    if str_eq(source, "broadcast") {
        "若为骚扰广播：rules.toml 加 source=\"broadcast\" 的 suppress 规则，或 policy.toml 配 receiver_gate 白名单"
    } else if str_eq(source, "service") {
        "若为后台服务拉起：rules.toml 加 source=\"service\" 的 suppress 规则，或 policy.toml 配 service_gate"
    } else if str_eq(source, "pendingintent") {
        "若为闹钟/任务：评估保留（用户主动）或 rules.toml 加 source=\"pendingintent\" suppress"
    } else {
        "观察该源的真实业务含义后再决定"
    }
}

fn source_pattern(pkg: &str, p: &AppProfile, source: &str, n: u64) -> (r: Suggestion)
    requires
        p.wakeup_count > 0,
    ensures
        r@ == source_advice(pkg@, p@, source@, n),
{
    let mut title: String = String::from_str(pkg);
    title.append(" 唤醒以 ");
    title.append(source);
    title.append(" 为主（");
    push_wide_dec(&mut title, percentage(n, p.wakeup_count));
    title.append("%）");
    let mut facts: String = String::from_str(source);
    facts.append(" 源 ");
    push_dec(&mut facts, n);
    facts.append(" 次 / 共 ");
    push_dec(&mut facts, p.wakeup_count);
    facts.append(" 次；模式=广播风暴/服务拉起/任务闹钟");
    Suggestion {
        level: "info",
        kind: "source_pattern",
        pkg: Some(String::from_str(pkg)),
        title,
        detail: plain(facts),
        action_hint: String::from_str(hint_for(source)),
    }
}

fn jitter(pkg: &str, p: &AppProfile) -> (r: Suggestion)
    ensures
        r@ == jitter_advice(pkg@, p@),
{
    let mut title: String = String::from_str(pkg);
    title.append(" 疑似冻结-唤醒抖动（冻 ");
    push_dec(&mut title, p.freeze_count);
    title.append(" / 醒 ");
    push_dec(&mut title, p.wakeup_count);
    title.append("）");
    let mut facts: String = String::from_str("冻结 ");
    push_dec(&mut facts, p.freeze_count);
    facts.append(" 次、唤醒 ");
    push_dec(&mut facts, p.wakeup_count);
    facts.append(" 次（唤醒 ≥ 冻结×3）：反复冻结-解冻消耗资源，用户体验差");
    Suggestion {
        level: "warn",
        kind: "jitter",
        pkg: Some(String::from_str(pkg)),
        title,
        detail: plain(facts),
        action_hint: String::from_str(
            "二选一：① 豁免（rules.toml action=\"exempt\"）；② 加大 grace（policy.toml [general] grace_seconds，当前观察模式可先不处理）",
        ),
    }
}

fn exempt(pkg: &str, p: &AppProfile) -> (r: Suggestion)
    ensures
        r@ == exempt_advice(pkg@, p@),
{
    let mut title: String = String::from_str(pkg);
    title.append(" 频繁使用但曾被冻结（前台 ");
    push_dec(&mut title, p.focus_count);
    title.append(" 次 / 冻结 ");
    push_dec(&mut title, p.freeze_count);
    title.append(" 次）");
    let mut before: String = String::from_str("前台 ");
    push_dec(&mut before, p.focus_count);
    before.append(" 次（累计 ");
    let mut after: String = String::from_str("s）、冻结 ");
    push_dec(&mut after, p.freeze_count);
    after.append(" 次：用户常用 app 被冻结有解冻卡顿风险");
    let mut hint: String = String::from_str("rules.toml 豁免：\n[rules.\"");
    push_dashed(&mut hint, pkg);
    hint.append("-keep\"]\naction = \"exempt\"\napplies_to = [ \"");
    hint.append(pkg);
    hint.append("\" ]\npriority = 200");
    Suggestion {
        level: "info",
        kind: "exempt",
        pkg: Some(String::from_str(pkg)),
        title,
        detail: Detail { before, quantity: Quantity::Seconds { millis: p.focus_ms }, after },
        action_hint: hint,
    }
}

fn throttle(pkg: &str, p: &AppProfile) -> (r: Suggestion)
    ensures
        r@ == throttle_advice(pkg@, p@),
{
    let mut title: String = String::from_str(pkg);
    title.append(" 唤醒偏多（");
    push_dec(&mut title, p.wakeup_count);
    title.append(" 次），可适度节流");
    let mut facts: String = String::new();
    push_dec(&mut facts, p.wakeup_count);
    assert(facts@ =~= dec(p.wakeup_count as nat));
    facts.append(" 次唤醒未达风暴阈值，但高于均值；节流可降低后台唤醒频率");
    Suggestion {
        level: "info",
        kind: "throttle",
        pkg: Some(String::from_str(pkg)),
        title,
        detail: plain(facts),
        action_hint: String::from_str(
            "policy.toml [general] wake_throttle_seconds 调大（如 60→120），或 rules.toml 加 throttle=60 的 suppress 规则",
        ),
    }
}

fn advise(topic: Topic, pkg: &str, p: &AppProfile, total: u64) -> (r: Option<Suggestion>)
    requires
        total > 0,
    ensures
        match r {
            Some(s) => advice(topic, (pkg@, p@), total) == Some(s@),
            None => advice(topic, (pkg@, p@), total) is None,
        },
{
    let wakes: u128 = p.wakeup_count as u128;
    match topic {
        Topic::Storm => if wakes >= 10 || 2 * wakes > total as u128 {
            Some(storm(pkg, p, total))
        } else {
            None
        },
        Topic::Source => if wakes < 5 {
            None
        } else {
            match dominant_source(&p.wakeup_sources) {
                Some((source, n)) => if 10 * (n as u128) > 7 * wakes {
                    Some(source_pattern(pkg, p, source, n))
                } else {
                    None
                },
                None => None,
            }
        },
        Topic::Jitter => if p.freeze_count >= 2 && wakes >= 3 * (p.freeze_count as u128) {
            Some(jitter(pkg, p))
        } else {
            None
        },
        Topic::Exempt => if p.focus_count >= 3 && p.freeze_count > 0 {
            Some(exempt(pkg, p))
        } else {
            None
        },
        Topic::Throttle => if wakes >= 5 && wakes < 10 && 2 * wakes <= total as u128 {
            Some(throttle(pkg, p))
        } else {
            None
        },
    }
}

fn append_advice(out: &mut Vec<Suggestion>, topic: Topic, apps: &Vec<(String, &AppProfile)>, total: u64)
    requires
        total > 0,
    ensures
        suggestion_views(final(out)@) == suggestion_views(old(out)@) + advice_on(
            topic,
            waker_views(apps@),
            total,
        ),
{
    let ghost all = waker_views(apps@);
    let ghost before = suggestion_views(out@);
    let mut i: usize = 0;
    assert(before + advice_on(topic, all.take(0), total) =~= before);
    while i < apps.len()
        invariant
            i <= apps.len(),
            all == waker_views(apps@),
            total > 0,
            suggestion_views(out@) == before + advice_on(topic, all.take(i as int), total),
        decreases apps.len() - i,
    {
        assert(all.take(i + 1).drop_last() =~= all.take(i as int));
        let ghost so_far = suggestion_views(out@);
        if let Some(s) = advise(topic, apps[i].0.as_str(), apps[i].1, total) {
            let ghost x = s@;
            out.push(s);
            assert(suggestion_views(out@) =~= so_far.push(x));
        }
        i = i + 1;
    }
    assert(all.take(all.len() as int) =~= all);
}

/// Draws advice from the profiles.
pub fn analyze(profile: &ProfileTable) -> (r: Vec<Suggestion>)
    ensures
        suggestion_views(r@) == all_advice(profile@),
{
    let apps: usize = profile.app_count();
    let total: u64 = profile.total_wakeups();
    let mut out: Vec<Suggestion> = Vec::new();
    if apps < 3 || total < 10 {
        let mut facts: String = String::from_str("当前 ");
        push_dec(&mut facts, apps as u64);
        facts.append(" 个 app / ");
        push_dec(&mut facts, total);
        facts.append(" 次唤醒；分析门槛 = ≥3 app 且 ≥10 次唤醒（避免小样本误判）");
        out.push(
            Suggestion {
                level: "info",
                kind: "data_insufficient",
                pkg: None,
                title: String::from_str("画像数据不足，建议继续采集"),
                detail: plain(facts),
                action_hint: String::from_str("正常使用几天后重跑 sunctl analyze"),
            },
        );
        assert(suggestion_views(out@) =~= all_advice(profile@));
        return out;
    }
    let ranked: Vec<(String, &AppProfile)> = profile.top_wakeups(apps);
    proof {
        crate::profile::law_ranking_by_wakeups(profile@);
        assert(first_of(by_wakeups(profile@), apps as int) == by_wakeups(profile@));
        assert(suggestion_views(out@) + advice_on(Topic::Storm, by_wakeups(profile@), total)
            =~= advice_on(Topic::Storm, by_wakeups(profile@), total));
    }
    append_advice(&mut out, Topic::Storm, &ranked, total);
    append_advice(&mut out, Topic::Source, &ranked, total);
    append_advice(&mut out, Topic::Jitter, &ranked, total);
    append_advice(&mut out, Topic::Exempt, &ranked, total);
    append_advice(&mut out, Topic::Throttle, &ranked, total);
    out
}

} // verus!
