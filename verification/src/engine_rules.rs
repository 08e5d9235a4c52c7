//! The rules of the engine: who is protected, who is due, and what the settings of an app
//! come to.

use vstd::prelude::*;
use crate::engine_ops::{Env, EnvView};
use crate::engine_state::{EngineState, EngineView};
use crate::freezer::{first_arg, is_vpn_owner, pkg_uid, status_real_uid};
use crate::lists::{slice_texts, texts};
use crate::names::{keys_of, value_of, with_name, NameSet};
use crate::network::{elapsed, time_since};
use crate::order::{insert_number, lemma_sorted_distinct, sort_texts, sorted_set, sorted_texts};
use crate::policy::{critical, in_window, within, AppMode, AppPolicy, PushMode};
use crate::rules::{peeked, HitView, RuleAction, RuleCondition};
use crate::text::{
    chars_of, lines, parse_unsigned, rfind, same, starts_with, str_eq, string_of, strip_prefix, tail, trim,
};

verus! {

broadcast use crate::lists::group_texts;

/// Nanoseconds per second.
pub const NANOS: u64 = 1_000_000_000;

/// Whether `secs` seconds have passed since `at`.
pub open spec fn has_passed(now: u64, at: u64, secs: u64) -> bool {
    elapsed(now, at) >= secs * NANOS
}

pub fn passed(now: u64, at: u64, secs: u64) -> (r: bool)
    ensures
        r == has_passed(now, at, secs),
{
    time_since(now, at) as u128 >= secs as u128 * 1_000_000_000u128
}

/// The time `secs` seconds after `now`.
pub open spec fn time_after(now: u64, secs: u64) -> u128 {
    (now + secs * NANOS) as u128
}

pub fn after(now: u64, secs: u64) -> (r: u128)
    ensures
        r == time_after(now, secs),
        r >= now,
{
    now as u128 + secs as u128 * 1_000_000_000u128
}

// ---- What the settings of an app come to ----

/// A setting of an app, or the global one where it has none.
pub open spec fn setting(own: Option<bool>, global: bool) -> bool {
    match own {
        Some(b) => b,
        None => global,
    }
}

fn effective(own: Option<bool>, global: bool) -> (r: bool)
    ensures
        r == setting(own, global),
{
    match own {
        Some(b) => b,
        None => global,
    }
}

pub open spec fn app_of(s: EngineView, pkg: Seq<char>) -> Option<AppPolicy> {
    value_of(s.policy.apps, pkg)
}

pub open spec fn keeps_fg(s: EngineView, pkg: Seq<char>) -> bool {
    match app_of(s, pkg) {
        Some(a) => setting(a.keep_fg_service, s.policy.keep_fg_service),
        None => s.policy.keep_fg_service,
    }
}

pub open spec fn keeps_media(s: EngineView, pkg: Seq<char>) -> bool {
    match app_of(s, pkg) {
        Some(a) => setting(a.keep_media, s.policy.keep_media),
        None => s.policy.keep_media,
    }
}

pub open spec fn keeps_location(s: EngineView, pkg: Seq<char>) -> bool {
    match app_of(s, pkg) {
        Some(a) => setting(a.keep_location, s.policy.keep_location),
        None => s.policy.keep_location,
    }
}

pub open spec fn keeps_high_network(s: EngineView, pkg: Seq<char>) -> bool {
    match app_of(s, pkg) {
        Some(a) => setting(a.keep_high_network, s.policy.keep_high_network),
        None => s.policy.keep_high_network,
    }
}

pub open spec fn keeps_network(s: EngineView, pkg: Seq<char>) -> bool {
    match app_of(s, pkg) {
        Some(a) => setting(a.keep_network, s.policy.keep_network),
        None => s.policy.keep_network,
    }
}

/// Whether a wakeup thaws the app; an important app is always thawed.
pub open spec fn keeps_wakeup(s: EngineView, pkg: Seq<char>) -> bool {
    match app_of(s, pkg) {
        Some(a) => a.mode == AppMode::Important || setting(a.keep_wakeup, true),
        None => true,
    }
}

pub open spec fn mode(s: EngineView, pkg: Seq<char>) -> AppMode {
    match app_of(s, pkg) {
        Some(a) => a.mode,
        None => AppMode::Standard,
    }
}

pub open spec fn push_of(s: EngineView, pkg: Seq<char>) -> PushMode {
    match app_of(s, pkg) {
        Some(a) => match a.push_mode {
            Some(m) => m,
            None => s.policy.push_policy,
        },
        None => s.policy.push_policy,
    }
}

/// The delay of the app in seconds.
pub open spec fn grace_seconds(s: EngineView, pkg: Seq<char>) -> u64 {
    match app_of(s, pkg) {
        Some(a) => a.grace(s.policy.grace_seconds),
        None => s.policy.grace_seconds,
    }
}

/// Whether the app is in its daily window; it is not where the time of day is unknown.
pub open spec fn in_daily_window(s: EngineView, e: EnvView, pkg: Seq<char>) -> bool {
    match app_of(s, pkg) {
        Some(a) => match e.minute {
            Some(m) => within(m, a.unfreeze_window),
            None => false,
        },
        None => false,
    }
}

/// Whether the app was last reported to be doing something that exempts it.
pub open spec fn is_busy(s: EngineView, pkg: Seq<char>) -> bool {
    match value_of(s.exempt, pkg) {
        Some(f) => (keeps_fg(s, pkg) && f.fg_service) || (keeps_media(s, pkg) && f.media) || (
        keeps_location(s, pkg) && f.location),
        None => false,
    }
}

// ---- Who is protected ----

/// The uid of a package by the package table.
pub open spec fn uid_of(e: EnvView, pkg: Seq<char>) -> Option<u32> {
    value_of(e.table, pkg)
}

/// A package of the VPN: listed, or the owner of the tunnel. Freezing it would cut off
/// every app.
pub open spec fn vpn_protected(s: EngineView, e: EnvView, pkg: Seq<char>) -> bool {
    s.policy.keep_vpn && (s.policy.vpn_packages.contains(pkg) || match uid_of(e, pkg) {
        Some(u) => e.vpn_uid == Some(u),
        None => false,
    })
}

/// A package that no freeze may touch, whatever the state of the app: built-in critical, of
/// the system, or of the VPN.
pub open spec fn untouchable(s: EngineView, e: EnvView, pkg: Seq<char>) -> bool {
    critical(pkg) || s.system_apps.contains(pkg) || vpn_protected(s, e, pkg)
}

/// A package that the policy itself spares: on the white list, or exempt by its own settings.
pub open spec fn listed(s: EngineView, pkg: Seq<char>) -> bool {
    s.policy.whitelist.contains(pkg) || mode(s, pkg) == AppMode::Exempt
}

/// The rule that applies when a package leaves the foreground.
pub open spec fn leave_rule(s: EngineView, e: EnvView, pkg: Seq<char>) -> Option<HitView> {
    peeked(s.rules, pkg, RuleCondition::Leave, None, e.now, e.today)
}

/// The rule that applies when a package is woken.
pub open spec fn wakeup_rule(
    s: EngineView,
    e: EnvView,
    pkg: Seq<char>,
    source: Seq<char>,
) -> Option<HitView> {
    peeked(s.rules, pkg, RuleCondition::Wakeup, Some(source), e.now, e.today)
}

/// The rule that applies to a package at any time.
pub open spec fn standing_rule(s: EngineView, e: EnvView, pkg: Seq<char>) -> Option<HitView> {
    peeked(s.rules, pkg, RuleCondition::Always, None, e.now, e.today)
}

/// Whether what applies is of a kind.
pub open spec fn acts_as(h: Option<HitView>, action: RuleAction) -> bool {
    match h {
        Some(h) => h.action == action,
        None => false,
    }
}

/// Whether a rule keeps the package from being frozen.
pub open spec fn rule_exempts(s: EngineView, e: EnvView, pkg: Seq<char>) -> bool {
    acts_as(leave_rule(s, e, pkg), RuleAction::Exempt)
}

/// After how many seconds frozen a rule wants the package discarded: as the rule says, or else
/// as the policy does; never where neither does.
pub open spec fn rule_limit(s: EngineView, e: EnvView, pkg: Seq<char>) -> Option<u64> {
    match standing_rule(s, e, pkg) {
        Some(h) => if h.action != RuleAction::Discard {
            None
        } else if h.after_seconds is Some {
            h.after_seconds
        } else if s.policy.discard_frozen_timeout_seconds > 0 {
            Some(s.policy.discard_frozen_timeout_seconds)
        } else {
            None
        },
        None => None,
    }
}

/// Whether a package that was frozen at `since` is to be discarded by a rule.
pub open spec fn rule_is_due(s: EngineView, e: EnvView, pkg: Seq<char>, since: u64) -> bool {
    match rule_limit(s, e, pkg) {
        Some(secs) => has_passed(e.now, since, secs),
        None => false,
    }
}

/// The packages of the table that a rule wants discarded.
pub open spec fn ruled_names(s: EngineView, e: EnvView, m: Seq<(Seq<char>, u64)>) -> Seq<Seq<char>>
    decreases m.len(),
{
    if m.len() == 0 {
        Seq::empty()
    } else if rule_is_due(s, e, m.last().0, m.last().1) {
        ruled_names(s, e, m.drop_last()).push(m.last().0)
    } else {
        ruled_names(s, e, m.drop_last())
    }
}

/// A package that the policy never freezes.
pub open spec fn never_frozen(s: EngineView, e: EnvView, pkg: Seq<char>) -> bool {
    untouchable(s, e, pkg) || listed(s, pkg) || rule_exempts(s, e, pkg)
}

/// A package that is never discarded.
pub open spec fn never_discarded(s: EngineView, e: EnvView, pkg: Seq<char>) -> bool {
    ||| never_frozen(s, e, pkg)
    ||| mode(s, pkg) == AppMode::Important
    ||| s.last_focus == Some(pkg)
    ||| is_busy(s, pkg)
}

/// The uid of a package: as reported with a process, or else by the package table.
pub open spec fn known_uid(s: EngineView, e: EnvView, pkg: Seq<char>) -> Option<u32> {
    match value_of(s.pkg_uids, pkg) {
        Some(u) => Some(u),
        None => uid_of(e, pkg),
    }
}

/// The uids of the packages, in order, as far as they are known.
pub open spec fn known_uids(s: EngineView, e: EnvView, names: Seq<Seq<char>>) -> Seq<u32>
    decreases names.len(),
{
    if names.len() == 0 {
        Seq::empty()
    } else {
        match known_uid(s, e, names.last()) {
            Some(u) => known_uids(s, e, names.drop_last()).push(u),
            None => known_uids(s, e, names.drop_last()),
        }
    }
}

/// The packages that the engine holds frozen, delays or protects.
pub open spec fn managed_names(s: EngineView) -> Seq<Seq<char>> {
    keys_of(s.frozen) + keys_of(s.grace) + s.adj_keep
}

/// The packages with their uids, as far as they are known.
pub open spec fn known_pairs(s: EngineView, e: EnvView, names: Seq<Seq<char>>) -> Seq<
    (Seq<char>, u32),
>
    decreases names.len(),
{
    if names.len() == 0 {
        Seq::empty()
    } else {
        match known_uid(s, e, names.last()) {
            Some(u) => known_pairs(s, e, names.drop_last()).push((names.last(), u)),
            None => known_pairs(s, e, names.drop_last()),
        }
    }
}

/// The frozen packages with their uids, by name.
pub open spec fn frozen_snapshot(s: EngineView, e: EnvView) -> Seq<(Seq<char>, u32)> {
    known_pairs(s, e, sorted_texts(keys_of(s.frozen)))
}

// ---- Who is due ----

/// The packages whose delay is over.
pub open spec fn due_names(m: Seq<(Seq<char>, (u64, u64))>, now: u64) -> Seq<Seq<char>>
    decreases m.len(),
{
    if m.len() == 0 {
        Seq::empty()
    } else {
        let (start, secs) = m.last().1;
        if has_passed(now, start, secs) {
            due_names(m.drop_last(), now).push(m.last().0)
        } else {
            due_names(m.drop_last(), now)
        }
    }
}

/// The packages that were frozen at least `secs` seconds ago.
pub open spec fn stale_names(m: Seq<(Seq<char>, u64)>, now: u64, secs: u64) -> Seq<Seq<char>>
    decreases m.len(),
{
    if m.len() == 0 {
        Seq::empty()
    } else if has_passed(now, m.last().1, secs) {
        stale_names(m.drop_last(), now, secs).push(m.last().0)
    } else {
        stale_names(m.drop_last(), now, secs)
    }
}

/// The packages that have been frozen for too long; none where that is turned off.
pub open spec fn expired_names(s: EngineView, now: u64) -> Seq<Seq<char>> {
    if s.policy.discard_frozen_timeout_seconds == 0 {
        Seq::empty()
    } else {
        stale_names(s.frozen, now, s.policy.discard_frozen_timeout_seconds)
    }
}

/// A frozen package, when it was frozen, and the memory that it holds.
pub struct Ranked {
    pub pkg: Seq<char>,
    pub since: u64,
    pub rss: u64,
}

/// Whether `a` is discarded before `b`: it was frozen earlier, or at the same time and holds
/// more memory.
pub open spec fn goes_first(a: Ranked, b: Ranked) -> bool {
    a.since < b.since || (a.since == b.since && a.rss > b.rss)
}

pub open spec fn with_ranked(s: Seq<Ranked>, x: Ranked) -> Seq<Ranked>
    decreases s.len(),
{
    if s.len() > 0 && goes_first(x, s.last()) {
        with_ranked(s.drop_last(), x).push(s.last())
    } else {
        s.push(x)
    }
}

pub open spec fn rss_at(rss: Seq<u64>, i: int) -> u64 {
    if 0 <= i < rss.len() {
        rss[i]
    } else {
        0
    }
}

/// The first `n` frozen packages in the order in which they are discarded.
pub open spec fn ranking(m: Seq<(Seq<char>, u64)>, rss: Seq<u64>, n: int) -> Seq<Ranked>
    decreases n,
{
    if n <= 0 {
        Seq::empty()
    } else {
        with_ranked(
            ranking(m, rss, n - 1),
            Ranked { pkg: m[n - 1].0, since: m[n - 1].1, rss: rss_at(rss, n - 1) },
        )
    }
}

pub open spec fn ranked_names(s: Seq<Ranked>) -> Seq<Seq<char>> {
    Seq::new(s.len(), |i: int| s[i].pkg)
}

/// The frozen packages in the order in which they are discarded for want of memory.
pub open spec fn discard_order(m: Seq<(Seq<char>, u64)>, rss: Seq<u64>) -> Seq<Seq<char>> {
    ranked_names(ranking(m, rss, m.len() as int))
}

proof fn lemma_with_ranked(s: Seq<Ranked>, x: Ranked)
    requires
        forall|i: int, j: int| 0 <= i < j < s.len() ==> !goes_first(s[j], s[i]),
    ensures
        forall|i: int, j: int|
            0 <= i < j < with_ranked(s, x).len() ==> !goes_first(
                with_ranked(s, x)[j],
                with_ranked(s, x)[i],
            ),
        with_ranked(s, x).len() == s.len() + 1,
        forall|y: Ranked|
            #[trigger] with_ranked(s, x).contains(y) <==> (y == x || s.contains(y)),
    decreases s.len(),
{
    let r = with_ranked(s, x);
    if s.len() > 0 && goes_first(x, s.last()) {
        let d = s.drop_last();
        assert forall|i: int, j: int| 0 <= i < j < d.len() implies !goes_first(d[j], d[i]) by {
            assert(!goes_first(s[j], s[i]));
        }
        lemma_with_ranked(d, x);
        let w = with_ranked(d, x);
        assert forall|y: Ranked| #[trigger] r.contains(y) <==> (y == x || s.contains(y)) by {
            if s.contains(y) {
                let i = choose|i: int| 0 <= i < s.len() && s[i] == y;
                if i < d.len() {
                    assert(d[i] == y);
                    assert(w.contains(y));
                    let j = choose|j: int| 0 <= j < w.len() && w[j] == y;
                    assert(r[j] == y);
                } else {
                    assert(r[w.len() as int] == y);
                }
            }
            if y == x {
                assert(w.contains(x));
                let j = choose|j: int| 0 <= j < w.len() && w[j] == x;
                assert(r[j] == x);
            }
            if r.contains(y) && y != x {
                let i = choose|i: int| 0 <= i < r.len() && r[i] == y;
                if i < w.len() {
                    assert(w[i] == y);
                    assert(w.contains(y));
                    let j = choose|j: int| 0 <= j < d.len() && d[j] == y;
                    assert(s[j] == y);
                } else {
                    assert(s[s.len() - 1] == y);
                }
            }
        }
        assert forall|i: int, j: int| 0 <= i < j < r.len() implies !goes_first(r[j], r[i]) by {
            if j == w.len() {
                assert(w.contains(w[i]));
                if w[i] != x {
                    assert(d.contains(w[i]));
                    let t = choose|t: int| 0 <= t < d.len() && d[t] == w[i];
                    assert(!goes_first(s[s.len() - 1], s[t]));
                }
            } else {
                assert(!goes_first(w[j], w[i]));
            }
        }
    } else {
        assert forall|i: int, j: int| 0 <= i < j < r.len() implies !goes_first(r[j], r[i]) by {
            if j == s.len() {
                if i < s.len() - 1 {
                    assert(!goes_first(s[s.len() - 1], s[i]));
                }
            } else {
                assert(!goes_first(s[j], s[i]));
            }
        }
        assert forall|y: Ranked| #[trigger] r.contains(y) <==> (y == x || s.contains(y)) by {
            assert(r[s.len() as int] == x);
            if s.contains(y) {
                let i = choose|i: int| 0 <= i < s.len() && s[i] == y;
                assert(r[i] == y);
            }
            if r.contains(y) && y != x {
                let i = choose|i: int| 0 <= i < r.len() && r[i] == y;
                assert(s[i] == y);
            }
        }
    }
}

/// The order for want of memory: the package frozen first goes first, and of those frozen
/// together the one with the most memory; every frozen package has its place.
pub proof fn law_discard_order(m: Seq<(Seq<char>, u64)>, rss: Seq<u64>, n: int)
    requires
        0 <= n <= m.len(),
    ensures
        ranking(m, rss, n).len() == n,
        forall|i: int, j: int|
            0 <= i < j < n ==> !goes_first(ranking(m, rss, n)[j], ranking(m, rss, n)[i]),
        forall|k: int|
            0 <= k < n ==> ranking(m, rss, n).contains(
                Ranked { pkg: (#[trigger] m[k]).0, since: m[k].1, rss: rss_at(rss, k) },
            ),
    decreases n,
{
    if n > 0 {
        law_discard_order(m, rss, n - 1);
        let before = ranking(m, rss, n - 1);
        let x = Ranked { pkg: m[n - 1].0, since: m[n - 1].1, rss: rss_at(rss, n - 1) };
        lemma_with_ranked(before, x);
        assert forall|k: int| 0 <= k < n implies ranking(m, rss, n).contains(
            Ranked { pkg: (#[trigger] m[k]).0, since: m[k].1, rss: rss_at(rss, k) },
        ) by {
            let y = Ranked { pkg: m[k].0, since: m[k].1, rss: rss_at(rss, k) };
            if k < n - 1 {
                assert(before.contains(y));
            }
            assert(with_ranked(before, x).contains(y));
        }
    }
}

/// Whether the processes of an app are all of the kind that the system would kill first.
pub open spec fn all_cached(levels: Seq<Option<i32>>) -> bool {
    levels.len() > 0 && forall|i: int|
        0 <= i < levels.len() ==> match #[trigger] levels[i] {
            Some(a) => a >= 900,
            None => false,
        }
}

pub fn is_cache_level(levels: &Vec<Option<i32>>) -> (r: bool)
    ensures
        r == all_cached(levels@),
{
    if levels.len() == 0 {
        return false;
    }
    let mut i: usize = 0;
    while i < levels.len()
        invariant
            i <= levels.len(),
            forall|j: int|
                0 <= j < i ==> match #[trigger] levels@[j] {
                    Some(a) => a >= 900,
                    None => false,
                },
        decreases levels.len() - i,
    {
        let cached: bool = match levels[i] {
            Some(a) => a >= 900,
            None => false,
        };
        if !cached {
            assert(!(match levels@[i as int] {
                Some(a) => a >= 900,
                None => false,
            }));
            return false;
        }
        i = i + 1;
    }
    true
}

// ---- System packages ----

/// A path on a partition of the system.
pub open spec fn on_system_partition(path: Seq<char>) -> bool {
    let p = crate::text::trimmed(path);
    ||| "/system/"@.is_prefix_of(p)
    ||| "/vendor/"@.is_prefix_of(p)
    ||| "/product/"@.is_prefix_of(p)
    ||| "/odm/"@.is_prefix_of(p)
    ||| "/system_ext/"@.is_prefix_of(p)
    ||| "/apex/"@.is_prefix_of(p)
}

/// A package in the name space of the vendor.
pub open spec fn in_vendor_domain(pkg: Seq<char>) -> bool {
    ||| "com.oplus."@.is_prefix_of(pkg)
    ||| "com.coloros."@.is_prefix_of(pkg)
    ||| "com.oneplus."@.is_prefix_of(pkg)
    ||| "com.realme."@.is_prefix_of(pkg)
    ||| "com.heytap."@.is_prefix_of(pkg)
    ||| "com.nearme."@.is_prefix_of(pkg)
}

/// The package that a row `package:path=name` of the package manager names: what follows the
/// last equals sign.
pub open spec fn pm_package(row: Seq<char>) -> Seq<char> {
    let l = crate::text::trimmed(row);
    crate::text::trimmed(l.skip(crate::text::last_index_of(l, '=') + 1))
}

/// The path on such a row.
pub open spec fn pm_path(row: Seq<char>) -> Seq<char> {
    let l = crate::text::trimmed(row);
    if "package:"@.is_prefix_of(l) {
        l.skip("package:"@.len() as int)
    } else {
        Seq::empty()
    }
}

/// The package on the row, where it belongs to the system: it lies on a partition of the
/// system or in the name space of the vendor. A row without an equals sign names none.
pub open spec fn pm_system(row: Seq<char>) -> Option<Seq<char>> {
    let pkg = pm_package(row);
    let split = crate::text::last_index_of(crate::text::trimmed(row), '=');
    if split >= 0 && pkg.len() > 0 && (on_system_partition(pm_path(row)) || in_vendor_domain(pkg)) {
        Some(pkg)
    } else {
        None
    }
}

/// The system packages of the rows.
pub open spec fn system_names(rows: Seq<Seq<char>>) -> Seq<Seq<char>>
    decreases rows.len(),
{
    if rows.len() == 0 {
        Seq::empty()
    } else {
        match pm_system(rows.last()) {
            Some(p) => with_name(system_names(rows.drop_last()), p),
            None => system_names(rows.drop_last()),
        }
    }
}

fn system_path(p: &[char]) -> (r: bool)
    ensures
        r == on_system_partition(p@),
{
    let t: &[char] = trim(p);
    starts_with(t, "/system/") || starts_with(t, "/vendor/") || starts_with(t, "/product/")
        || starts_with(t, "/odm/") || starts_with(t, "/system_ext/") || starts_with(t, "/apex/")
}

fn vendor_name(p: &[char]) -> (r: bool)
    ensures
        r == in_vendor_domain(p@),
{
    starts_with(p, "com.oplus.") || starts_with(p, "com.coloros.") || starts_with(p, "com.oneplus.")
        || starts_with(p, "com.realme.") || starts_with(p, "com.heytap.") || starts_with(
        p,
        "com.nearme.",
    )
}

fn pm_row(row: &[char]) -> (r: Option<String>)
    ensures
        match r {
            Some(p) => pm_system(row@) == Some(p@),
            None => pm_system(row@) is None,
        },
{
    let l: &[char] = trim(row);
    let at: usize = match rfind(l, '=') {
        Some(p) => p,
        None => {
            return None;
        },
    };
    let pkg: &[char] = trim(tail(l, at + 1));
    if pkg.len() == 0 {
        return None;
    }
    let system: bool = match strip_prefix(l, "package:") {
        Some(path) => system_path(path),
        None => {
            let none: Vec<char> = Vec::new();
            assert(none@ =~= Seq::empty());
            system_path(none.as_slice())
        },
    };
    if system || vendor_name(pkg) {
        Some(string_of(pkg))
    } else {
        None
    }
}

/// The system packages by the output of the package manager.
pub fn system_set(text: &str) -> (r: NameSet)
    ensures
        r@ == system_names(crate::text::line_texts(text@)),
{
    let v: Vec<char> = chars_of(text);
    let rows: Vec<&[char]> = lines(v.as_slice());
    let ghost all = slice_texts(rows@);
    let mut set: NameSet = NameSet::new();
    let mut i: usize = 0;
    while i < rows.len()
        invariant
            i <= rows.len(),
            all == slice_texts(rows@),
            set@ == system_names(all.take(i as int)),
        decreases rows.len() - i,
    {
        assert(all.take(i + 1).drop_last() =~= all.take(i as int));
        if let Some(p) = pm_row(rows[i]) {
            set.insert(p);
        }
        i = i + 1;
    }
    assert(all.take(all.len() as int) =~= all);
    set
}

/// A process: the name of its directory, its command line, and its status.
#[derive(Debug)]
pub struct ProcText {
    pub name: String,
    pub cmdline: String,
    pub status: String,
}

pub struct ProcTextView {
    pub name: Seq<char>,
    pub cmdline: Seq<char>,
    pub status: Seq<char>,
}

impl View for ProcText {
    type V = ProcTextView;

    open spec fn view(&self) -> ProcTextView {
        ProcTextView { name: self.name@, cmdline: self.cmdline@, status: self.status@ }
    }
}

/// A directory of a process whose command line is that of the media process.
pub open spec fn is_media_process(p: ProcTextView) -> bool {
    crate::text::unsigned_of(p.name, u32::MAX as int) is Some && crate::freezer::first_argument(
        p.cmdline,
    ) == "android.process.media"@
}

/// The uid of the first media process.
pub open spec fn media_uid_of(ps: Seq<ProcTextView>) -> Option<u32>
    decreases ps.len(),
{
    if ps.len() == 0 {
        None
    } else if is_media_process(ps[0]) {
        crate::freezer::real_uid(crate::text::line_texts(ps[0].status))
    } else {
        media_uid_of(ps.skip(1))
    }
}

pub open spec fn proc_views(ps: Seq<ProcText>) -> Seq<ProcTextView> {
    Seq::new(ps.len(), |i: int| ps[i]@)
}

/// The uid of the media process.
pub fn resolve_media_uid(procs: &Vec<ProcText>) -> (r: Option<u32>)
    ensures
        r == media_uid_of(proc_views(procs@)),
{
    let ghost all = proc_views(procs@);
    let mut i: usize = 0;
    assert(all.skip(0) =~= all);
    while i < procs.len()
        invariant
            i <= procs.len(),
            all == proc_views(procs@),
            media_uid_of(all) == media_uid_of(all.skip(i as int)),
        decreases procs.len() - i,
    {
        assert(all.skip(i as int)[0] == procs@[i as int]@);
        assert(all.skip(i as int).skip(1) =~= all.skip(i + 1));
        let name: Vec<char> = chars_of(procs[i].name.as_str());
        if crate::text::parse_u32(name.as_slice()).is_some() {
            let first: String = first_arg(procs[i].cmdline.as_str());
            if str_eq(first.as_str(), "android.process.media") {
                return status_real_uid(procs[i].status.as_str());
            }
        }
        i = i + 1;
    }
    None
}

/// The memory, in kB, on the first line `MemAvailable:`.
pub open spec fn mem_available(rows: Seq<Seq<char>>) -> Option<u64>
    decreases rows.len(),
{
    if rows.len() == 0 {
        None
    } else if "MemAvailable:"@.is_prefix_of(rows[0]) {
        let w = crate::text::words(rows[0].skip("MemAvailable:"@.len() as int));
        if w.len() > 0 {
            match crate::text::unsigned_of(w[0], u64::MAX as int) {
                Some(n) => Some(n as u64),
                None => None,
            }
        } else {
            None
        }
    } else {
        mem_available(rows.skip(1))
    }
}

/// The available memory by the text of the memory table.
pub fn mem_available_kb(text: &str) -> (r: Option<u64>)
    ensures
        r == mem_available(crate::text::line_texts(text@)),
{
    let v: Vec<char> = chars_of(text);
    let rows: Vec<&[char]> = lines(v.as_slice());
    let ghost all = slice_texts(rows@);
    let mut i: usize = 0;
    assert(all.skip(0) =~= all);
    while i < rows.len()
        invariant
            i <= rows.len(),
            all == slice_texts(rows@),
            all == crate::text::line_texts(text@),
            mem_available(all) == mem_available(all.skip(i as int)),
        decreases rows.len() - i,
    {
        assert(all.skip(i as int)[0] == rows@[i as int]@);
        assert(all.skip(i as int).skip(1) =~= all.skip(i + 1));
        if let Some(rest) = strip_prefix(rows[i], "MemAvailable:") {
            let w: Vec<&[char]> = crate::text::split_words(rest);
            let ghost ws = slice_texts(w@);
            if w.len() == 0 {
                return None;
            }
            assert(ws[0] == w@[0]@);
            return parse_unsigned(w[0], u64::MAX);
        }
        i = i + 1;
    }
    None
}

/// The resident memory, in kB, of a process: four times the second number of its memory row,
/// capped; 0 where that cannot be read.
pub open spec fn resident_kb(statm: Seq<char>) -> u64 {
    let w = crate::text::words(statm);
    if w.len() < 2 {
        0
    } else {
        match crate::text::unsigned_of(w[1], u64::MAX as int) {
            Some(pages) => crate::policy::saturating_product(pages as u64, 4),
            None => 0,
        }
    }
}

pub fn statm_kb(statm: &str) -> (r: u64)
    ensures
        r == resident_kb(statm@),
{
    let v: Vec<char> = chars_of(statm);
    let w: Vec<&[char]> = crate::text::split_words(v.as_slice());
    let ghost ws = slice_texts(w@);
    if w.len() < 2 {
        return 0;
    }
    assert(ws[1] == w@[1]@);
    match parse_unsigned(w[1], u64::MAX) {
        Some(pages) => match pages.checked_mul(4) {
            Some(n) => n,
            None => u64::MAX,
        },
        None => 0,
    }
}

/// Whether the boot property says that the device has booted.
pub fn boot_completed(prop: &str) -> (r: bool)
    ensures
        r == (crate::text::trimmed(prop@) == "1"@),
{
    let v: Vec<char> = chars_of(prop);
    same(trim(v.as_slice()), "1")
}

// ---- The rules on the state ----

impl EngineState {
    /// Whether a path lies on a partition of the system.
    pub fn is_system_partition_path(path: &str) -> (r: bool)
        ensures
            r == on_system_partition(path@),
    {
        let v: Vec<char> = chars_of(path);
        system_path(v.as_slice())
    }

    /// Whether a package is in the name space of the vendor.
    pub fn is_vendor_pkg_domain(pkg: &str) -> (r: bool)
        ensures
            r == in_vendor_domain(pkg@),
    {
        let v: Vec<char> = chars_of(pkg);
        vendor_name(v.as_slice())
    }

    /// The package on a row of the package manager, where it belongs to the system.
    pub fn parse_pm_line(line: &str) -> (r: Option<String>)
        ensures
            match r {
                Some(p) => pm_system(line@) == Some(p@),
                None => pm_system(line@) is None,
            },
    {
        let v: Vec<char> = chars_of(line);
        pm_row(v.as_slice())
    }

    /// Whether a foreground service and whether playing media exempt the app.
    pub fn keep_flags(&self, pkg: &str) -> (r: (bool, bool))
        ensures
            r.0 == keeps_fg(self@, pkg@),
            r.1 == keeps_media(self@, pkg@),
    {
        let p = self.policy_ref();
        proof {
            p.lemma_fields();
        }
        match self.app_policy(pkg) {
            Some(a) => (
                effective(a.keep_fg_service, p.keep_fg_service),
                effective(a.keep_media, p.keep_media),
            ),
            None => (p.keep_fg_service, p.keep_media),
        }
    }

    pub fn keep_loc(&self, pkg: &str) -> (r: bool)
        ensures
            r == keeps_location(self@, pkg@),
    {
        let p = self.policy_ref();
        proof {
            p.lemma_fields();
        }
        match self.app_policy(pkg) {
            Some(a) => effective(a.keep_location, p.keep_location),
            None => p.keep_location,
        }
    }

    pub fn keep_hn(&self, pkg: &str) -> (r: bool)
        ensures
            r == keeps_high_network(self@, pkg@),
    {
        let p = self.policy_ref();
        proof {
            p.lemma_fields();
        }
        match self.app_policy(pkg) {
            Some(a) => effective(a.keep_high_network, p.keep_high_network),
            None => p.keep_high_network,
        }
    }

    pub fn keep_net(&self, pkg: &str) -> (r: bool)
        ensures
            r == keeps_network(self@, pkg@),
    {
        let p = self.policy_ref();
        proof {
            p.lemma_fields();
        }
        match self.app_policy(pkg) {
            Some(a) => effective(a.keep_network, p.keep_network),
            None => p.keep_network,
        }
    }

    pub fn keep_wakeup(&self, pkg: &str) -> (r: bool)
        ensures
            r == keeps_wakeup(self@, pkg@),
    {
        match self.app_policy(pkg) {
            Some(a) => a.mode == AppMode::Important || effective(a.keep_wakeup, true),
            None => true,
        }
    }

    pub fn mode_of(&self, pkg: &str) -> (r: AppMode)
        ensures
            r == mode(self@, pkg@),
    {
        match self.app_policy(pkg) {
            Some(a) => a.mode,
            None => AppMode::Standard,
        }
    }

    pub fn push_mode(&self, pkg: &str) -> (r: PushMode)
        ensures
            r == push_of(self@, pkg@),
    {
        let p = self.policy_ref();
        proof {
            p.lemma_fields();
        }
        match self.app_policy(pkg) {
            Some(a) => match a.push_mode {
                Some(m) => m,
                None => p.push_policy,
            },
            None => p.push_policy,
        }
    }

    pub fn grace_of(&self, pkg: &str) -> (r: u64)
        ensures
            r == grace_seconds(self@, pkg@),
    {
        let p = self.policy_ref();
        proof {
            p.lemma_fields();
        }
        match self.app_policy(pkg) {
            Some(a) => a.effective_grace(p.grace_seconds),
            None => p.grace_seconds,
        }
    }

    pub fn in_unfreeze_window(&self, pkg: &str, env: &Env) -> (r: bool)
        ensures
            r == in_daily_window(self@, env@, pkg@),
    {
        match self.app_policy(pkg) {
            Some(a) => match env.minute {
                Some(m) => in_window(m, a.unfreeze_window),
                None => false,
            },
            None => false,
        }
    }

    /// Whether the app does something that exempts it.
    pub fn busy(&self, pkg: &str) -> (r: bool)
        ensures
            r == is_busy(self@, pkg@),
    {
        let (keep_fg, keep_media) = self.keep_flags(pkg);
        let keep_loc: bool = self.keep_loc(pkg);
        match self.exempt_flags(pkg) {
            Some(f) => (keep_fg && f.fg_service) || (keep_media && f.media) || (keep_loc
                && f.location),
            None => false,
        }
    }

    pub fn is_vpn_protected(&self, pkg: &str, env: &Env) -> (r: bool)
        ensures
            r == vpn_protected(self@, env@, pkg@),
    {
        let p = self.policy_ref();
        proof {
            p.lemma_fields();
        }
        if !p.keep_vpn {
            return false;
        }
        if p.is_vpn_listed(pkg) {
            return true;
        }
        match pkg_uid(&env.table, pkg) {
            Some(u) => is_vpn_owner(env.vpn_uid, u),
            None => false,
        }
    }

    /// Whether the policy itself spares the package.
    pub fn is_listed(&self, pkg: &str) -> (r: bool)
        ensures
            r == listed(self@, pkg@),
    {
        self.policy_ref().is_whitelisted(pkg) || self.mode_of(pkg) == AppMode::Exempt
    }

    /// Whether a rule keeps the package from being frozen.
    pub fn is_rule_exempt(&self, pkg: &str, env: &Env) -> (r: bool)
        ensures
            r == rule_exempts(self@, env@, pkg@),
    {
        match self.rule_peek(pkg, RuleCondition::Leave, None, env.now, env.today) {
            Some(h) => h.action == RuleAction::Exempt,
            None => false,
        }
    }

    fn discard_limit(&self, pkg: &str, env: &Env) -> (r: Option<u64>)
        ensures
            r == rule_limit(self@, env@, pkg@),
    {
        let p = self.policy_ref();
        proof {
            p.lemma_fields();
        }
        match self.rule_peek(pkg, RuleCondition::Always, None, env.now, env.today) {
            Some(h) => if h.action != RuleAction::Discard {
                None
            } else if h.after_seconds.is_some() {
                h.after_seconds
            } else if p.discard_frozen_timeout_seconds > 0 {
                Some(p.discard_frozen_timeout_seconds)
            } else {
                None
            },
            None => None,
        }
    }

    /// The frozen packages that a rule wants discarded.
    pub fn rule_discard_candidates(&self, env: &Env) -> (r: Vec<String>)
        ensures
            texts(r@) == ruled_names(self@, env@, self@.frozen),
    {
        let m = self.frozen_map();
        let mut out: Vec<String> = Vec::new();
        let mut i: usize = 0;
        assert(texts(out@) =~= Seq::empty());
        while i < m.len()
            invariant
                i <= m@.len(),
                texts(out@) == ruled_names(self@, env@, m@.take(i as int)),
            decreases m@.len() - i,
        {
            assert(m@.take(i + 1).drop_last() =~= m@.take(i as int));
            let due: bool = match self.discard_limit(m.key_at(i), env) {
                Some(secs) => passed(env.now, *m.value_at(i), secs),
                None => false,
            };
            if due {
                let ghost done = texts(out@);
                out.push(String::from_str(m.key_at(i)));
                assert(texts(out@) =~= done.push(m@[i as int].0));
            }
            i = i + 1;
        }
        assert(m@.take(m@.len() as int) =~= m@);
        out
    }

    /// Whether the policy never freezes the package.
    pub fn should_never_freeze(&self, pkg: &str, env: &Env) -> (r: bool)
        ensures
            r == never_frozen(self@, env@, pkg@),
    {
        let p = self.policy_ref();
        p.is_critical(pkg) || self.in_system(pkg) || self.is_vpn_protected(pkg, env)
            || self.is_listed(pkg) || self.is_rule_exempt(pkg, env)
    }

    pub fn is_focus(&self, pkg: &str) -> (r: bool)
        ensures
            r == (self@.last_focus == Some(pkg@)),
    {
        match self.focus_ref() {
            Some(f) => str_eq(f.as_str(), pkg),
            None => false,
        }
    }

    /// Whether the package is never discarded.
    pub fn discard_ineligible(&self, pkg: &str, env: &Env) -> (r: bool)
        ensures
            r == never_discarded(self@, env@, pkg@),
    {
        self.should_never_freeze(pkg, env) || self.mode_of(pkg) == AppMode::Important
            || self.is_focus(pkg) || self.busy(pkg)
    }

    /// The uid of a package, as reported or by the package table.
    pub fn uid_known(&self, pkg: &str, env: &Env) -> (r: Option<u32>)
        ensures
            r == known_uid(self@, env@, pkg@),
    {
        match self.reported_uid(pkg) {
            Some(u) => Some(u),
            None => pkg_uid(&env.table, pkg),
        }
    }

    /// Adds the uids of the packages to an ascending list.
    fn collect_uids(&self, out: &mut Vec<u32>, names: &Vec<String>, env: &Env, Ghost(done): Ghost<
        Seq<Seq<char>>,
    >)
        requires
            old(out)@ == sorted_set(known_uids(self@, env@, done)),
        ensures
            final(out)@ == sorted_set(known_uids(self@, env@, done + texts(names@))),
    {
        let ghost all = texts(names@);
        let mut i: usize = 0;
        assert(done + all.take(0) =~= done);
        while i < names.len()
            invariant
                i <= names.len(),
                all == texts(names@),
                out@ == sorted_set(known_uids(self@, env@, done + all.take(i as int))),
            decreases names.len() - i,
        {
            proof {
                let next = done + all.take(i + 1);
                assert(next.drop_last() =~= done + all.take(i as int));
                assert(next.last() == all[i as int]);
                let before = known_uids(self@, env@, next.drop_last());
                if let Some(u) = known_uid(self@, env@, next.last()) {
                    assert(before.push(u).drop_last() =~= before);
                }
            }
            if let Some(u) = self.uid_known(names[i].as_str(), env) {
                insert_number(out, u);
            }
            i = i + 1;
        }
        assert(all.take(all.len() as int) =~= all);
    }

    /// The uids that the engine holds frozen, ascending.
    pub fn sundown_frozen_uids(&self, env: &Env) -> (r: Vec<u32>)
        ensures
            r@ == sorted_set(known_uids(self@, env@, keys_of(self@.frozen))),
    {
        let mut out: Vec<u32> = Vec::new();
        let names: Vec<String> = self.frozen_map().keys();
        self.collect_uids(&mut out, &names, env, Ghost(Seq::empty()));
        assert(Seq::<Seq<char>>::empty() + texts(names@) =~= texts(names@));
        out
    }

    /// The uids that the engine holds frozen, delays or protects, ascending.
    pub fn sundown_candidate_uids(&self, env: &Env) -> (r: Vec<u32>)
        ensures
            r@ == sorted_set(known_uids(self@, env@, managed_names(self@))),
    {
        let mut out: Vec<u32> = Vec::new();
        let frozen: Vec<String> = self.frozen_map().keys();
        let grace: Vec<String> = self.grace_map().keys();
        self.collect_uids(&mut out, &frozen, env, Ghost(Seq::empty()));
        assert(Seq::<Seq<char>>::empty() + texts(frozen@) =~= texts(frozen@));
        self.collect_uids(&mut out, &grace, env, Ghost(texts(frozen@)));
        self.collect_uids(
            &mut out,
            self.adj_set().list(),
            env,
            Ghost(texts(frozen@) + texts(grace@)),
        );
        out
    }

    /// The frozen packages by name.
    pub fn frozen_packages(&self) -> (r: Vec<String>)
        ensures
            texts(r@) == sorted_texts(keys_of(self@.frozen)),
            texts(r@).no_duplicates(),
    {
        let keys: Vec<String> = self.frozen_map().keys();
        proof {
            lemma_sorted_distinct(texts(keys@));
        }
        sort_texts(&keys)
    }

    /// The packages whose delay runs, by name.
    pub fn grace_pending(&self) -> (r: Vec<String>)
        ensures
            texts(r@) == sorted_texts(keys_of(self@.grace)),
            texts(r@).no_duplicates(),
    {
        let keys: Vec<String> = self.grace_map().keys();
        proof {
            lemma_sorted_distinct(texts(keys@));
        }
        sort_texts(&keys)
    }

    /// The packages whose delay is over.
    pub fn due(&self, now: u64) -> (r: Vec<String>)
        ensures
            texts(r@) == due_names(self@.grace, now),
    {
        let m = self.grace_map();
        let mut out: Vec<String> = Vec::new();
        let mut i: usize = 0;
        assert(texts(out@) =~= due_names(m@.take(0), now));
        while i < m.len()
            invariant
                i <= m@.len(),
                texts(out@) == due_names(m@.take(i as int), now),
            decreases m@.len() - i,
        {
            assert(m@.take(i + 1).drop_last() =~= m@.take(i as int));
            let (start, secs) = *m.value_at(i);
            if passed(now, start, secs) {
                let ghost done = texts(out@);
                out.push(String::from_str(m.key_at(i)));
                assert(texts(out@) =~= done.push(m@[i as int].0));
            }
            i = i + 1;
        }
        assert(m@.take(m@.len() as int) =~= m@);
        out
    }

    /// The packages that have been frozen for too long.
    pub fn expired_discard_candidates(&self, now: u64) -> (r: Vec<String>)
        ensures
            texts(r@) == expired_names(self@, now),
    {
        let p = self.policy_ref();
        proof {
            p.lemma_fields();
        }
        let secs: u64 = p.discard_frozen_timeout_seconds;
        let mut out: Vec<String> = Vec::new();
        assert(texts(out@) =~= Seq::empty());
        if secs == 0 {
            return out;
        }
        let m = self.frozen_map();
        let mut i: usize = 0;
        while i < m.len()
            invariant
                i <= m@.len(),
                texts(out@) == stale_names(m@.take(i as int), now, secs),
            decreases m@.len() - i,
        {
            assert(m@.take(i + 1).drop_last() =~= m@.take(i as int));
            if passed(now, *m.value_at(i), secs) {
                let ghost done = texts(out@);
                out.push(String::from_str(m.key_at(i)));
                assert(texts(out@) =~= done.push(m@[i as int].0));
            }
            i = i + 1;
        }
        assert(m@.take(m@.len() as int) =~= m@);
        out
    }

    /// The frozen packages in the order in which they are discarded for want of memory, given
    /// the memory that each holds; what is not given counts as 0.
    pub fn sort_discard_candidates(&self, rss: &Vec<u64>) -> (r: Vec<String>)
        ensures
            texts(r@) == discard_order(self@.frozen, rss@),
    {
        let m = self.frozen_map();
        let mut items: Vec<(String, u64, u64)> = Vec::new();
        let mut i: usize = 0;
        assert(ranked_views(items@) =~= Seq::empty());
        while i < m.len()
            invariant
                i <= m@.len(),
                ranked_views(items@) == ranking(m@, rss@, i as int),
            decreases m@.len() - i,
        {
            let held: u64 = if i < rss.len() {
                rss[i]
            } else {
                0
            };
            insert_ranked(&mut items, String::from_str(m.key_at(i)), *m.value_at(i), held);
            i = i + 1;
        }
        let mut out: Vec<String> = Vec::new();
        let mut j: usize = 0;
        let ghost all = ranked_views(items@);
        while j < items.len()
            invariant
                j <= items.len(),
                all == ranked_views(items@),
                texts(out@) == ranked_names(all).take(j as int),
            decreases items.len() - j,
        {
            let ghost done = texts(out@);
            out.push(items[j].0.clone());
            assert(texts(out@) =~= done.push(all[j as int].pkg));
            assert(texts(out@) =~= ranked_names(all).take(j + 1));
            j = j + 1;
        }
        assert(ranked_names(all).take(all.len() as int) =~= ranked_names(all));
        out
    }

    /// The frozen packages with their uids, by name.
    pub fn snapshot(&self, env: &Env) -> (r: Vec<(String, u32)>)
        ensures
            crate::freezer::pair_views(r@) == frozen_snapshot(self@, env@),
    {
        let names: Vec<String> = self.frozen_packages();
        let ghost all = texts(names@);
        let mut out: Vec<(String, u32)> = Vec::new();
        let mut i: usize = 0;
        assert(crate::freezer::pair_views(out@) =~= Seq::empty());
        while i < names.len()
            invariant
                i <= names.len(),
                all == texts(names@),
                crate::freezer::pair_views(out@) == known_pairs(self@, env@, all.take(i as int)),
            decreases names.len() - i,
        {
            assert(all.take(i + 1).drop_last() =~= all.take(i as int));
            if let Some(u) = self.uid_known(names[i].as_str(), env) {
                let ghost done = crate::freezer::pair_views(out@);
                out.push((names[i].clone(), u));
                assert(crate::freezer::pair_views(out@) =~= done.push((all[i as int], u)));
            }
            i = i + 1;
        }
        assert(all.take(all.len() as int) =~= all);
        out
    }
}

pub open spec fn ranked_views(v: Seq<(String, u64, u64)>) -> Seq<Ranked> {
    Seq::new(v.len(), |i: int| Ranked { pkg: v[i].0@, since: v[i].1, rss: v[i].2 })
}

fn insert_ranked(v: &mut Vec<(String, u64, u64)>, pkg: String, since: u64, rss: u64)
    ensures
        ranked_views(final(v)@) == with_ranked(
            ranked_views(old(v)@),
            Ranked { pkg: pkg@, since, rss },
        ),
{
    let ghost all = ranked_views(v@);
    let ghost x = Ranked { pkg: pkg@, since, rss };
    let mut n: usize = v.len();
    assert(all.take(n as int) =~= all);
    assert(with_ranked(all, x) + all.skip(n as int) =~= with_ranked(all, x));
    while n > 0 && (since < v[n - 1].1 || (since == v[n - 1].1 && rss > v[n - 1].2))
        invariant
            n <= v.len(),
            all == ranked_views(v@),
            x == (Ranked { pkg: pkg@, since, rss }),
            with_ranked(all, x) == with_ranked(all.take(n as int), x) + all.skip(n as int),
        decreases n,
    {
        proof {
            let t = all.take(n as int);
            assert(t.drop_last() =~= all.take(n - 1));
            assert(with_ranked(t.drop_last(), x).push(t.last()) + all.skip(n as int)
                =~= with_ranked(t.drop_last(), x) + all.skip(n - 1));
        }
        n = n - 1;
    }
    proof {
        let t = all.take(n as int);
        assert(n > 0 ==> t.last() == all[n - 1]);
    }
    v.insert(n, (pkg, since, rss));
    assert(ranked_views(v@) =~= all.take(n as int).push(x) + all.skip(n as int));
}

/// Every uid that is held frozen is among those that are managed, and both lists are
/// ascending without repetition.
pub proof fn law_candidates_cover_frozen(s: EngineView, e: EnvView, uid: u32)
    requires
        sorted_set(known_uids(s, e, keys_of(s.frozen))).contains(uid),
    ensures
        sorted_set(known_uids(s, e, managed_names(s))).contains(uid),
        crate::order::strictly_ascending(sorted_set(known_uids(s, e, managed_names(s)))),
        crate::order::strictly_ascending(sorted_set(known_uids(s, e, keys_of(s.frozen)))),
{
    let a = keys_of(s.frozen);
    let b = keys_of(s.grace) + s.adj_keep;
    assert(managed_names(s) =~= a + b);
    crate::order::law_sorted_set(known_uids(s, e, a));
    crate::order::law_sorted_set(known_uids(s, e, managed_names(s)));
    lemma_known_uids_grow(s, e, a, b, uid);
}

proof fn lemma_known_uids_grow(
    s: EngineView,
    e: EnvView,
    a: Seq<Seq<char>>,
    b: Seq<Seq<char>>,
    uid: u32,
)
    requires
        known_uids(s, e, a).contains(uid),
    ensures
        known_uids(s, e, a + b).contains(uid),
    decreases b.len(),
{
    if b.len() == 0 {
        assert(a + b =~= a);
    } else {
        lemma_known_uids_grow(s, e, a, b.drop_last(), uid);
        assert((a + b).drop_last() =~= a + b.drop_last());
        let before = known_uids(s, e, a + b.drop_last());
        let i = choose|i: int| 0 <= i < before.len() && before[i] == uid;
        assert(known_uids(s, e, a + b)[i] == uid);
    }
}

} // verus!
