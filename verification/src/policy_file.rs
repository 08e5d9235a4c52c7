//! Loading a policy from the text of `policy.toml`.

use vstd::prelude::*;
use crate::events::opt_str;
use crate::names::{value_of, with_key};
use crate::policy::{
    bool_of, bool_view, count_of_value, count_view, default_app, default_policy, parse_window,
    string_of_value, string_view, strings_of, strings_view, window_of, AppMode, AppPolicy, Policy,
    PolicyView, PushMode,
};
use crate::text::{chars_of, join, push_dec, str_eq, string_of, strip_prefix};
use crate::toml::{entry_views, parse, EntryView, TomlEntry, TomlValue, ValueView};

verus! {

broadcast use {crate::lists::texts_len, crate::lists::texts_at};

/// The settings of an app after one more entry of its table.
pub open spec fn app_after(a: AppPolicy, key: Seq<char>, v: ValueView) -> AppPolicy {
    if key == "mode"@ {
        match string_view(v) {
            Some(s) => match AppMode::named(s) {
                Some(mode) => AppPolicy { mode, ..a },
                None => a,
            },
            None => a,
        }
    } else if key == "grace_seconds"@ {
        AppPolicy { grace_override: Some(count_view(v, 8)), ..a }
    } else if key == "keep_fg_service"@ {
        AppPolicy { keep_fg_service: Some(bool_view(v, true)), ..a }
    } else if key == "keep_media"@ {
        AppPolicy { keep_media: Some(bool_view(v, true)), ..a }
    } else if key == "keep_location"@ {
        AppPolicy { keep_location: Some(bool_view(v, true)), ..a }
    } else if key == "keep_high_network"@ {
        AppPolicy { keep_high_network: Some(bool_view(v, true)), ..a }
    } else if key == "keep_network"@ {
        AppPolicy { keep_network: Some(bool_view(v, true)), ..a }
    } else if key == "keep_wakeup"@ {
        AppPolicy { keep_wakeup: Some(bool_view(v, true)), ..a }
    } else if key == "push_mode"@ {
        match string_view(v) {
            Some(s) => match PushMode::named(s) {
                Some(m) => AppPolicy { push_mode: Some(m), ..a },
                None => a,
            },
            None => a,
        }
    } else if key == "unfreeze_window"@ {
        match string_view(v) {
            Some(s) => match window_of(s) {
                Some(w) => AppPolicy { unfreeze_window: Some(w), ..a },
                None => a,
            },
            None => a,
        }
    } else {
        a
    }
}

/// The policy after one more entry of the table `general`.
pub open spec fn general_after(p: PolicyView, key: Seq<char>, v: ValueView) -> PolicyView {
    if key == "enabled"@ {
        PolicyView { enabled: bool_view(v, false), ..p }
    } else if key == "grace_seconds"@ {
        PolicyView { grace_seconds: count_view(v, 30), ..p }
    } else if key == "cooldown_seconds"@ {
        PolicyView { cooldown_seconds: count_view(v, 60), ..p }
    } else if key == "wake_throttle_seconds"@ {
        PolicyView { wake_throttle_seconds: count_view(v, 60), ..p }
    } else {
        p
    }
}

/// The policy after one more entry of the table `freeze`.
pub open spec fn freeze_after(p: PolicyView, key: Seq<char>, v: ValueView) -> PolicyView {
    if key == "force"@ {
        PolicyView { force: strings_view(v), ..p }
    } else {
        p
    }
}

/// The policy after one more entry of the table `whitelist`.
pub open spec fn whitelist_after(p: PolicyView, key: Seq<char>, v: ValueView) -> PolicyView {
    if key == "packages"@ {
        PolicyView { whitelist: strings_view(v), ..p }
    } else if key == "receiver_gate"@ {
        PolicyView { receiver_gate: strings_view(v), ..p }
    } else if key == "keep_fg_service"@ {
        PolicyView { keep_fg_service: bool_view(v, true), ..p }
    } else if key == "keep_media"@ {
        PolicyView { keep_media: bool_view(v, true), ..p }
    } else if key == "keep_location"@ {
        PolicyView { keep_location: bool_view(v, true), ..p }
    } else if key == "keep_high_network"@ {
        PolicyView { keep_high_network: bool_view(v, true), ..p }
    } else if key == "keep_network"@ {
        PolicyView { keep_network: bool_view(v, true), ..p }
    } else if key == "push_policy"@ {
        match string_view(v) {
            Some(s) => match PushMode::named(s) {
                Some(m) => PolicyView { push_policy: m, ..p },
                None => p,
            },
            None => p,
        }
    } else {
        p
    }
}

/// The policy after one more entry of the table `defense`.
pub open spec fn defense_after(p: PolicyView, key: Seq<char>, v: ValueView) -> PolicyView {
    if key == "anr_protect"@ {
        PolicyView { defense_anr: bool_view(v, false), ..p }
    } else if key == "cached_app_optimizer"@ {
        PolicyView { defense_cached_optimizer: bool_view(v, false), ..p }
    } else {
        p
    }
}

/// The policy after one more entry of the table `vpn`.
pub open spec fn vpn_after(p: PolicyView, key: Seq<char>, v: ValueView) -> PolicyView {
    if key == "keep_vpn"@ {
        PolicyView { keep_vpn: bool_view(v, true), ..p }
    } else if key == "packages"@ {
        PolicyView { vpn_packages: strings_view(v), ..p }
    } else {
        p
    }
}

/// The policy after one more entry of the table `discard`.
pub open spec fn discard_after(p: PolicyView, key: Seq<char>, v: ValueView) -> PolicyView {
    if key == "frozen_timeout_seconds"@ {
        PolicyView { discard_frozen_timeout_seconds: count_view(v, 1800), ..p }
    } else if key == "mem_watermark_mb"@ {
        PolicyView { discard_mem_watermark_mb: count_view(v, 512), ..p }
    } else if key == "boot_reclaim"@ {
        PolicyView { discard_boot_reclaim: bool_view(v, true), ..p }
    } else if key == "boot_reclaim_delay_seconds"@ {
        PolicyView { discard_boot_reclaim_delay_seconds: count_view(v, 120), ..p }
    } else {
        p
    }
}

/// The policy after one more entry of the file.
pub open spec fn policy_after(p: PolicyView, e: EntryView) -> PolicyView {
    let section = crate::text::joined(e.table, "."@);
    if section == "general"@ {
        general_after(p, e.key, e.value)
    } else if section == "freeze"@ {
        freeze_after(p, e.key, e.value)
    } else if section == "whitelist"@ {
        whitelist_after(p, e.key, e.value)
    } else if section == "defense"@ {
        defense_after(p, e.key, e.value)
    } else if section == "vpn"@ {
        vpn_after(p, e.key, e.value)
    } else if section == "discard"@ {
        discard_after(p, e.key, e.value)
    } else if "apps."@.is_prefix_of(section) && section.len() > "apps."@.len() {
        let pkg = section.skip("apps."@.len() as int);
        let a = match value_of(p.apps, pkg) {
            Some(a) => a,
            None => default_app(),
        };
        PolicyView { apps: with_key(p.apps, pkg, app_after(a, e.key, e.value)), ..p }
    } else {
        p
    }
}

/// The policy after the entries, applied in order.
pub open spec fn policy_after_all(p: PolicyView, es: Seq<EntryView>) -> PolicyView
    decreases es.len(),
{
    if es.len() == 0 {
        p
    } else {
        policy_after(policy_after_all(p, es.drop_last()), es.last())
    }
}

/// The policy of a list of entries.
pub open spec fn policy_of(es: Seq<EntryView>, revision: u64) -> PolicyView {
    policy_after_all(PolicyView { revision, ..default_policy() }, es)
}

/// How an error in a file is reported.
pub open spec fn fault_text(lineno: int, msg: Seq<char>) -> Seq<char> {
    "第 "@ + crate::text::dec(lineno as nat) + " 行: "@ + msg
}

pub fn fault_message(lineno: usize, msg: &str) -> (r: String)
    ensures
        r@ == fault_text(lineno as int, msg@),
{
    let mut out: String = String::from_str("第 ");
    push_dec(&mut out, lineno as u64);
    out.append(" 行: ");
    out.append(msg);
    out
}

/// What is loaded from the text of the file.
pub open spec fn loaded_policy(text: Option<Seq<char>>, revision: u64) -> Option<PolicyView> {
    match text {
        Some(s) => match crate::toml::parsed(s) {
            Ok(es) => Some(policy_of(es, revision)),
            Err(_) => None,
        },
        None => None,
    }
}

fn app_entry(a: AppPolicy, e: &TomlEntry) -> (r: AppPolicy)
    ensures
        r == app_after(a, e.key@, e.value@),
{
    let mut ap: AppPolicy = a;
    let val = &e.value;
    let key: &str = e.key.as_str();
    if str_eq(key, "mode") {
        if let Some(s) = string_of_value(val) {
            if let Some(m) = AppMode::parse(s.as_str()) {
                ap.mode = m;
            }
        }
    } else if str_eq(key, "grace_seconds") {
        ap.grace_override = Some(count_of_value(val, 8));
    } else if str_eq(key, "keep_fg_service") {
        ap.keep_fg_service = Some(bool_of(val, true));
    } else if str_eq(key, "keep_media") {
        ap.keep_media = Some(bool_of(val, true));
    } else if str_eq(key, "keep_location") {
        ap.keep_location = Some(bool_of(val, true));
    } else if str_eq(key, "keep_high_network") {
        ap.keep_high_network = Some(bool_of(val, true));
    } else if str_eq(key, "keep_network") {
        ap.keep_network = Some(bool_of(val, true));
    } else if str_eq(key, "keep_wakeup") {
        ap.keep_wakeup = Some(bool_of(val, true));
    } else if str_eq(key, "push_mode") {
        if let Some(s) = string_of_value(val) {
            if let Some(m) = PushMode::parse(s.as_str()) {
                ap.push_mode = Some(m);
            }
        }
    } else if str_eq(key, "unfreeze_window") {
        if let Some(s) = string_of_value(val) {
            if let Some(w) = parse_window(s.as_str()) {
                ap.unfreeze_window = Some(w);
            }
        }
    }
    ap
}

fn apply_app_entry(p: &mut Policy, pkg: &[char], e: &TomlEntry)
    requires
        pkg.len() > 0,
    ensures
        final(p)@ == (PolicyView {
            apps: with_key(
                old(p)@.apps,
                pkg@,
                app_after(
                    match value_of(old(p)@.apps, pkg@) {
                        Some(a) => a,
                        None => default_app(),
                    },
                    e.key@,
                    e.value@,
                ),
            ),
            ..old(p)@
        }),
{
    let name: String = string_of(pkg);
    let a: AppPolicy = match p.app(name.as_str()) {
        Some(a) => a,
        None => AppPolicy::default(),
    };
    p.set_app(name, app_entry(a, e));
}

fn apply_general(p: &mut Policy, k: &str, val: &TomlValue)
    ensures
        final(p)@ == general_after(old(p)@, k@, val@),
{
    if str_eq(k, "enabled") {
        p.set_enabled(bool_of(val, false));
    } else if str_eq(k, "grace_seconds") {
        p.set_grace_seconds(count_of_value(val, 30));
    } else if str_eq(k, "cooldown_seconds") {
        p.set_cooldown_seconds(count_of_value(val, 60));
    } else if str_eq(k, "wake_throttle_seconds") {
        p.set_wake_throttle_seconds(count_of_value(val, 60));
    }
}

fn apply_freeze(p: &mut Policy, k: &str, val: &TomlValue)
    ensures
        final(p)@ == freeze_after(old(p)@, k@, val@),
{
    if str_eq(k, "force") {
        p.set_force(strings_of(val));
    }
}

fn apply_whitelist(p: &mut Policy, k: &str, val: &TomlValue)
    ensures
        final(p)@ == whitelist_after(old(p)@, k@, val@),
{
    if str_eq(k, "packages") {
        p.set_whitelist(strings_of(val));
    } else if str_eq(k, "receiver_gate") {
        p.set_receiver_gate(strings_of(val));
    } else if str_eq(k, "keep_fg_service") {
        p.set_keep_fg_service(bool_of(val, true));
    } else if str_eq(k, "keep_media") {
        p.set_keep_media(bool_of(val, true));
    } else if str_eq(k, "keep_location") {
        p.set_keep_location(bool_of(val, true));
    } else if str_eq(k, "keep_high_network") {
        p.set_keep_high_network(bool_of(val, true));
    } else if str_eq(k, "keep_network") {
        p.set_keep_network(bool_of(val, true));
    } else if str_eq(k, "push_policy") {
        if let Some(t) = string_of_value(val) {
            if let Some(m) = PushMode::parse(t.as_str()) {
                p.set_push_policy(m);
            }
        }
    }
}

fn apply_defense(p: &mut Policy, k: &str, val: &TomlValue)
    ensures
        final(p)@ == defense_after(old(p)@, k@, val@),
{
    if str_eq(k, "anr_protect") {
        p.set_defense_anr(bool_of(val, false));
    } else if str_eq(k, "cached_app_optimizer") {
        p.set_defense_cached_optimizer(bool_of(val, false));
    }
}

fn apply_vpn(p: &mut Policy, k: &str, val: &TomlValue)
    ensures
        final(p)@ == vpn_after(old(p)@, k@, val@),
{
    if str_eq(k, "keep_vpn") {
        p.set_keep_vpn(bool_of(val, true));
    } else if str_eq(k, "packages") {
        p.set_vpn_packages(strings_of(val));
    }
}

fn apply_discard(p: &mut Policy, k: &str, val: &TomlValue)
    ensures
        final(p)@ == discard_after(old(p)@, k@, val@),
{
    if str_eq(k, "frozen_timeout_seconds") {
        p.set_discard_frozen_timeout_seconds(count_of_value(val, 1800));
    } else if str_eq(k, "mem_watermark_mb") {
        p.set_discard_mem_watermark_mb(count_of_value(val, 512));
    } else if str_eq(k, "boot_reclaim") {
        p.set_discard_boot_reclaim(bool_of(val, true));
    } else if str_eq(k, "boot_reclaim_delay_seconds") {
        p.set_discard_boot_reclaim_delay_seconds(count_of_value(val, 120));
    }
}

fn apply_entry(p: &mut Policy, e: &TomlEntry)
    ensures
        final(p)@ == policy_after(old(p)@, e@),
{
    let section: String = join(&e.table, ".");
    let s: &str = section.as_str();
    let k: &str = e.key.as_str();
    if str_eq(s, "general") {
        apply_general(p, k, &e.value);
    } else if str_eq(s, "freeze") {
        apply_freeze(p, k, &e.value);
    } else if str_eq(s, "whitelist") {
        apply_whitelist(p, k, &e.value);
    } else if str_eq(s, "defense") {
        apply_defense(p, k, &e.value);
    } else if str_eq(s, "vpn") {
        apply_vpn(p, k, &e.value);
    } else if str_eq(s, "discard") {
        apply_discard(p, k, &e.value);
    } else {
        let chars: Vec<char> = chars_of(s);
        if let Some(pkg) = strip_prefix(chars.as_slice(), "apps.") {
            if pkg.len() > 0 {
                apply_app_entry(p, pkg, e);
            }
        }
    }
}

impl Policy {
    /// The policy of a file, or why it does not parse.
    pub fn from_toml(src: &str, revision: u64) -> (r: Result<Policy, String>)
        ensures
            match r {
                Ok(p) => crate::toml::parsed(src@) matches Ok(es) && p@ == policy_of(es, revision),
                Err(m) => crate::toml::parsed(src@) matches Err(e) && m@ == fault_text(e.0, e.1),
            },
    {
        let entries: Vec<TomlEntry> = match parse(src) {
            Ok(v) => v,
            Err(e) => {
                return Err(fault_message(e.0, e.1.as_str()));
            },
        };
        let mut p: Policy = Policy::default();
        p.set_revision(revision);
        let ghost start = p@;
        let ghost es = entry_views(entries@);
        let mut i: usize = 0;
        while i < entries.len()
            invariant
                i <= entries.len(),
                es == entry_views(entries@),
                p@ == policy_after_all(start, es.take(i as int)),
            decreases entries.len() - i,
        {
            apply_entry(&mut p, &entries[i]);
            assert(es.take(i + 1).drop_last() =~= es.take(i as int));
            i = i + 1;
        }
        assert(es.take(es.len() as int) =~= es);
        Ok(p)
    }

    /// The policy of a file; none where there is no file or it does not parse, and then the
    /// policy in force stays.
    pub fn load(text: Option<&str>, revision: u64) -> (r: Option<Policy>)
        ensures
            match r {
                Some(p) => loaded_policy(opt_str(text), revision) == Some(p@),
                None => loaded_policy(opt_str(text), revision) is None,
            },
    {
        match text {
            Some(s) => match Policy::from_toml(s, revision) {
                Ok(p) => Some(p),
                Err(_) => None,
            },
            None => None,
        }
    }
}

} // verus!
