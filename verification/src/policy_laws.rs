//! What holds of a policy whatever its file says: settings that a file does not name keep their
//! defaults, and what it names in vain changes nothing.

use vstd::prelude::*;
use crate::names::{has_key, lemma_with_key, unique_keys, value_of};
use crate::policy::{
    default_app, default_policy, window_of, AppMode, AppPolicy, PolicyView, PushMode,
};
use crate::policy_file::{app_after, policy_after, policy_after_all, policy_of};
use crate::text::joined;
use crate::toml::{EntryView, ValueView};

verus! {

/// The section that an entry stands in.
pub open spec fn section_of(e: EntryView) -> Seq<char> {
    joined(e.table, "."@)
}

/// Whether an entry gives a setting a value.
pub open spec fn sets(e: EntryView, section: Seq<char>, key: Seq<char>) -> bool {
    section_of(e) == section && e.key == key
}

/// Whether a setting occurs in a file.
pub open spec fn mentions(es: Seq<EntryView>, section: Seq<char>, key: Seq<char>) -> bool {
    exists|i: int| 0 <= i < es.len() && sets(#[trigger] es[i], section, key)
}

/// Whether a section occurs in a file.
pub open spec fn has_section(es: Seq<EntryView>, section: Seq<char>) -> bool {
    exists|i: int| 0 <= i < es.len() && section_of(#[trigger] es[i]) == section
}

/// The section of an app.
pub open spec fn app_section(pkg: Seq<char>) -> Seq<char> {
    "apps."@ + pkg
}

/// Whether a section is that of an app.
pub open spec fn is_app_section(section: Seq<char>) -> bool {
    "apps."@.is_prefix_of(section) && section.len() > "apps."@.len()
}

/// Whether a section means anything.
pub open spec fn known_section(section: Seq<char>) -> bool {
    ||| section == "general"@
    ||| section == "freeze"@
    ||| section == "whitelist"@
    ||| section == "defense"@
    ||| section == "vpn"@
    ||| section == "discard"@
    ||| is_app_section(section)
}

/// Whether a setting means anything, those of single apps aside.
pub open spec fn known_setting(section: Seq<char>, key: Seq<char>) -> bool {
    ||| section == "general"@ && key == "enabled"@
    ||| section == "general"@ && key == "grace_seconds"@
    ||| section == "general"@ && key == "cooldown_seconds"@
    ||| section == "general"@ && key == "wake_throttle_seconds"@
    ||| section == "freeze"@ && key == "force"@
    ||| section == "whitelist"@ && key == "packages"@
    ||| section == "whitelist"@ && key == "receiver_gate"@
    ||| section == "whitelist"@ && key == "keep_fg_service"@
    ||| section == "whitelist"@ && key == "keep_media"@
    ||| section == "whitelist"@ && key == "keep_location"@
    ||| section == "whitelist"@ && key == "keep_high_network"@
    ||| section == "whitelist"@ && key == "keep_network"@
    ||| section == "whitelist"@ && key == "push_policy"@
    ||| section == "defense"@ && key == "anr_protect"@
    ||| section == "defense"@ && key == "cached_app_optimizer"@
    ||| section == "vpn"@ && key == "keep_vpn"@
    ||| section == "vpn"@ && key == "packages"@
    ||| section == "discard"@ && key == "frozen_timeout_seconds"@
    ||| section == "discard"@ && key == "mem_watermark_mb"@
    ||| section == "discard"@ && key == "boot_reclaim"@
    ||| section == "discard"@ && key == "boot_reclaim_delay_seconds"@
}

proof fn lemma_without_entry(p: PolicyView, a: Seq<EntryView>, e: EntryView, b: Seq<EntryView>)
    requires
        forall|q: PolicyView| #[trigger] policy_after(q, e) == q,
    ensures
        policy_after_all(p, a + seq![e] + b) == policy_after_all(p, a + b),
    decreases b.len(),
{
    let m = a + seq![e] + b;
    if b.len() == 0 {
        assert(m.drop_last() =~= a);
        assert(a + b =~= a);
    } else {
        assert(m.drop_last() =~= a + seq![e] + b.drop_last());
        assert((a + b).drop_last() =~= a + b.drop_last());
        lemma_without_entry(p, a, e, b.drop_last());
    }
}

/// An entry of a section that is not known changes nothing, wherever it stands in the file; nor
/// does one of a key that its section does not have.
pub proof fn law_unknown_entries_change_nothing(
    a: Seq<EntryView>,
    e: EntryView,
    b: Seq<EntryView>,
    revision: u64,
)
    requires
        !known_section(section_of(e)) || (!is_app_section(section_of(e)) && !known_setting(
            section_of(e),
            e.key,
        )),
    ensures
        policy_of(a + seq![e] + b, revision) == policy_of(a + b, revision),
{
    assert forall|q: PolicyView| #[trigger] policy_after(q, e) == q by {}
    lemma_without_entry(PolicyView { revision, ..default_policy() }, a, e, b);
}

proof fn lemma_mentions(es: Seq<EntryView>)
    requires
        es.len() > 0,
    ensures
        forall|s: Seq<char>, k: Seq<char>|
            #[trigger] mentions(es, s, k) == (mentions(es.drop_last(), s, k) || sets(
                es.last(),
                s,
                k,
            )),
        forall|s: Seq<char>|
            #[trigger] has_section(es, s) == (has_section(es.drop_last(), s) || section_of(
                es.last(),
            ) == s),
{
    let d = es.drop_last();
    let e = es.last();
    assert(es[es.len() - 1] == e);
    assert forall|s: Seq<char>, k: Seq<char>| #[trigger]
        mentions(es, s, k) == (mentions(d, s, k) || sets(e, s, k)) by {
        if mentions(d, s, k) {
            let i = choose|i: int| 0 <= i < d.len() && sets(#[trigger] d[i], s, k);
            assert(sets(es[i], s, k));
        }
        if mentions(es, s, k) && !sets(e, s, k) {
            let i = choose|i: int| 0 <= i < es.len() && sets(#[trigger] es[i], s, k);
            assert(sets(d[i], s, k));
        }
    }
    assert forall|s: Seq<char>| #[trigger]
        has_section(es, s) == (has_section(d, s) || section_of(e) == s) by {
        if has_section(d, s) {
            let i = choose|i: int| 0 <= i < d.len() && section_of(#[trigger] d[i]) == s;
            assert(section_of(es[i]) == s);
        }
        if has_section(es, s) && section_of(e) != s {
            let i = choose|i: int| 0 <= i < es.len() && section_of(#[trigger] es[i]) == s;
            assert(section_of(d[i]) == s);
        }
    }
}

/// A setting that does not occur in the file has its default, and the revision is the one that
/// was given.
#[verifier::rlimit(40)]
#[verifier::spinoff_prover]
pub proof fn law_absent_settings_keep_defaults(es: Seq<EntryView>, revision: u64)
    ensures
        policy_of(es, revision).revision == revision,
        !mentions(es, "general"@, "enabled"@) ==> policy_of(es, revision).enabled
            == default_policy().enabled,
        !mentions(es, "general"@, "grace_seconds"@) ==> policy_of(es, revision).grace_seconds
            == default_policy().grace_seconds,
        !mentions(es, "general"@, "cooldown_seconds"@) ==> policy_of(es, revision).cooldown_seconds
            == default_policy().cooldown_seconds,
        !mentions(es, "general"@, "wake_throttle_seconds"@) ==> policy_of(es, revision).wake_throttle_seconds
            == default_policy().wake_throttle_seconds,
        !mentions(es, "freeze"@, "force"@) ==> policy_of(es, revision).force
            == default_policy().force,
        !mentions(es, "whitelist"@, "packages"@) ==> policy_of(es, revision).whitelist
            == default_policy().whitelist,
        !mentions(es, "whitelist"@, "receiver_gate"@) ==> policy_of(es, revision).receiver_gate
            == default_policy().receiver_gate,
        !mentions(es, "whitelist"@, "keep_fg_service"@) ==> policy_of(es, revision).keep_fg_service
            == default_policy().keep_fg_service,
        !mentions(es, "whitelist"@, "keep_media"@) ==> policy_of(es, revision).keep_media
            == default_policy().keep_media,
        !mentions(es, "whitelist"@, "keep_location"@) ==> policy_of(es, revision).keep_location
            == default_policy().keep_location,
        !mentions(es, "whitelist"@, "keep_high_network"@) ==> policy_of(es, revision).keep_high_network
            == default_policy().keep_high_network,
        !mentions(es, "whitelist"@, "keep_network"@) ==> policy_of(es, revision).keep_network
            == default_policy().keep_network,
        !mentions(es, "whitelist"@, "push_policy"@) ==> policy_of(es, revision).push_policy
            == default_policy().push_policy,
        !mentions(es, "defense"@, "anr_protect"@) ==> policy_of(es, revision).defense_anr
            == default_policy().defense_anr,
        !mentions(es, "defense"@, "cached_app_optimizer"@) ==> policy_of(es, revision).defense_cached_optimizer
            == default_policy().defense_cached_optimizer,
        !mentions(es, "vpn"@, "keep_vpn"@) ==> policy_of(es, revision).keep_vpn
            == default_policy().keep_vpn,
        !mentions(es, "vpn"@, "packages"@) ==> policy_of(es, revision).vpn_packages
            == default_policy().vpn_packages,
        !mentions(es, "discard"@, "frozen_timeout_seconds"@) ==> policy_of(es, revision).discard_frozen_timeout_seconds
            == default_policy().discard_frozen_timeout_seconds,
        !mentions(es, "discard"@, "mem_watermark_mb"@) ==> policy_of(es, revision).discard_mem_watermark_mb
            == default_policy().discard_mem_watermark_mb,
        !mentions(es, "discard"@, "boot_reclaim"@) ==> policy_of(es, revision).discard_boot_reclaim
            == default_policy().discard_boot_reclaim,
        !mentions(es, "discard"@, "boot_reclaim_delay_seconds"@) ==> policy_of(es, revision).discard_boot_reclaim_delay_seconds
            == default_policy().discard_boot_reclaim_delay_seconds,
    decreases es.len(),
{
    if es.len() > 0 {
        law_absent_settings_keep_defaults(es.drop_last(), revision);
        lemma_mentions(es);
    }
}

/// The settings of an app with those that do not occur in its section at their defaults.
pub open spec fn absent_app_settings(es: Seq<EntryView>, pkg: Seq<char>, a: AppPolicy) -> bool {
    let s = app_section(pkg);
    let d = default_app();
    &&& !mentions(es, s, "mode"@) ==> a.mode == d.mode
    &&& !mentions(es, s, "grace_seconds"@) ==> a.grace_override == d.grace_override
    &&& !mentions(es, s, "keep_fg_service"@) ==> a.keep_fg_service == d.keep_fg_service
    &&& !mentions(es, s, "keep_media"@) ==> a.keep_media == d.keep_media
    &&& !mentions(es, s, "keep_location"@) ==> a.keep_location == d.keep_location
    &&& !mentions(es, s, "keep_high_network"@) ==> a.keep_high_network == d.keep_high_network
    &&& !mentions(es, s, "keep_network"@) ==> a.keep_network == d.keep_network
    &&& !mentions(es, s, "keep_wakeup"@) ==> a.keep_wakeup == d.keep_wakeup
    &&& !mentions(es, s, "push_mode"@) ==> a.push_mode == d.push_mode
    &&& !mentions(es, s, "unfreeze_window"@) ==> a.unfreeze_window == d.unfreeze_window
}

proof fn lemma_app_section(pkg: Seq<char>, section: Seq<char>)
    requires
        is_app_section(section),
    ensures
        section == app_section(section.skip("apps."@.len() as int)),
        section == app_section(pkg) ==> section.skip("apps."@.len() as int) == pkg,
{
    let n = "apps."@.len() as int;
    assert(section =~= "apps."@ + section.skip(n)) by {
        assert("apps."@ =~= section.take(n));
    }
    if section == app_section(pkg) {
        assert(section.skip(n) =~= pkg);
    }
}

proof fn lemma_not_apps(pkg: Seq<char>)
    ensures
        is_app_section(app_section(pkg)) == (pkg.len() > 0),
        app_section(pkg) != "general"@,
        app_section(pkg) != "freeze"@,
        app_section(pkg) != "whitelist"@,
        app_section(pkg) != "defense"@,
        app_section(pkg) != "vpn"@,
        app_section(pkg) != "discard"@,
{
    reveal_strlit("apps.");
    reveal_strlit("general");
    reveal_strlit("freeze");
    reveal_strlit("whitelist");
    reveal_strlit("defense");
    reveal_strlit("vpn");
    reveal_strlit("discard");
    let s = app_section(pkg);
    assert(s[0] == 'a');
    assert(s.take(5) =~= "apps."@);
}

/// An app has settings of its own exactly where its section occurs in the file, and they are
/// listed once. Those that do not occur there have their defaults.
#[verifier::rlimit(40)]
#[verifier::spinoff_prover]
pub proof fn law_absent_app_settings(es: Seq<EntryView>, revision: u64)
    ensures
        unique_keys(policy_of(es, revision).apps),
        forall|pkg: Seq<char>| #[trigger]
            has_key(policy_of(es, revision).apps, pkg) <==> pkg.len() > 0 && has_section(
                es,
                app_section(pkg),
            ),
        forall|pkg: Seq<char>|
            (#[trigger] value_of(policy_of(es, revision).apps, pkg)) matches Some(a)
                ==> absent_app_settings(es, pkg, a),
    decreases es.len(),
{
    if es.len() == 0 {
        assert(forall|pkg: Seq<char>| !has_key(policy_of(es, revision).apps, pkg));
    } else {
        let d = es.drop_last();
        let e = es.last();
        law_absent_app_settings(d, revision);
        lemma_mentions(es);
        let before = policy_of(d, revision);
        let p = policy_of(es, revision);
        assert(p == policy_after(before, e));
        let section = section_of(e);
        if is_app_section(section) {
            let k = section.skip("apps."@.len() as int);
            lemma_app_section(k, section);
            lemma_not_apps(k);
            let a = match value_of(before.apps, k) {
                Some(a) => a,
                None => default_app(),
            };
            let b = app_after(a, e.key, e.value);
            lemma_with_key(before.apps, k, b, k);
            assert forall|pkg: Seq<char>| #[trigger]
                has_key(p.apps, pkg) <==> pkg.len() > 0 && has_section(es, app_section(pkg)) by {
                lemma_with_key(before.apps, k, b, pkg);
                lemma_app_section(pkg, section);
                assert(has_key(before.apps, pkg) <==> pkg.len() > 0 && has_section(
                    d,
                    app_section(pkg),
                ));
            }
            assert forall|pkg: Seq<char>|
                (#[trigger] value_of(p.apps, pkg)) matches Some(x) implies absent_app_settings(
                es,
                pkg,
                value_of(p.apps, pkg)->0,
            ) by {
                lemma_with_key(before.apps, k, b, pkg);
                lemma_app_section(pkg, section);
                if pkg == k {
                    assert(absent_app_settings(d, k, a));
                    assert(value_of(p.apps, pkg) == Some(b));
                } else {
                    assert(value_of(p.apps, pkg) == value_of(before.apps, pkg));
                    assert(absent_app_settings(d, pkg, value_of(before.apps, pkg)->0));
                }
            }
        } else {
            assert(p.apps == before.apps);
            assert forall|pkg: Seq<char>| #[trigger]
                has_key(p.apps, pkg) <==> pkg.len() > 0 && has_section(es, app_section(pkg)) by {
                lemma_not_apps(pkg);
                assert(has_key(before.apps, pkg) <==> pkg.len() > 0 && has_section(
                    d,
                    app_section(pkg),
                ));
            }
            assert forall|pkg: Seq<char>|
                (#[trigger] value_of(p.apps, pkg)) matches Some(x) implies absent_app_settings(
                es,
                pkg,
                value_of(p.apps, pkg)->0,
            ) by {
                assert(value_of(p.apps, pkg) == value_of(before.apps, pkg));
                assert(absent_app_settings(d, pkg, value_of(before.apps, pkg)->0));
                assert(has_key(before.apps, pkg));
                lemma_not_apps(pkg);
            }
        }
    }
}

// ---- What a file does say ----

/// Whether a switch is set as a value says; one of another type sets it as `def` does.
pub open spec fn says_switch(v: ValueView, r: bool, def: bool) -> bool {
    match v {
        ValueView::Bool(b) => r == b,
        _ => r == def,
    }
}

/// Whether a number is what a value says; a negative one counts as 0, and one of another type
/// stands for `def`.
pub open spec fn says_count(v: ValueView, r: u64, def: u64) -> bool {
    match v {
        ValueView::Int(n) => (n < 0 ==> r == 0) && (0 <= n <= u64::MAX ==> r == n),
        _ => r == def,
    }
}

/// Whether a list holds what a value says; one of another type names nothing.
pub open spec fn says_list(v: ValueView, r: Seq<Seq<char>>) -> bool {
    match v {
        ValueView::StrArray(a) => r == a,
        _ => r.len() == 0,
    }
}

/// Whether the treatment of push processes is what a value says, where that is understood.
pub open spec fn says_push(v: ValueView, r: PushMode) -> bool {
    &&& v == ValueView::Str("keep"@) ==> r == PushMode::Keep
    &&& v == ValueView::Str("kill"@) ==> r == PushMode::Kill
}

/// Whether the mode of an app is what a value says, where that is understood.
pub open spec fn says_mode(v: ValueView, r: AppMode) -> bool {
    &&& v == ValueView::Str("exempt"@) ==> r == AppMode::Exempt
    &&& v == ValueView::Str("important"@) ==> r == AppMode::Important
    &&& v == ValueView::Str("standard"@) ==> r == AppMode::Standard
    &&& v == ValueView::Str("strict"@) ==> r == AppMode::Strict
}

/// Whether the window of an app is what a value says, where that is understood.
pub open spec fn says_window(v: ValueView, r: Option<(u32, u32)>) -> bool {
    v matches ValueView::Str(t) ==> window_of(t) is Some ==> r == window_of(t)
}

/// Whether no entry behind one sets the same.
pub open spec fn has_the_last_word(es: Seq<EntryView>, i: int) -> bool {
    &&& 0 <= i < es.len()
    &&& forall|j: int|
        i < j < es.len() ==> !sets(#[trigger] es[j], section_of(es[i]), es[i].key)
}

/// Whether the policy has a setting as an entry says.
pub open spec fn obeys(p: PolicyView, e: EntryView) -> bool {
    let s = section_of(e);
    let k = e.key;
    let v = e.value;
    &&& s == "general"@ && k == "enabled"@ ==> says_switch(v, p.enabled, false)
    &&& s == "general"@ && k == "grace_seconds"@ ==> says_count(v, p.grace_seconds, 30)
    &&& s == "general"@ && k == "cooldown_seconds"@ ==> says_count(v, p.cooldown_seconds, 60)
    &&& s == "general"@ && k == "wake_throttle_seconds"@ ==> says_count(v, p.wake_throttle_seconds, 60)
    &&& s == "freeze"@ && k == "force"@ ==> says_list(v, p.force)
    &&& s == "whitelist"@ && k == "packages"@ ==> says_list(v, p.whitelist)
    &&& s == "whitelist"@ && k == "receiver_gate"@ ==> says_list(v, p.receiver_gate)
    &&& s == "whitelist"@ && k == "keep_fg_service"@ ==> says_switch(v, p.keep_fg_service, true)
    &&& s == "whitelist"@ && k == "keep_media"@ ==> says_switch(v, p.keep_media, true)
    &&& s == "whitelist"@ && k == "keep_location"@ ==> says_switch(v, p.keep_location, true)
    &&& s == "whitelist"@ && k == "keep_high_network"@ ==> says_switch(v, p.keep_high_network, true)
    &&& s == "whitelist"@ && k == "keep_network"@ ==> says_switch(v, p.keep_network, true)
    &&& s == "whitelist"@ && k == "push_policy"@ ==> says_push(v, p.push_policy)
    &&& s == "defense"@ && k == "anr_protect"@ ==> says_switch(v, p.defense_anr, false)
    &&& s == "defense"@ && k == "cached_app_optimizer"@ ==> says_switch(v, p.defense_cached_optimizer, false)
    &&& s == "vpn"@ && k == "keep_vpn"@ ==> says_switch(v, p.keep_vpn, true)
    &&& s == "vpn"@ && k == "packages"@ ==> says_list(v, p.vpn_packages)
    &&& s == "discard"@ && k == "frozen_timeout_seconds"@ ==> says_count(v, p.discard_frozen_timeout_seconds, 1800)
    &&& s == "discard"@ && k == "mem_watermark_mb"@ ==> says_count(v, p.discard_mem_watermark_mb, 512)
    &&& s == "discard"@ && k == "boot_reclaim"@ ==> says_switch(v, p.discard_boot_reclaim, true)
    &&& s == "discard"@ && k == "boot_reclaim_delay_seconds"@ ==> says_count(v, p.discard_boot_reclaim_delay_seconds, 120)
}

/// Whether the settings of an app are as an entry of its section says.
pub open spec fn app_obeys(a: AppPolicy, e: EntryView) -> bool {
    let k = e.key;
    let v = e.value;
    &&& k == "mode"@ ==> says_mode(v, a.mode)
    &&& k == "grace_seconds"@ ==> (a.grace_override matches Some(n) && says_count(v, n, 8))
    &&& k == "keep_fg_service"@ ==> (a.keep_fg_service matches Some(b) && says_switch(v, b, true))
    &&& k == "keep_media"@ ==> (a.keep_media matches Some(b) && says_switch(v, b, true))
    &&& k == "keep_location"@ ==> (a.keep_location matches Some(b) && says_switch(v, b, true))
    &&& k == "keep_high_network"@ ==> (a.keep_high_network matches Some(b) && says_switch(v, b, true))
    &&& k == "keep_network"@ ==> (a.keep_network matches Some(b) && says_switch(v, b, true))
    &&& k == "keep_wakeup"@ ==> (a.keep_wakeup matches Some(b) && says_switch(v, b, true))
    &&& k == "push_mode"@ ==> (a.push_mode matches Some(m) ==> says_push(v, m))
    &&& k == "unfreeze_window"@ ==> says_window(v, a.unfreeze_window)
}

proof fn lemma_words_differ()
    ensures
        PushMode::named("keep"@) == Some(PushMode::Keep),
        PushMode::named("kill"@) == Some(PushMode::Kill),
        AppMode::named("exempt"@) == Some(AppMode::Exempt),
        AppMode::named("important"@) == Some(AppMode::Important),
        AppMode::named("standard"@) == Some(AppMode::Standard),
        AppMode::named("strict"@) == Some(AppMode::Strict),
{
    reveal_strlit("keep");
    reveal_strlit("kill");
    reveal_strlit("exempt");
    reveal_strlit("important");
    reveal_strlit("standard");
    reveal_strlit("strict");
    assert("keep"@.len() == 4);
    assert("kill"@.len() == 4);
    assert("exempt"@.len() == 6);
    assert("important"@.len() == 9);
    assert("standard"@.len() == 8);
    assert("strict"@.len() == 6);
    assert("keep"@[1] != "kill"@[1]);
    assert("keep"@ != "kill"@);
    assert("exempt"@ != "important"@);
    assert("exempt"@ != "standard"@);
    assert("important"@ != "standard"@);
    assert("exempt"@[0] != "strict"@[0]);
    assert("exempt"@ != "strict"@);
    assert("important"@ != "strict"@);
    assert("standard"@ != "strict"@);
}

#[verifier::spinoff_prover]
#[verifier::rlimit(40)]
proof fn lemma_entry_is_obeyed(p: PolicyView, e: EntryView)
    ensures
        obeys(policy_after(p, e), e),
{
    lemma_words_differ();
    reveal_strlit("general");
    reveal_strlit("freeze");
    reveal_strlit("whitelist");
    reveal_strlit("defense");
    reveal_strlit("vpn");
    reveal_strlit("discard");
    reveal_strlit("enabled");
    reveal_strlit("grace_seconds");
    reveal_strlit("cooldown_seconds");
    reveal_strlit("wake_throttle_seconds");
    reveal_strlit("force");
    reveal_strlit("packages");
    reveal_strlit("receiver_gate");
    reveal_strlit("keep_fg_service");
    reveal_strlit("keep_media");
    reveal_strlit("keep_location");
    reveal_strlit("keep_high_network");
    reveal_strlit("keep_network");
    reveal_strlit("push_policy");
    reveal_strlit("anr_protect");
    reveal_strlit("cached_app_optimizer");
    reveal_strlit("keep_vpn");
    reveal_strlit("frozen_timeout_seconds");
    reveal_strlit("mem_watermark_mb");
    reveal_strlit("boot_reclaim");
    reveal_strlit("boot_reclaim_delay_seconds");
    assert("general"@.len() == 7);
    assert("freeze"@.len() == 6);
    assert("whitelist"@.len() == 9);
    assert("defense"@.len() == 7);
    assert("vpn"@.len() == 3);
    assert("discard"@.len() == 7);
    assert("enabled"@.len() == 7);
    assert("grace_seconds"@.len() == 13);
    assert("cooldown_seconds"@.len() == 16);
    assert("wake_throttle_seconds"@.len() == 21);
    assert("force"@.len() == 5);
    assert("packages"@.len() == 8);
    assert("receiver_gate"@.len() == 13);
    assert("keep_fg_service"@.len() == 15);
    assert("keep_media"@.len() == 10);
    assert("keep_location"@.len() == 13);
    assert("keep_high_network"@.len() == 17);
    assert("keep_network"@.len() == 12);
    assert("push_policy"@.len() == 11);
    assert("anr_protect"@.len() == 11);
    assert("cached_app_optimizer"@.len() == 20);
    assert("keep_vpn"@.len() == 8);
    assert("frozen_timeout_seconds"@.len() == 22);
    assert("mem_watermark_mb"@.len() == 16);
    assert("boot_reclaim"@.len() == 12);
    assert("boot_reclaim_delay_seconds"@.len() == 26);
    assert("general"@ != "freeze"@);
    assert("general"@ != "whitelist"@);
    assert("freeze"@ != "whitelist"@);
    assert("general"@[0] != "defense"@[0]);
    assert("general"@ != "defense"@);
    assert("freeze"@ != "defense"@);
    assert("whitelist"@ != "defense"@);
    assert("general"@ != "vpn"@);
    assert("freeze"@ != "vpn"@);
    assert("whitelist"@ != "vpn"@);
    assert("defense"@ != "vpn"@);
    assert("general"@[0] != "discard"@[0]);
    assert("general"@ != "discard"@);
    assert("freeze"@ != "discard"@);
    assert("whitelist"@ != "discard"@);
    assert("defense"@[1] != "discard"@[1]);
    assert("defense"@ != "discard"@);
    assert("vpn"@ != "discard"@);
    assert("enabled"@ != "grace_seconds"@);
    assert("enabled"@ != "cooldown_seconds"@);
    assert("grace_seconds"@ != "cooldown_seconds"@);
    assert("enabled"@ != "wake_throttle_seconds"@);
    assert("grace_seconds"@ != "wake_throttle_seconds"@);
    assert("cooldown_seconds"@ != "wake_throttle_seconds"@);
    assert("packages"@ != "receiver_gate"@);
    assert("packages"@ != "keep_fg_service"@);
    assert("receiver_gate"@ != "keep_fg_service"@);
    assert("packages"@ != "keep_media"@);
    assert("receiver_gate"@ != "keep_media"@);
    assert("keep_fg_service"@ != "keep_media"@);
    assert("packages"@ != "keep_location"@);
    assert("receiver_gate"@[0] != "keep_location"@[0]);
    assert("receiver_gate"@ != "keep_location"@);
    assert("keep_fg_service"@ != "keep_location"@);
    assert("keep_media"@ != "keep_location"@);
    assert("packages"@ != "keep_high_network"@);
    assert("receiver_gate"@ != "keep_high_network"@);
    assert("keep_fg_service"@ != "keep_high_network"@);
    assert("keep_media"@ != "keep_high_network"@);
    assert("keep_location"@ != "keep_high_network"@);
    assert("packages"@ != "keep_network"@);
    assert("receiver_gate"@ != "keep_network"@);
    assert("keep_fg_service"@ != "keep_network"@);
    assert("keep_media"@ != "keep_network"@);
    assert("keep_location"@ != "keep_network"@);
    assert("keep_high_network"@ != "keep_network"@);
    assert("packages"@ != "push_policy"@);
    assert("receiver_gate"@ != "push_policy"@);
    assert("keep_fg_service"@ != "push_policy"@);
    assert("keep_media"@ != "push_policy"@);
    assert("keep_location"@ != "push_policy"@);
    assert("keep_high_network"@ != "push_policy"@);
    assert("keep_network"@ != "push_policy"@);
    assert("anr_protect"@ != "cached_app_optimizer"@);
    assert("keep_vpn"@[0] != "packages"@[0]);
    assert("keep_vpn"@ != "packages"@);
    assert("frozen_timeout_seconds"@ != "mem_watermark_mb"@);
    assert("frozen_timeout_seconds"@ != "boot_reclaim"@);
    assert("mem_watermark_mb"@ != "boot_reclaim"@);
    assert("frozen_timeout_seconds"@ != "boot_reclaim_delay_seconds"@);
    assert("mem_watermark_mb"@ != "boot_reclaim_delay_seconds"@);
    assert("boot_reclaim"@ != "boot_reclaim_delay_seconds"@);
}

#[verifier::spinoff_prover]
#[verifier::rlimit(40)]
proof fn lemma_app_entry_is_obeyed(a: AppPolicy, e: EntryView)
    ensures
        app_obeys(app_after(a, e.key, e.value), e),
{
    lemma_words_differ();
    reveal_strlit("mode");
    reveal_strlit("grace_seconds");
    reveal_strlit("keep_fg_service");
    reveal_strlit("keep_media");
    reveal_strlit("keep_location");
    reveal_strlit("keep_high_network");
    reveal_strlit("keep_network");
    reveal_strlit("keep_wakeup");
    reveal_strlit("push_mode");
    reveal_strlit("unfreeze_window");
    assert("mode"@.len() == 4);
    assert("grace_seconds"@.len() == 13);
    assert("keep_fg_service"@.len() == 15);
    assert("keep_media"@.len() == 10);
    assert("keep_location"@.len() == 13);
    assert("keep_high_network"@.len() == 17);
    assert("keep_network"@.len() == 12);
    assert("keep_wakeup"@.len() == 11);
    assert("push_mode"@.len() == 9);
    assert("unfreeze_window"@.len() == 15);
    assert("mode"@ != "grace_seconds"@);
    assert("mode"@ != "keep_fg_service"@);
    assert("grace_seconds"@ != "keep_fg_service"@);
    assert("mode"@ != "keep_media"@);
    assert("grace_seconds"@ != "keep_media"@);
    assert("keep_fg_service"@ != "keep_media"@);
    assert("mode"@ != "keep_location"@);
    assert("grace_seconds"@[0] != "keep_location"@[0]);
    assert("grace_seconds"@ != "keep_location"@);
    assert("keep_fg_service"@ != "keep_location"@);
    assert("keep_media"@ != "keep_location"@);
    assert("mode"@ != "keep_high_network"@);
    assert("grace_seconds"@ != "keep_high_network"@);
    assert("keep_fg_service"@ != "keep_high_network"@);
    assert("keep_media"@ != "keep_high_network"@);
    assert("keep_location"@ != "keep_high_network"@);
    assert("mode"@ != "keep_network"@);
    assert("grace_seconds"@ != "keep_network"@);
    assert("keep_fg_service"@ != "keep_network"@);
    assert("keep_media"@ != "keep_network"@);
    assert("keep_location"@ != "keep_network"@);
    assert("keep_high_network"@ != "keep_network"@);
    assert("mode"@ != "keep_wakeup"@);
    assert("grace_seconds"@ != "keep_wakeup"@);
    assert("keep_fg_service"@ != "keep_wakeup"@);
    assert("keep_media"@ != "keep_wakeup"@);
    assert("keep_location"@ != "keep_wakeup"@);
    assert("keep_high_network"@ != "keep_wakeup"@);
    assert("keep_network"@ != "keep_wakeup"@);
    assert("mode"@ != "push_mode"@);
    assert("grace_seconds"@ != "push_mode"@);
    assert("keep_fg_service"@ != "push_mode"@);
    assert("keep_media"@ != "push_mode"@);
    assert("keep_location"@ != "push_mode"@);
    assert("keep_high_network"@ != "push_mode"@);
    assert("keep_network"@ != "push_mode"@);
    assert("keep_wakeup"@ != "push_mode"@);
    assert("mode"@ != "unfreeze_window"@);
    assert("grace_seconds"@ != "unfreeze_window"@);
    assert("keep_fg_service"@[0] != "unfreeze_window"@[0]);
    assert("keep_fg_service"@ != "unfreeze_window"@);
    assert("keep_media"@ != "unfreeze_window"@);
    assert("keep_location"@ != "unfreeze_window"@);
    assert("keep_high_network"@ != "unfreeze_window"@);
    assert("keep_network"@ != "unfreeze_window"@);
    assert("keep_wakeup"@ != "unfreeze_window"@);
    assert("push_mode"@ != "unfreeze_window"@);
}

#[verifier::spinoff_prover]
#[verifier::rlimit(60)]
proof fn lemma_other_entries_keep(p: PolicyView, e: EntryView, x: EntryView)
    requires
        obeys(p, x),
        !sets(e, section_of(x), x.key),
    ensures
        obeys(policy_after(p, e), x),
{
    let q = policy_after(p, e);
    if section_of(e) != section_of(x) {
        if section_of(x) == "general"@ {
            assert(q.enabled == p.enabled);
            assert(q.grace_seconds == p.grace_seconds);
            assert(q.cooldown_seconds == p.cooldown_seconds);
            assert(q.wake_throttle_seconds == p.wake_throttle_seconds);
        }
        if section_of(x) == "freeze"@ {
            assert(q.force == p.force);
        }
        if section_of(x) == "whitelist"@ {
            assert(q.whitelist == p.whitelist);
            assert(q.receiver_gate == p.receiver_gate);
            assert(q.keep_fg_service == p.keep_fg_service);
            assert(q.keep_media == p.keep_media);
            assert(q.keep_location == p.keep_location);
            assert(q.keep_high_network == p.keep_high_network);
            assert(q.keep_network == p.keep_network);
            assert(q.push_policy == p.push_policy);
        }
        if section_of(x) == "defense"@ {
            assert(q.defense_anr == p.defense_anr);
            assert(q.defense_cached_optimizer == p.defense_cached_optimizer);
        }
        if section_of(x) == "vpn"@ {
            assert(q.keep_vpn == p.keep_vpn);
            assert(q.vpn_packages == p.vpn_packages);
        }
        if section_of(x) == "discard"@ {
            assert(q.discard_frozen_timeout_seconds == p.discard_frozen_timeout_seconds);
            assert(q.discard_mem_watermark_mb == p.discard_mem_watermark_mb);
            assert(q.discard_boot_reclaim == p.discard_boot_reclaim);
            assert(q.discard_boot_reclaim_delay_seconds == p.discard_boot_reclaim_delay_seconds);
        }
    } else {
        if section_of(x) == "general"@ {
            assert(x.key == "enabled"@ ==> q.enabled == p.enabled);
            assert(x.key == "grace_seconds"@ ==> q.grace_seconds == p.grace_seconds);
            assert(x.key == "cooldown_seconds"@ ==> q.cooldown_seconds == p.cooldown_seconds);
            assert(x.key == "wake_throttle_seconds"@ ==> q.wake_throttle_seconds == p.wake_throttle_seconds);
        }
        if section_of(x) == "freeze"@ {
            assert(x.key == "force"@ ==> q.force == p.force);
        }
        if section_of(x) == "whitelist"@ {
            assert(x.key == "packages"@ ==> q.whitelist == p.whitelist);
            assert(x.key == "receiver_gate"@ ==> q.receiver_gate == p.receiver_gate);
            assert(x.key == "keep_fg_service"@ ==> q.keep_fg_service == p.keep_fg_service);
            assert(x.key == "keep_media"@ ==> q.keep_media == p.keep_media);
            assert(x.key == "keep_location"@ ==> q.keep_location == p.keep_location);
            assert(x.key == "keep_high_network"@ ==> q.keep_high_network == p.keep_high_network);
            assert(x.key == "keep_network"@ ==> q.keep_network == p.keep_network);
            assert(x.key == "push_policy"@ ==> q.push_policy == p.push_policy);
        }
        if section_of(x) == "defense"@ {
            assert(x.key == "anr_protect"@ ==> q.defense_anr == p.defense_anr);
            assert(x.key == "cached_app_optimizer"@ ==> q.defense_cached_optimizer == p.defense_cached_optimizer);
        }
        if section_of(x) == "vpn"@ {
            assert(x.key == "keep_vpn"@ ==> q.keep_vpn == p.keep_vpn);
            assert(x.key == "packages"@ ==> q.vpn_packages == p.vpn_packages);
        }
        if section_of(x) == "discard"@ {
            assert(x.key == "frozen_timeout_seconds"@ ==> q.discard_frozen_timeout_seconds == p.discard_frozen_timeout_seconds);
            assert(x.key == "mem_watermark_mb"@ ==> q.discard_mem_watermark_mb == p.discard_mem_watermark_mb);
            assert(x.key == "boot_reclaim"@ ==> q.discard_boot_reclaim == p.discard_boot_reclaim);
            assert(x.key == "boot_reclaim_delay_seconds"@ ==> q.discard_boot_reclaim_delay_seconds == p.discard_boot_reclaim_delay_seconds);
        }
    }
}

/// Every setting of the policy is as the last entry of the file that sets it says.
pub proof fn law_present_settings_take_effect(es: Seq<EntryView>, revision: u64, i: int)
    requires
        has_the_last_word(es, i),
    ensures
        obeys(policy_of(es, revision), es[i]),
    decreases es.len(),
{
    let d = es.drop_last();
    let e = es.last();
    let before = policy_of(d, revision);
    if i == es.len() - 1 {
        lemma_entry_is_obeyed(before, e);
    } else {
        assert forall|j: int| i < j < d.len() implies !sets(
            #[trigger] d[j],
            section_of(d[i]),
            d[i].key,
        ) by {
            assert(d[j] == es[j]);
        }
        law_present_settings_take_effect(d, revision, i);
        assert(es[es.len() - 1] == e);
        lemma_other_entries_keep(before, e, es[i]);
    }
}

/// Every setting of an app is as the last entry of its section that sets it says.
#[verifier::spinoff_prover]
#[verifier::rlimit(40)]
pub proof fn law_present_app_settings_take_effect(
    es: Seq<EntryView>,
    revision: u64,
    pkg: Seq<char>,
    i: int,
)
    requires
        has_the_last_word(es, i),
        pkg.len() > 0,
        section_of(es[i]) == app_section(pkg),
    ensures
        value_of(policy_of(es, revision).apps, pkg) matches Some(a) && app_obeys(a, es[i]),
    decreases es.len(),
{
    let d = es.drop_last();
    let e = es.last();
    let before = policy_of(d, revision);
    let section = section_of(e);
    lemma_not_apps(pkg);
    assert(es[es.len() - 1] == e);
    if is_app_section(section) {
        let k = section.skip("apps."@.len() as int);
        lemma_app_section(pkg, section);
        lemma_not_apps(k);
        let a = match value_of(before.apps, k) {
            Some(a) => a,
            None => default_app(),
        };
        lemma_with_key(before.apps, k, app_after(a, e.key, e.value), pkg);
        if i == es.len() - 1 {
            lemma_app_entry_is_obeyed(a, e);
        }
    }
    if i < es.len() - 1 {
        assert forall|j: int| i < j < d.len() implies !sets(
            #[trigger] d[j],
            section_of(d[i]),
            d[i].key,
        ) by {
            assert(d[j] == es[j]);
        }
        law_present_app_settings_take_effect(d, revision, pkg, i);
        assert(!sets(e, section_of(es[i]), es[i].key));
    }
}

} // verus!
