//! What the reports say: behind every key stands the value that it names.

use vstd::prelude::*;
use crate::analyze::SuggestionView;
use crate::capability::CapabilityView;
use crate::engine_rules::{known_uids, managed_names};
use crate::engine_state::{Counters, EngineView};
use crate::events::{escaped, event_json, EventView};
use crate::json::{match_text, number_array, opt_quoted, string_array};
use crate::names::{has_key, key_index, keys_of, lemma_key_index, value_of};
use crate::order::{ascending, law_sorted_texts, sorted_set, sorted_texts};
use crate::policy::PolicyView;
use crate::preset::{Preset, PresetsView};
use crate::profile::ProfileView;
use crate::rules::{RuleView, RulesView};
use crate::sock::{bridge_answer, dex_answer, probe_answer, CommandEnvView};
use crate::sock_admin::{
    policy_reloaded, policy_status, preset_dropped, preset_fields, preset_item, preset_items,
    preset_list, preset_set, rules_answer,
};
use crate::sock_reports::{
    advice_answer, advice_text, capability_text, opt_string_text, raw_text, source_text,
    sources_text, string_text, top_text, usage_text,
};
use crate::state::{
    build_of, status_counts, status_head, status_policy, status_probe, status_tail, status_text,
    uptime, DaemonView,
};
use crate::text::{bool_text, dec, is_digit, lemma_dec_value};

verus! {

// ---- Where a value stands ----

pub open spec fn stands_at(
    text: Seq<char>,
    a: Seq<char>,
    key: Seq<char>,
    value: Seq<char>,
    b: Seq<char>,
) -> bool {
    text == a + key + value + b
}

/// Whether a value ends where `b` begins.
pub open spec fn ends(b: Seq<char>) -> bool {
    b.len() > 0 && (b[0] == ',' || b[0] == '}' || b[0] == '"')
}

/// Whether a text has the key, and behind it the value and nothing more of it.
pub open spec fn tells(text: Seq<char>, key: Seq<char>, value: Seq<char>) -> bool {
    exists|a: Seq<char>, b: Seq<char>| #[trigger] stands_at(text, a, key, value, b) && ends(b)
}

broadcast proof fn ends_longer(b: Seq<char>, c: Seq<char>)
    requires
        ends(b),
    ensures
        #[trigger] ends(b + c),
{
    assert((b + c)[0] == b[0]);
}

broadcast proof fn tells_here(a: Seq<char>, key: Seq<char>, value: Seq<char>, b: Seq<char>)
    requires
        ends(b),
    ensures
        #[trigger] tells(a + key + value + b, key, value),
{
    assert(stands_at(a + key + value + b, a, key, value, b));
}

broadcast proof fn tells_first(key: Seq<char>, value: Seq<char>, b: Seq<char>)
    requires
        ends(b),
    ensures
        #[trigger] tells(key + value + b, key, value),
{
    let a = Seq::<char>::empty();
    assert(a + key + value + b =~= key + value + b);
    assert(stands_at(key + value + b, a, key, value, b));
}

broadcast proof fn tells_before(x: Seq<char>, y: Seq<char>, key: Seq<char>, value: Seq<char>)
    requires
        tells(x, key, value),
    ensures
        #[trigger] tells(x + y, key, value),
{
    let (a, b) = choose|a: Seq<char>, b: Seq<char>| #[trigger]
        stands_at(x, a, key, value, b) && ends(b);
    assert(a + key + value + (b + y) =~= x + y);
    assert(stands_at(x + y, a, key, value, b + y));
    ends_longer(b, y);
}

broadcast proof fn tells_behind(x: Seq<char>, y: Seq<char>, key: Seq<char>, value: Seq<char>)
    requires
        tells(y, key, value),
    ensures
        #[trigger] tells(x + y, key, value),
{
    let (a, b) = choose|a: Seq<char>, b: Seq<char>| #[trigger]
        stands_at(y, a, key, value, b) && ends(b);
    assert((x + a) + key + value + b =~= x + y);
    assert(stands_at(x + y, x + a, key, value, b));
}

broadcast group group_tells {
    ends_longer,
    tells_here,
    tells_first,
    tells_before,
}

/// Whether a text ends with the key and the value.
pub open spec fn finishes(text: Seq<char>, key: Seq<char>, value: Seq<char>) -> bool {
    exists|a: Seq<char>| #[trigger] stands_at(text, a, key, value, Seq::empty())
}

broadcast proof fn finishes_here(a: Seq<char>, key: Seq<char>, value: Seq<char>)
    ensures
        #[trigger] finishes(a + key + value, key, value),
{
    assert(a + key + value + Seq::<char>::empty() =~= a + key + value);
    assert(stands_at(a + key + value, a, key, value, Seq::empty()));
}

proof fn lemma_tells_last(x: Seq<char>, c: Seq<char>, y: Seq<char>, key: Seq<char>, value: Seq<char>)
    requires
        finishes(c, key, value),
        ends(y),
    ensures
        tells(x + c + y, key, value),
{
    let a = choose|a: Seq<char>| #[trigger] stands_at(c, a, key, value, Seq::empty());
    assert((x + a) + key + value + y =~= x + c + y);
    assert(stands_at(x + c + y, x + a, key, value, y));
}

/// What a part of the status tells, the status tells.
proof fn lemma_part_of_status(d: DaemonView, now: u64, pid: u32, key: Seq<char>, value: Seq<char>)
    requires
        tells(status_head(pid), key, value) || tells(status_probe(d), key, value) || tells(
            status_policy(d.engine),
            key,
            value,
        ) || tells(status_counts(d.engine), key, value) || tells(status_tail(d, now), key, value),
    ensures
        tells(status_text(d, now, pid), key, value),
{
    let h = status_head(pid);
    let p = status_probe(d);
    let q = status_policy(d.engine);
    let c = status_counts(d.engine);
    let t = status_tail(d, now);
    if tells(h, key, value) {
        tells_before(h, p, key, value);
        tells_before(h + p, q, key, value);
        tells_before(h + p + q, c, key, value);
        tells_before(h + p + q + c, t, key, value);
    } else if tells(p, key, value) {
        tells_behind(h, p, key, value);
        tells_before(h + p, q, key, value);
        tells_before(h + p + q, c, key, value);
        tells_before(h + p + q + c, t, key, value);
    } else if tells(q, key, value) {
        tells_behind(h + p, q, key, value);
        tells_before(h + p + q, c, key, value);
        tells_before(h + p + q + c, t, key, value);
    } else if tells(c, key, value) {
        tells_behind(h + p + q, c, key, value);
        tells_before(h + p + q + c, t, key, value);
    } else {
        tells_behind(h + p + q + c, t, key, value);
    }
}

// ---- The status ----

#[verifier::rlimit(30)]
#[verifier::spinoff_prover]
proof fn lemma_status_counts(s: EngineView)
    ensures
        tells(status_counts(s), ",\"freeze_ops\":"@, dec(s.counters.freeze_ops as nat)),
        tells(status_counts(s), ",\"unfreeze_ops\":"@, dec(s.counters.unfreeze_ops as nat)),
        tells(status_counts(s), ",\"wakeup_thaws\":"@, dec(s.counters.wakeup_thaws as nat)),
        tells(status_counts(s), ",\"wake_throttled\":"@, dec(s.counters.wake_throttled as nat)),
        tells(status_counts(s), ",\"discard_ops\":"@, dec(s.counters.discard_ops as nat)),
        tells(status_counts(s), ",\"discard_reasons\":{\"frozen_timeout\":"@, dec(s.counters.discard_frozen_timeout as nat)),
        tells(status_counts(s), ",\"mem_watermark\":"@, dec(s.counters.discard_mem_watermark as nat)),
        tells(status_counts(s), ",\"boot_reclaim\":"@, dec(s.counters.discard_boot_reclaim as nat)),
        tells(status_counts(s), "},\"discarded_packages\":"@, string_array(s.discarded)),
{
    broadcast use group_tells;

    reveal_strlit(",\"unfreeze_ops\":");
    assert(ends(",\"unfreeze_ops\":"@));
    reveal_strlit(",\"wakeup_thaws\":");
    assert(ends(",\"wakeup_thaws\":"@));
    reveal_strlit(",\"wake_throttled\":");
    assert(ends(",\"wake_throttled\":"@));
    reveal_strlit(",\"discard_ops\":");
    assert(ends(",\"discard_ops\":"@));
    reveal_strlit(",\"discard_reasons\":{\"frozen_timeout\":");
    assert(ends(",\"discard_reasons\":{\"frozen_timeout\":"@));
    reveal_strlit(",\"mem_watermark\":");
    assert(ends(",\"mem_watermark\":"@));
    reveal_strlit(",\"boot_reclaim\":");
    assert(ends(",\"boot_reclaim\":"@));
    reveal_strlit("},\"discarded_packages\":");
    assert(ends("},\"discarded_packages\":"@));
    reveal_strlit(",\"discard_timeout_s\":");
    assert(ends(",\"discard_timeout_s\":"@));
}

#[verifier::rlimit(30)]
#[verifier::spinoff_prover]
proof fn lemma_status_policy(s: EngineView)
    ensures
        tells(status_policy(s), ",\"policy_enabled\":"@, bool_text(s.policy.enabled)),
        tells(status_policy(s), ",\"policy_revision\":"@, dec(s.policy.revision as nat)),
        tells(status_policy(s), ",\"policy_apps\":"@, dec(s.policy.apps.len())),
        tells(status_policy(s), ",\"events_count\":"@, dec(s.log.events.len())),
        tells(status_policy(s), ",\"events_total\":"@, dec(s.log.total as nat)),
        tells(status_policy(s), ",\"frozen_packages\":"@, string_array(sorted_texts(keys_of(s.frozen)))),
{
    broadcast use group_tells;

    reveal_strlit(",\"policy_revision\":");
    assert(ends(",\"policy_revision\":"@));
    reveal_strlit(",\"policy_apps\":");
    assert(ends(",\"policy_apps\":"@));
    reveal_strlit(",\"events_count\":");
    assert(ends(",\"events_count\":"@));
    reveal_strlit(",\"events_total\":");
    assert(ends(",\"events_total\":"@));
    reveal_strlit(",\"frozen_packages\":");
    assert(ends(",\"frozen_packages\":"@));
    reveal_strlit(",\"grace_pending\":");
    assert(ends(",\"grace_pending\":"@));
}

#[verifier::rlimit(30)]
#[verifier::spinoff_prover]
proof fn lemma_status_probe(d: DaemonView)
    ensures
        tells(status_probe(d), "\"probe_stub_loaded\":"@, (if d.probe is Some { "1"@ } else { "0"@ })),
        tells(status_probe(d), ",\"probe_stub_build_hash\":"@, opt_quoted(build_of(d.probe))),
        tells(status_probe(d), ",\"probe_dex_version\":"@, opt_quoted(build_of(d.dex))),
        tells(status_probe(d), ",\"probe_dex_hash_match\":"@, match_text(d.expected_dex_hash, build_of(d.dex))),
        tells(status_probe(d), ",\"probe_hook_bridge_hash\":"@, opt_quoted(build_of(d.hook_bridge))),
        tells(status_probe(d), ",\"probe_hook_bridge_hash_match\":"@, match_text(d.expected_hook_hash, build_of(d.hook_bridge))),
        tells(status_probe(d), ",\"focus_pkg\":"@, opt_quoted(d.last_focus_pkg)),
        tells(status_probe(d), ",\"focus_changes\":"@, dec(d.focus_changes as nat)),
{
    broadcast use group_tells;

    reveal_strlit(",\"probe_stub_build_hash\":");
    assert(ends(",\"probe_stub_build_hash\":"@));
    reveal_strlit(",\"probe_dex_version\":");
    assert(ends(",\"probe_dex_version\":"@));
    reveal_strlit(",\"probe_dex_hash_match\":");
    assert(ends(",\"probe_dex_hash_match\":"@));
    reveal_strlit(",\"probe_hook_bridge_hash\":");
    assert(ends(",\"probe_hook_bridge_hash\":"@));
    reveal_strlit(",\"probe_hook_bridge_hash_match\":");
    assert(ends(",\"probe_hook_bridge_hash_match\":"@));
    reveal_strlit(",\"focus_pkg\":");
    assert(ends(",\"focus_pkg\":"@));
    reveal_strlit(",\"focus_changes\":");
    assert(ends(",\"focus_changes\":"@));
    reveal_strlit(",\"wakeup_events\":");
    assert(ends(",\"wakeup_events\":"@));
}

#[verifier::rlimit(30)]
#[verifier::spinoff_prover]
proof fn lemma_status_tail(d: DaemonView, now: u64)
    ensures
        tells(status_tail(d, now), ",\"uptime_s\":"@, dec(uptime(d, now) as nat)),
        tells(status_tail(d, now), ",\"config_reloads\":"@, dec(d.config_reloads as nat)),
        tells(status_tail(d, now), ",\"connections_served\":"@, dec(d.connections_served as nat)),
{
    broadcast use group_tells;

    reveal_strlit(",\"config_reloads\":");
    assert(ends(",\"config_reloads\":"@));
    reveal_strlit(",\"connections_served\":");
    assert(ends(",\"connections_served\":"@));
    reveal_strlit("}");
    assert(ends("}"@));
}

#[verifier::rlimit(30)]
#[verifier::spinoff_prover]
proof fn lemma_status_head(pid: u32)
    ensures
        tells(status_head(pid), ",\"daemon_running\":1,\"daemon_pid\":"@, dec(pid as nat)),
{
    broadcast use group_tells;

    reveal_strlit(",\"daemon_ready\":1,\"zygisk_provider\":null,");
    assert(ends(",\"daemon_ready\":1,\"zygisk_provider\":null,"@));
}

/// The status tells every counter of the engine behind its own key: freezes, thaws, thaws by
/// wakeups, throttled wakeups, and discards in all and by reason; and which packages were
/// discarded last, and after what time frozen packages are.
pub proof fn law_status_tells_the_counters(d: DaemonView, now: u64, pid: u32)
    ensures
        tells(status_text(d, now, pid), ",\"freeze_ops\":"@, dec(d.engine.counters.freeze_ops as nat)),
        tells(status_text(d, now, pid), ",\"unfreeze_ops\":"@, dec(d.engine.counters.unfreeze_ops as nat)),
        tells(status_text(d, now, pid), ",\"wakeup_thaws\":"@, dec(d.engine.counters.wakeup_thaws as nat)),
        tells(status_text(d, now, pid), ",\"wake_throttled\":"@, dec(d.engine.counters.wake_throttled as nat)),
        tells(status_text(d, now, pid), ",\"discard_ops\":"@, dec(d.engine.counters.discard_ops as nat)),
        tells(status_text(d, now, pid), ",\"discard_reasons\":{\"frozen_timeout\":"@, dec(d.engine.counters.discard_frozen_timeout as nat)),
        tells(status_text(d, now, pid), ",\"mem_watermark\":"@, dec(d.engine.counters.discard_mem_watermark as nat)),
        tells(status_text(d, now, pid), ",\"boot_reclaim\":"@, dec(d.engine.counters.discard_boot_reclaim as nat)),
        tells(status_text(d, now, pid), "},\"discarded_packages\":"@, string_array(d.engine.discarded)),
        tells(status_text(d, now, pid), ",\"discard_timeout_s\":"@, dec(d.engine.policy.discard_frozen_timeout_seconds as nat)),
{
    lemma_status_counts(d.engine);
    lemma_part_of_status(d, now, pid, ",\"freeze_ops\":"@, dec(d.engine.counters.freeze_ops as nat));
    lemma_part_of_status(d, now, pid, ",\"unfreeze_ops\":"@, dec(d.engine.counters.unfreeze_ops as nat));
    lemma_part_of_status(d, now, pid, ",\"wakeup_thaws\":"@, dec(d.engine.counters.wakeup_thaws as nat));
    lemma_part_of_status(d, now, pid, ",\"wake_throttled\":"@, dec(d.engine.counters.wake_throttled as nat));
    lemma_part_of_status(d, now, pid, ",\"discard_ops\":"@, dec(d.engine.counters.discard_ops as nat));
    lemma_part_of_status(d, now, pid, ",\"discard_reasons\":{\"frozen_timeout\":"@, dec(d.engine.counters.discard_frozen_timeout as nat));
    lemma_part_of_status(d, now, pid, ",\"mem_watermark\":"@, dec(d.engine.counters.discard_mem_watermark as nat));
    lemma_part_of_status(d, now, pid, ",\"boot_reclaim\":"@, dec(d.engine.counters.discard_boot_reclaim as nat));
    lemma_part_of_status(d, now, pid, "},\"discarded_packages\":"@, string_array(d.engine.discarded));
    reveal_strlit(",\"uptime_s\":");
    assert(ends(status_tail(d, now))) by {
        broadcast use ends_longer;

        assert(ends(",\"uptime_s\":"@));
    }
    assert(finishes(status_counts(d.engine), ",\"discard_timeout_s\":"@, dec(d.engine.policy.discard_frozen_timeout_seconds as nat))) by {
        broadcast use finishes_here;

    }
    lemma_tells_last(status_head(pid) + status_probe(d) + status_policy(d.engine), status_counts(d.engine), status_tail(d, now), ",\"discard_timeout_s\":"@, dec(d.engine.policy.discard_frozen_timeout_seconds as nat));
}

/// The status tells what the policy is, how many events there are and were, and which packages
/// are frozen and which wait to be.
pub proof fn law_status_tells_the_policy(d: DaemonView, now: u64, pid: u32)
    ensures
        tells(status_text(d, now, pid), ",\"policy_enabled\":"@, bool_text(d.engine.policy.enabled)),
        tells(status_text(d, now, pid), ",\"policy_revision\":"@, dec(d.engine.policy.revision as nat)),
        tells(status_text(d, now, pid), ",\"policy_apps\":"@, dec(d.engine.policy.apps.len())),
        tells(status_text(d, now, pid), ",\"events_count\":"@, dec(d.engine.log.events.len())),
        tells(status_text(d, now, pid), ",\"events_total\":"@, dec(d.engine.log.total as nat)),
        tells(status_text(d, now, pid), ",\"frozen_packages\":"@, string_array(sorted_texts(keys_of(d.engine.frozen)))),
        tells(status_text(d, now, pid), ",\"grace_pending\":"@, string_array(sorted_texts(keys_of(d.engine.grace)))),
{
    lemma_status_policy(d.engine);
    lemma_part_of_status(d, now, pid, ",\"policy_enabled\":"@, bool_text(d.engine.policy.enabled));
    lemma_part_of_status(d, now, pid, ",\"policy_revision\":"@, dec(d.engine.policy.revision as nat));
    lemma_part_of_status(d, now, pid, ",\"policy_apps\":"@, dec(d.engine.policy.apps.len()));
    lemma_part_of_status(d, now, pid, ",\"events_count\":"@, dec(d.engine.log.events.len()));
    lemma_part_of_status(d, now, pid, ",\"events_total\":"@, dec(d.engine.log.total as nat));
    lemma_part_of_status(d, now, pid, ",\"frozen_packages\":"@, string_array(sorted_texts(keys_of(d.engine.frozen))));
    reveal_strlit(",\"freeze_ops\":");
    assert(ends(status_counts(d.engine))) by {
        broadcast use ends_longer;

        assert(ends(",\"freeze_ops\":"@));
    }
    assert(finishes(status_policy(d.engine), ",\"grace_pending\":"@, string_array(sorted_texts(keys_of(d.engine.grace))))) by {
        broadcast use finishes_here;

    }
    lemma_tells_last(status_head(pid) + status_probe(d), status_policy(d.engine), status_counts(d.engine), ",\"grace_pending\":"@, string_array(sorted_texts(keys_of(d.engine.grace))));
    tells_before(status_head(pid) + status_probe(d) + status_policy(d.engine) + status_counts(d.engine), status_tail(d, now), ",\"grace_pending\":"@, string_array(sorted_texts(keys_of(d.engine.grace))));
}

/// The status tells what the probes reported, whether that is what was expected of them, and
/// how often the foreground changed and wakeups came.
pub proof fn law_status_tells_the_probes(d: DaemonView, now: u64, pid: u32)
    ensures
        tells(status_text(d, now, pid), "\"probe_stub_loaded\":"@, (if d.probe is Some { "1"@ } else { "0"@ })),
        tells(status_text(d, now, pid), ",\"probe_stub_build_hash\":"@, opt_quoted(build_of(d.probe))),
        tells(status_text(d, now, pid), ",\"probe_dex_version\":"@, opt_quoted(build_of(d.dex))),
        tells(status_text(d, now, pid), ",\"probe_dex_hash_match\":"@, match_text(d.expected_dex_hash, build_of(d.dex))),
        tells(status_text(d, now, pid), ",\"probe_hook_bridge_hash\":"@, opt_quoted(build_of(d.hook_bridge))),
        tells(status_text(d, now, pid), ",\"probe_hook_bridge_hash_match\":"@, match_text(d.expected_hook_hash, build_of(d.hook_bridge))),
        tells(status_text(d, now, pid), ",\"focus_pkg\":"@, opt_quoted(d.last_focus_pkg)),
        tells(status_text(d, now, pid), ",\"focus_changes\":"@, dec(d.focus_changes as nat)),
        tells(status_text(d, now, pid), ",\"wakeup_events\":"@, dec(d.wakeup_events as nat)),
{
    lemma_status_probe(d);
    lemma_part_of_status(d, now, pid, "\"probe_stub_loaded\":"@, (if d.probe is Some { "1"@ } else { "0"@ }));
    lemma_part_of_status(d, now, pid, ",\"probe_stub_build_hash\":"@, opt_quoted(build_of(d.probe)));
    lemma_part_of_status(d, now, pid, ",\"probe_dex_version\":"@, opt_quoted(build_of(d.dex)));
    lemma_part_of_status(d, now, pid, ",\"probe_dex_hash_match\":"@, match_text(d.expected_dex_hash, build_of(d.dex)));
    lemma_part_of_status(d, now, pid, ",\"probe_hook_bridge_hash\":"@, opt_quoted(build_of(d.hook_bridge)));
    lemma_part_of_status(d, now, pid, ",\"probe_hook_bridge_hash_match\":"@, match_text(d.expected_hook_hash, build_of(d.hook_bridge)));
    lemma_part_of_status(d, now, pid, ",\"focus_pkg\":"@, opt_quoted(d.last_focus_pkg));
    lemma_part_of_status(d, now, pid, ",\"focus_changes\":"@, dec(d.focus_changes as nat));
    reveal_strlit(",\"policy_enabled\":");
    assert(ends(status_policy(d.engine))) by {
        broadcast use ends_longer;

        assert(ends(",\"policy_enabled\":"@));
    }
    assert(finishes(status_probe(d), ",\"wakeup_events\":"@, dec(d.wakeup_events as nat))) by {
        broadcast use finishes_here;

    }
    lemma_tells_last(status_head(pid), status_probe(d), status_policy(d.engine), ",\"wakeup_events\":"@, dec(d.wakeup_events as nat));
    tells_before(status_head(pid) + status_probe(d) + status_policy(d.engine), status_counts(d.engine), ",\"wakeup_events\":"@, dec(d.wakeup_events as nat));
    tells_before(status_head(pid) + status_probe(d) + status_policy(d.engine) + status_counts(d.engine), status_tail(d, now), ",\"wakeup_events\":"@, dec(d.wakeup_events as nat));
}

/// The status tells the process of the daemon, how long it has been up, and how often it reread
/// the configuration and was talked to.
pub proof fn law_status_tells_the_daemon(d: DaemonView, now: u64, pid: u32)
    ensures
        tells(status_text(d, now, pid), ",\"daemon_running\":1,\"daemon_pid\":"@, dec(pid as nat)),
        tells(status_text(d, now, pid), ",\"uptime_s\":"@, dec(uptime(d, now) as nat)),
        tells(status_text(d, now, pid), ",\"config_reloads\":"@, dec(d.config_reloads as nat)),
        tells(status_text(d, now, pid), ",\"connections_served\":"@, dec(d.connections_served as nat)),
{
    lemma_status_tail(d, now);
    lemma_status_head(pid);
    lemma_part_of_status(d, now, pid, ",\"daemon_running\":1,\"daemon_pid\":"@, dec(pid as nat));
    lemma_part_of_status(d, now, pid, ",\"uptime_s\":"@, dec(uptime(d, now) as nat));
    lemma_part_of_status(d, now, pid, ",\"config_reloads\":"@, dec(d.config_reloads as nat));
    lemma_part_of_status(d, now, pid, ",\"connections_served\":"@, dec(d.connections_served as nat));
}

// ---- Other reports ----

/// The report on the policy tells its parameters and lists, what is frozen and what waits, the
/// counters, and the package in the foreground.
#[verifier::rlimit(30)]
#[verifier::spinoff_prover]
pub proof fn law_policy_report_tells(s: EngineView)
    ensures
        tells(policy_status(s), "{\"ok\":1,\"enabled\":"@, bool_text(s.policy.enabled)),
        tells(policy_status(s), ",\"revision\":"@, dec(s.policy.revision as nat)),
        tells(policy_status(s), ",\"grace_seconds\":"@, dec(s.policy.grace_seconds as nat)),
        tells(policy_status(s), ",\"cooldown_seconds\":"@, dec(s.policy.cooldown_seconds as nat)),
        tells(policy_status(s), ",\"whitelist\":"@, string_array(s.policy.whitelist)),
        tells(policy_status(s), ",\"force\":"@, string_array(s.policy.force)),
        tells(policy_status(s), ",\"frozen_packages\":"@, string_array(sorted_texts(keys_of(s.frozen)))),
        tells(policy_status(s), ",\"grace_pending\":"@, string_array(sorted_texts(keys_of(s.grace)))),
        tells(policy_status(s), ",\"freeze_ops\":"@, dec(s.counters.freeze_ops as nat)),
        tells(policy_status(s), ",\"unfreeze_ops\":"@, dec(s.counters.unfreeze_ops as nat)),
        tells(policy_status(s), ",\"wakeup_thaws\":"@, dec(s.counters.wakeup_thaws as nat)),
        tells(policy_status(s), ",\"last_focus\":"@, opt_quoted(s.last_focus)),
{
    broadcast use group_tells;

    reveal_strlit(",\"revision\":");
    assert(ends(",\"revision\":"@));
    reveal_strlit(",\"grace_seconds\":");
    assert(ends(",\"grace_seconds\":"@));
    reveal_strlit(",\"cooldown_seconds\":");
    assert(ends(",\"cooldown_seconds\":"@));
    reveal_strlit(",\"whitelist\":");
    assert(ends(",\"whitelist\":"@));
    reveal_strlit(",\"force\":");
    assert(ends(",\"force\":"@));
    reveal_strlit(",\"frozen_packages\":");
    assert(ends(",\"frozen_packages\":"@));
    reveal_strlit(",\"grace_pending\":");
    assert(ends(",\"grace_pending\":"@));
    reveal_strlit(",\"freeze_ops\":");
    assert(ends(",\"freeze_ops\":"@));
    reveal_strlit(",\"unfreeze_ops\":");
    assert(ends(",\"unfreeze_ops\":"@));
    reveal_strlit(",\"wakeup_thaws\":");
    assert(ends(",\"wakeup_thaws\":"@));
    reveal_strlit(",\"last_focus\":");
    assert(ends(",\"last_focus\":"@));
    reveal_strlit("}");
    assert(ends("}"@));
}

/// What is told of a preset are its parameters.
#[verifier::rlimit(30)]
#[verifier::spinoff_prover]
pub proof fn law_preset_report_tells(enabled: bool, grace: u64, cooldown: u64, fg: bool, media: bool)
    ensures
        tells(preset_fields(enabled, grace, cooldown, fg, media), "\",\"enabled\":"@, bool_text(enabled)),
        tells(preset_fields(enabled, grace, cooldown, fg, media), ",\"grace_seconds\":"@, dec(grace as nat)),
        tells(preset_fields(enabled, grace, cooldown, fg, media), ",\"cooldown_seconds\":"@, dec(cooldown as nat)),
        tells(preset_fields(enabled, grace, cooldown, fg, media), ",\"keep_fg_service\":"@, bool_text(fg)),
        tells(preset_fields(enabled, grace, cooldown, fg, media), ",\"keep_media\":"@, bool_text(media)),
{
    broadcast use group_tells;

    reveal_strlit(",\"grace_seconds\":");
    assert(ends(",\"grace_seconds\":"@));
    reveal_strlit(",\"cooldown_seconds\":");
    assert(ends(",\"cooldown_seconds\":"@));
    reveal_strlit(",\"keep_fg_service\":");
    assert(ends(",\"keep_fg_service\":"@));
    reveal_strlit(",\"keep_media\":");
    assert(ends(",\"keep_media\":"@));
    reveal_strlit("}");
    assert(ends("}"@));
}

/// A preset in the list, and one that was applied, is told with its own parameters.
pub proof fn law_presets_are_told(name: Seq<char>, p: Preset, q: PolicyView)
    ensures
        tells(preset_item(name, p), "{\"name\":\""@, name),
        tells(preset_item(name, p), "\",\"enabled\":"@, bool_text(p.enabled)),
        tells(preset_item(name, p), ",\"grace_seconds\":"@, dec(p.grace_seconds as nat)),
        tells(preset_item(name, p), ",\"cooldown_seconds\":"@, dec(p.cooldown_seconds as nat)),
        tells(preset_item(name, p), ",\"keep_fg_service\":"@, bool_text(p.keep_fg_service)),
        tells(preset_item(name, p), ",\"keep_media\":"@, bool_text(p.keep_media)),
        tells(preset_set(name, q), "{\"ok\":1,\"applied\":\""@, name),
        tells(preset_set(name, q), "\",\"enabled\":"@, bool_text(q.enabled)),
        tells(preset_set(name, q), ",\"grace_seconds\":"@, dec(q.grace_seconds as nat)),
        tells(preset_set(name, q), ",\"cooldown_seconds\":"@, dec(q.cooldown_seconds as nat)),
        tells(preset_set(name, q), ",\"keep_fg_service\":"@, bool_text(q.keep_fg_service)),
        tells(preset_set(name, q), ",\"keep_media\":"@, bool_text(q.keep_media)),
{
    broadcast use tells_behind;

    law_preset_report_tells(
        p.enabled,
        p.grace_seconds,
        p.cooldown_seconds,
        p.keep_fg_service,
        p.keep_media,
    );
    law_preset_report_tells(
        q.enabled,
        q.grace_seconds,
        q.cooldown_seconds,
        q.keep_fg_service,
        q.keep_media,
    );
    reveal_strlit("\",\"enabled\":");
    let f = preset_fields(
        p.enabled,
        p.grace_seconds,
        p.cooldown_seconds,
        p.keep_fg_service,
        p.keep_media,
    );
    let g = preset_fields(
        q.enabled,
        q.grace_seconds,
        q.cooldown_seconds,
        q.keep_fg_service,
        q.keep_media,
    );
    assert(f[0] == '"' && g[0] == '"');
    tells_first("{\"name\":\""@, name, f);
    tells_first("{\"ok\":1,\"applied\":\""@, name, g);
}

/// What is told of the usage of an app is what is on record of it, each number behind its own
/// key.
#[verifier::rlimit(30)]
#[verifier::spinoff_prover]
pub proof fn law_usage_report_tells(x: (Seq<char>, ProfileView))
    ensures
        tells(usage_text(x), "{\"pkg\":"@, string_text(x.0)),
        tells(usage_text(x), ",\"focus_count\":"@, dec(x.1.focus_count as nat)),
        tells(usage_text(x), ",\"focus_ms\":"@, dec(x.1.focus_ms as nat)),
        tells(usage_text(x), ",\"freeze_count\":"@, dec(x.1.freeze_count as nat)),
        tells(usage_text(x), ",\"unfreeze_count\":"@, dec(x.1.unfreeze_count as nat)),
        tells(usage_text(x), ",\"discard_count\":"@, dec(x.1.discard_count as nat)),
        tells(usage_text(x), ",\"wakeup_count\":"@, dec(x.1.wakeup_count as nat)),
        tells(usage_text(x), ",\"wakeup_sources\":"@, sources_text(x.1.wakeup_sources)),
        tells(usage_text(x), ",\"first_seen_at\":"@, dec(x.1.first_seen_at as nat)),
        tells(usage_text(x), ",\"last_seen_at\":"@, dec(x.1.last_seen_at as nat)),
        tells(usage_text(x), ",\"last_focus_at\":"@, dec(x.1.last_focus_at as nat)),
        tells(usage_text(x), ",\"last_freeze_at\":"@, dec(x.1.last_freeze_at as nat)),
{
    broadcast use group_tells;

    reveal_strlit(",\"focus_count\":");
    assert(ends(",\"focus_count\":"@));
    reveal_strlit(",\"focus_ms\":");
    assert(ends(",\"focus_ms\":"@));
    reveal_strlit(",\"freeze_count\":");
    assert(ends(",\"freeze_count\":"@));
    reveal_strlit(",\"unfreeze_count\":");
    assert(ends(",\"unfreeze_count\":"@));
    reveal_strlit(",\"discard_count\":");
    assert(ends(",\"discard_count\":"@));
    reveal_strlit(",\"wakeup_count\":");
    assert(ends(",\"wakeup_count\":"@));
    reveal_strlit(",\"wakeup_sources\":");
    assert(ends(",\"wakeup_sources\":"@));
    reveal_strlit(",\"first_seen_at\":");
    assert(ends(",\"first_seen_at\":"@));
    reveal_strlit(",\"last_seen_at\":");
    assert(ends(",\"last_seen_at\":"@));
    reveal_strlit(",\"last_focus_at\":");
    assert(ends(",\"last_focus_at\":"@));
    reveal_strlit(",\"last_freeze_at\":");
    assert(ends(",\"last_freeze_at\":"@));
    reveal_strlit("}");
    assert(ends("}"@));
}

/// What is told of the abilities of the device is what was probed.
#[verifier::rlimit(30)]
#[verifier::spinoff_prover]
pub proof fn law_capability_report_tells(c: CapabilityView, sources: Seq<(Seq<char>, u64)>, findings: Option<Seq<char>>)
    ensures
        tells(capability_text(c, sources, findings), "{\"ok\":1,\"freezer\":"@, string_text(c.freezer.name())),
        tells(capability_text(c, sources, findings), ",\"cgroup_v2\":"@, bool_text(c.cgroup_v2)),
        tells(capability_text(c, sources, findings), ",\"freezer_uid_path\":"@, opt_string_text(c.freezer_uid_path)),
        tells(capability_text(c, sources, findings), ",\"freezer_pid_path\":"@, opt_string_text(c.freezer_pid_path)),
        tells(capability_text(c, sources, findings), ",\"freezer_v1_path\":"@, opt_string_text(c.freezer_v1_path)),
        tells(capability_text(c, sources, findings), ",\"madvise_willneed\":"@, bool_text(c.madvise_willneed)),
        tells(capability_text(c, sources, findings), ",\"net_source\":"@, string_text(c.net_source)),
        tells(capability_text(c, sources, findings), ",\"probed_at\":"@, dec(c.probed_at as nat)),
        tells(capability_text(c, sources, findings), ",\"wakeup_sources\":"@, sources_text(sources)),
        tells(capability_text(c, sources, findings), ",\"dex_probe\":"@, raw_text(findings)),
{
    broadcast use group_tells;

    reveal_strlit(",\"cgroup_v2\":");
    assert(ends(",\"cgroup_v2\":"@));
    reveal_strlit(",\"freezer_uid_path\":");
    assert(ends(",\"freezer_uid_path\":"@));
    reveal_strlit(",\"freezer_pid_path\":");
    assert(ends(",\"freezer_pid_path\":"@));
    reveal_strlit(",\"freezer_v1_path\":");
    assert(ends(",\"freezer_v1_path\":"@));
    reveal_strlit(",\"madvise_willneed\":");
    assert(ends(",\"madvise_willneed\":"@));
    reveal_strlit(",\"net_source\":");
    assert(ends(",\"net_source\":"@));
    reveal_strlit(",\"probed_at\":");
    assert(ends(",\"probed_at\":"@));
    reveal_strlit(",\"wakeup_sources\":");
    assert(ends(",\"wakeup_sources\":"@));
    reveal_strlit(",\"dex_probe\":");
    assert(ends(",\"dex_probe\":"@));
    reveal_strlit("}");
    assert(ends("}"@));
}

/// What is told of a piece of advice is what it says.
#[verifier::rlimit(30)]
#[verifier::spinoff_prover]
pub proof fn law_advice_report_tells(x: (SuggestionView, Seq<char>))
    ensures
        tells(advice_text(x), "{\"level\":"@, string_text(x.0.level)),
        tells(advice_text(x), ",\"kind\":"@, string_text(x.0.kind)),
        tells(advice_text(x), ",\"pkg\":"@, opt_string_text(x.0.pkg)),
        tells(advice_text(x), ",\"title\":"@, string_text(x.0.title)),
        tells(advice_text(x), ",\"detail\":"@, string_text(x.1)),
        tells(advice_text(x), ",\"action_hint\":"@, string_text(x.0.action_hint)),
{
    broadcast use group_tells;

    reveal_strlit(",\"kind\":");
    assert(ends(",\"kind\":"@));
    reveal_strlit(",\"pkg\":");
    assert(ends(",\"pkg\":"@));
    reveal_strlit(",\"title\":");
    assert(ends(",\"title\":"@));
    reveal_strlit(",\"detail\":");
    assert(ends(",\"detail\":"@));
    reveal_strlit(",\"action_hint\":");
    assert(ends(",\"action_hint\":"@));
    reveal_strlit("}");
    assert(ends("}"@));
}

/// What the dex is told: whether its build is the expected one, whether the file is there, and
/// the uids of the packages that are frozen and that are managed.
#[verifier::rlimit(30)]
#[verifier::spinoff_prover]
pub proof fn law_dex_answer_tells(d: DaemonView, c: CommandEnvView)
    ensures
        tells(dex_answer(d, c), "{\"ok\":1,\"dex_hash_match\":"@, match_text(d.expected_dex_hash, build_of(d.dex))),
        tells(dex_answer(d, c), ",\"expected_dex_hash\":"@, opt_quoted(d.expected_dex_hash)),
        tells(dex_answer(d, c), ",\"frozen_uids\":"@, number_array(sorted_set(known_uids(d.engine, c.env, keys_of(d.engine.frozen))))),
        tells(dex_answer(d, c), ",\"candidate_uids\":"@, number_array(sorted_set(known_uids(d.engine, c.env, managed_names(d.engine))))),
        tells(dex_answer(d, c), "\",\"dex_present\":"@, (if c.dex_present { "1"@ } else { "0"@ })),
{
    broadcast use group_tells;

    reveal_strlit(",\"dex_path\":\"");
    assert(ends(",\"dex_path\":\""@));
    reveal_strlit(",\"expected_dex_hash\":");
    assert(ends(",\"expected_dex_hash\":"@));
    reveal_strlit(",\"frozen_uids\":");
    assert(ends(",\"frozen_uids\":"@));
    reveal_strlit(",\"candidate_uids\":");
    assert(ends(",\"candidate_uids\":"@));
    reveal_strlit("\",\"dex_present\":");
    assert(ends("\",\"dex_present\":"@));
    reveal_strlit("}");
    assert(ends("}"@));
}

/// What the probe is told: whether its build is the expected one, and whether the file of the dex
/// is there.
#[verifier::rlimit(30)]
#[verifier::spinoff_prover]
pub proof fn law_probe_answer_tells(d: DaemonView, present: bool)
    ensures
        tells(probe_answer(d, present), "{\"ok\":1,\"hash_match\":"@, match_text(d.expected_probe_hash, build_of(d.probe))),
        tells(probe_answer(d, present), ",\"expected_hash\":"@, opt_quoted(d.expected_probe_hash)),
        tells(probe_answer(d, present), "\",\"dex_present\":"@, (if present { "1"@ } else { "0"@ })),
{
    broadcast use group_tells;

    reveal_strlit(",\"dex_path\":\"");
    assert(ends(",\"dex_path\":\""@));
    reveal_strlit(",\"expected_hash\":");
    assert(ends(",\"expected_hash\":"@));
    reveal_strlit("\",\"dex_present\":");
    assert(ends("\",\"dex_present\":"@));
    reveal_strlit("}");
    assert(ends("}"@));
}

/// What is told of an event: its number, its time, its level, what was done, and to what.
#[verifier::rlimit(30)]
#[verifier::spinoff_prover]
pub proof fn law_event_tells(e: EventView)
    ensures
        tells(event_json(e), "{\"seq\":"@, dec(e.seq as nat)),
        tells(event_json(e), ",\"ts\":"@, dec(e.ts as nat)),
        tells(event_json(e), ",\"level\":\""@, e.level.name()),
        tells(event_json(e), "\",\"action\":\""@, e.action.name()),
        tells(event_json(e), "\",\"subject\":\""@, e.subject.name()),
{
    broadcast use group_tells;

    reveal_strlit(",\"ts\":");
    assert(ends(",\"ts\":"@));
    reveal_strlit(",\"level\":\"");
    assert(ends(",\"level\":\""@));
    reveal_strlit("\",\"action\":\"");
    assert(ends("\",\"action\":\""@));
    reveal_strlit("\",\"subject\":\"");
    assert(ends("\",\"subject\":\""@));
    reveal_strlit("\"");
    assert(ends("\""@));
}

/// An event names the package, the reason and the message exactly where it has them.
#[verifier::rlimit(30)]
#[verifier::spinoff_prover]
pub proof fn law_event_tells_its_details(e: EventView)
    ensures
        e.pkg matches Some(p) ==> tells(event_json(e), ",\"pkg\":\""@, escaped(p)),
        e.reason matches Some(p) ==> tells(event_json(e), ",\"reason\":\""@, escaped(p)),
        e.msg matches Some(p) ==> tells(event_json(e), ",\"msg\":\""@, escaped(p)),
{
    broadcast use {tells_before, tells_behind};

    reveal_strlit(",\"");
    reveal_strlit("\":\"");
    reveal_strlit("\"");
    reveal_strlit("pkg");
    reveal_strlit("reason");
    reveal_strlit("msg");
    reveal_strlit(",\"pkg\":\"");
    reveal_strlit(",\"reason\":\"");
    reveal_strlit(",\"msg\":\"");
    assert(",\""@ + "pkg"@ + "\":\""@ =~= ",\"pkg\":\""@);
    assert(",\""@ + "reason"@ + "\":\""@ =~= ",\"reason\":\""@);
    assert(",\""@ + "msg"@ + "\":\""@ =~= ",\"msg\":\""@);
    if let Some(p) = e.pkg {
        tells_first(",\"pkg\":\""@, escaped(p), "\""@);
    }
    if let Some(p) = e.reason {
        tells_first(",\"reason\":\""@, escaped(p), "\""@);
    }
    if let Some(p) = e.msg {
        tells_first(",\"msg\":\""@, escaped(p), "\""@);
    }
}

/// What is told of the rules: how many there are, which file they are from, how often one
/// applied, and their names.
#[verifier::rlimit(30)]
#[verifier::spinoff_prover]
pub proof fn law_rules_report_tells(t: RulesView)
    ensures
        tells(rules_answer(t, "status"@), "{\"ok\":1,\"count\":"@, dec(t.rules.len())),
        tells(rules_answer(t, "status"@), ",\"revision\":"@, dec(t.revision as nat)),
        tells(rules_answer(t, "status"@), ",\"hits\":"@, dec(t.hits as nat)),
        tells(rules_answer(t, "list"@), "{\"ok\":1,\"count\":"@, dec(t.rules.len())),
        tells(
            rules_answer(t, "list"@),
            ",\"rules\":"@,
            string_array(sorted_texts(t.rules.map_values(|x: RuleView| x.id))),
        ),
{
    broadcast use group_tells;

    reveal_strlit("status");
    reveal_strlit("list");
    assert("status"@.len() == 6 && "list"@.len() == 4);
    crate::text::lemma_trimmed_fixed("status"@);
    crate::text::lemma_trimmed_fixed("list"@);
    reveal_strlit(",\"revision\":");
    reveal_strlit(",\"hits\":");
    reveal_strlit(",\"rules\":");
    reveal_strlit("}");
    assert(ends(",\"revision\":"@) && ends(",\"hits\":"@) && ends(",\"rules\":"@) && ends("}"@));
}

/// What is told of the list of presets: which one is in force, and which file they are from.
pub proof fn law_preset_list_tells(t: PresetsView, active: Option<Seq<char>>)
    ensures
        tells(preset_list(t, active), "],\"active\":\""@, match active {
            Some(name) => name,
            None => Seq::empty(),
        }),
        tells(preset_list(t, active), "\",\"revision\":"@, dec(t.revision as nat)),
{
    broadcast use group_tells;

    reveal_strlit("\",\"revision\":");
    reveal_strlit("}");
    assert(ends("\",\"revision\":"@) && ends("}"@));
}

// ---- No two states have the same report ----

proof fn lemma_fold(a: Seq<char>, k: Seq<char>, d: Seq<char>, r: Seq<char>)
    ensures
        a + k + d + r == a + (k + d + r),
{
    assert(a + k + d + r =~= a + (k + d + r));
}

/// Two texts that agree and begin with a number each, and then with something else, begin with
/// the same number.
proof fn lemma_same_number(k: Seq<char>, a: nat, r: Seq<char>, b: nat, q: Seq<char>)
    requires
        k + dec(a) + r == k + dec(b) + q,
        ends(r),
        ends(q),
    ensures
        a == b,
        r == q,
{
    lemma_dec_value(a);
    lemma_dec_value(b);
    let x = dec(a);
    let y = dec(b);
    let s = k + x + r;
    let t = k + y + q;
    let n = k.len() as int;
    if x.len() < y.len() {
        assert(s[n + x.len()] == r[0]);
        assert(t[n + x.len()] == y[x.len() as int]);
        assert(is_digit(y[x.len() as int]));
    } else if y.len() < x.len() {
        assert(t[n + y.len()] == q[0]);
        assert(s[n + y.len()] == x[y.len() as int]);
        assert(is_digit(x[y.len() as int]));
    }
    assert forall|i: int| 0 <= i < x.len() implies x[i] == y[i] by {
        assert(s[n + i] == x[i] && t[n + i] == y[i]);
    }
    assert(x =~= y);
    assert(r =~= s.skip(n + x.len()));
    assert(q =~= t.skip(n + y.len()));
}

/// What follows the counters in the status.
spec fn behind_counters(s: EngineView) -> Seq<char> {
    "},\"discarded_packages\":"@ + string_array(s.discarded) + ",\"discard_timeout_s\":"@ + dec(
        s.policy.discard_frozen_timeout_seconds as nat,
    )
}

/// The counters in the status and all that follows, from one of them on.
spec fn counters_from(c: Counters, z: Seq<char>, i: int) -> Seq<char>
    decreases 8 - i,
{
    if i >= 8 {
        z
    } else {
        let rest = counters_from(c, z, i + 1);
        if i == 0 {
            ",\"freeze_ops\":"@ + dec(c.freeze_ops as nat) + rest
        } else if i == 1 {
            ",\"unfreeze_ops\":"@ + dec(c.unfreeze_ops as nat) + rest
        } else if i == 2 {
            ",\"wakeup_thaws\":"@ + dec(c.wakeup_thaws as nat) + rest
        } else if i == 3 {
            ",\"wake_throttled\":"@ + dec(c.wake_throttled as nat) + rest
        } else if i == 4 {
            ",\"discard_ops\":"@ + dec(c.discard_ops as nat) + rest
        } else if i == 5 {
            ",\"discard_reasons\":{\"frozen_timeout\":"@ + dec(c.discard_frozen_timeout as nat) + rest
        } else if i == 6 {
            ",\"mem_watermark\":"@ + dec(c.discard_mem_watermark as nat) + rest
        } else if i == 7 {
            ",\"boot_reclaim\":"@ + dec(c.discard_boot_reclaim as nat) + rest
        } else {
            rest
        }
    }
}

proof fn lemma_counters_in_order(s: EngineView)
    ensures
        status_counts(s) == counters_from(s.counters, behind_counters(s), 0),
{
    reveal_with_fuel(counters_from, 9);
    let c = s.counters;
    let z = behind_counters(s);
    let k0 = ",\"freeze_ops\":"@;
    let d0 = dec(c.freeze_ops as nat);
    let k1 = ",\"unfreeze_ops\":"@;
    let d1 = dec(c.unfreeze_ops as nat);
    let k2 = ",\"wakeup_thaws\":"@;
    let d2 = dec(c.wakeup_thaws as nat);
    let k3 = ",\"wake_throttled\":"@;
    let d3 = dec(c.wake_throttled as nat);
    let k4 = ",\"discard_ops\":"@;
    let d4 = dec(c.discard_ops as nat);
    let k5 = ",\"discard_reasons\":{\"frozen_timeout\":"@;
    let d5 = dec(c.discard_frozen_timeout as nat);
    let k6 = ",\"mem_watermark\":"@;
    let d6 = dec(c.discard_mem_watermark as nat);
    let k7 = ",\"boot_reclaim\":"@;
    let d7 = dec(c.discard_boot_reclaim as nat);
    let p0 = Seq::<char>::empty();
    let p1 = k0 + d0;
    let p2 = p1 + k1 + d1;
    let p3 = p2 + k2 + d2;
    let p4 = p3 + k3 + d3;
    let p5 = p4 + k4 + d4;
    let p6 = p5 + k5 + d5;
    let p7 = p6 + k6 + d6;
    assert(status_counts(s) =~= p7 + k7 + d7 + z);
    lemma_fold(p7, k7, d7, counters_from(c, z, 8));
    lemma_fold(p6, k6, d6, counters_from(c, z, 7));
    lemma_fold(p5, k5, d5, counters_from(c, z, 6));
    lemma_fold(p4, k4, d4, counters_from(c, z, 5));
    lemma_fold(p3, k3, d3, counters_from(c, z, 4));
    lemma_fold(p2, k2, d2, counters_from(c, z, 3));
    lemma_fold(p1, k1, d1, counters_from(c, z, 2));
}

/// Two states that differ at most in their counters and have the same status have the same
/// counters: of freezes, thaws, thaws by wakeups, throttled wakeups, and discards, in all and by
/// each reason that is told.
#[verifier::rlimit(40)]
#[verifier::spinoff_prover]
pub proof fn law_same_status_same_counters(d: DaemonView, c: Counters, now: u64, pid: u32)
    requires
        status_text(
            DaemonView { engine: EngineView { counters: c, ..d.engine }, ..d },
            now,
            pid,
        ) == status_text(d, now, pid),
    ensures
        c.freeze_ops == d.engine.counters.freeze_ops,
        c.unfreeze_ops == d.engine.counters.unfreeze_ops,
        c.wakeup_thaws == d.engine.counters.wakeup_thaws,
        c.wake_throttled == d.engine.counters.wake_throttled,
        c.discard_ops == d.engine.counters.discard_ops,
        c.discard_frozen_timeout == d.engine.counters.discard_frozen_timeout,
        c.discard_mem_watermark == d.engine.counters.discard_mem_watermark,
        c.discard_boot_reclaim == d.engine.counters.discard_boot_reclaim,
{
    let u = DaemonView { engine: EngineView { counters: c, ..d.engine }, ..d };
    let p = status_head(pid) + status_probe(d) + status_policy(d.engine);
    let t = status_tail(d, now);
    let a = status_counts(u.engine);
    let b = status_counts(d.engine);
    assert(status_probe(u) == status_probe(d));
    assert(status_policy(u.engine) == status_policy(d.engine));
    assert(status_tail(u, now) == t);
    assert(p + a + t == p + b + t);
    assert(a.len() == b.len());
    assert(a =~= (p + a + t).subrange(p.len() as int, (p.len() + a.len()) as int));
    assert(b =~= (p + b + t).subrange(p.len() as int, (p.len() + b.len()) as int));
    lemma_counters_in_order(u.engine);
    lemma_counters_in_order(d.engine);
    let z = behind_counters(d.engine);
    assert(behind_counters(u.engine) == z);
    let o = d.engine.counters;
    reveal_strlit(",\"freeze_ops\":");
    assert(ends(",\"freeze_ops\":"@));
    reveal_strlit(",\"unfreeze_ops\":");
    assert(ends(",\"unfreeze_ops\":"@));
    reveal_strlit(",\"wakeup_thaws\":");
    assert(ends(",\"wakeup_thaws\":"@));
    reveal_strlit(",\"wake_throttled\":");
    assert(ends(",\"wake_throttled\":"@));
    reveal_strlit(",\"discard_ops\":");
    assert(ends(",\"discard_ops\":"@));
    reveal_strlit(",\"discard_reasons\":{\"frozen_timeout\":");
    assert(ends(",\"discard_reasons\":{\"frozen_timeout\":"@));
    reveal_strlit(",\"mem_watermark\":");
    assert(ends(",\"mem_watermark\":"@));
    reveal_strlit(",\"boot_reclaim\":");
    assert(ends(",\"boot_reclaim\":"@));
    reveal_strlit("},\"discarded_packages\":");
    assert(ends("},\"discarded_packages\":"@));
    reveal_with_fuel(counters_from, 9);
    assert(ends(z)) by {
        broadcast use ends_longer;

    }
    assert(ends(counters_from(c, z, 1)) && ends(counters_from(o, z, 1))) by {
        broadcast use ends_longer;

    }
    assert(ends(counters_from(c, z, 2)) && ends(counters_from(o, z, 2))) by {
        broadcast use ends_longer;

    }
    assert(ends(counters_from(c, z, 3)) && ends(counters_from(o, z, 3))) by {
        broadcast use ends_longer;

    }
    assert(ends(counters_from(c, z, 4)) && ends(counters_from(o, z, 4))) by {
        broadcast use ends_longer;

    }
    assert(ends(counters_from(c, z, 5)) && ends(counters_from(o, z, 5))) by {
        broadcast use ends_longer;

    }
    assert(ends(counters_from(c, z, 6)) && ends(counters_from(o, z, 6))) by {
        broadcast use ends_longer;

    }
    assert(ends(counters_from(c, z, 7)) && ends(counters_from(o, z, 7))) by {
        broadcast use ends_longer;

    }
    lemma_same_number(
        ",\"freeze_ops\":"@,
        c.freeze_ops as nat,
        counters_from(c, z, 1),
        o.freeze_ops as nat,
        counters_from(o, z, 1),
    );
    lemma_same_number(
        ",\"unfreeze_ops\":"@,
        c.unfreeze_ops as nat,
        counters_from(c, z, 2),
        o.unfreeze_ops as nat,
        counters_from(o, z, 2),
    );
    lemma_same_number(
        ",\"wakeup_thaws\":"@,
        c.wakeup_thaws as nat,
        counters_from(c, z, 3),
        o.wakeup_thaws as nat,
        counters_from(o, z, 3),
    );
    lemma_same_number(
        ",\"wake_throttled\":"@,
        c.wake_throttled as nat,
        counters_from(c, z, 4),
        o.wake_throttled as nat,
        counters_from(o, z, 4),
    );
    lemma_same_number(
        ",\"discard_ops\":"@,
        c.discard_ops as nat,
        counters_from(c, z, 5),
        o.discard_ops as nat,
        counters_from(o, z, 5),
    );
    lemma_same_number(
        ",\"discard_reasons\":{\"frozen_timeout\":"@,
        c.discard_frozen_timeout as nat,
        counters_from(c, z, 6),
        o.discard_frozen_timeout as nat,
        counters_from(o, z, 6),
    );
    lemma_same_number(
        ",\"mem_watermark\":"@,
        c.discard_mem_watermark as nat,
        counters_from(c, z, 7),
        o.discard_mem_watermark as nat,
        counters_from(o, z, 7),
    );
    lemma_same_number(
        ",\"boot_reclaim\":"@,
        c.discard_boot_reclaim as nat,
        counters_from(c, z, 8),
        o.discard_boot_reclaim as nat,
        counters_from(o, z, 8),
    );
}

// ---- Short answers ----

/// The bridge is told whether its build is the expected one.
#[verifier::rlimit(30)]
#[verifier::spinoff_prover]
pub proof fn law_bridge_answer_tells(d: DaemonView)
    ensures
        tells(bridge_answer(d), "{\"ok\":1,\"bridge_hash_match\":"@, match_text(d.expected_hook_hash, build_of(d.hook_bridge))),
{
    broadcast use group_tells;

    reveal_strlit("}");
    assert(ends("}"@));
}

/// After a reload it is told whether the policy is on, and which file it is from.
#[verifier::rlimit(30)]
#[verifier::spinoff_prover]
pub proof fn law_reload_answer_tells(p: PolicyView)
    ensures
        tells(policy_reloaded(p), "{\"ok\":1,\"enabled\":"@, bool_text(p.enabled)),
        tells(policy_reloaded(p), ",\"revision\":"@, dec(p.revision as nat)),
{
    broadcast use group_tells;

    reveal_strlit(",\"revision\":");
    assert(ends(",\"revision\":"@));
    reveal_strlit("}");
    assert(ends("}"@));
}

/// After a preset was given up it is told what holds now.
#[verifier::rlimit(30)]
#[verifier::spinoff_prover]
pub proof fn law_clear_answer_tells(s: EngineView)
    ensures
        tells(preset_dropped(s), "\",\"enabled\":"@, bool_text(s.policy.enabled)),
        tells(preset_dropped(s), ",\"grace_seconds\":"@, dec(s.policy.grace_seconds as nat)),
{
    broadcast use group_tells;

    reveal_strlit(",\"grace_seconds\":");
    assert(ends(",\"grace_seconds\":"@));
    reveal_strlit("}");
    assert(ends("}"@));
}

/// The apps that are woken most are told with their number.
#[verifier::rlimit(30)]
#[verifier::spinoff_prover]
pub proof fn law_top_answer_tells(v: Seq<(Seq<char>, ProfileView)>)
    ensures
        tells(top_text(v), "{\"ok\":1,\"count\":"@, dec(v.len())),
{
    broadcast use group_tells;

    reveal_strlit(",\"apps\":[");
    assert(ends(",\"apps\":["@));
}

/// Advice is told with its number.
#[verifier::rlimit(30)]
#[verifier::spinoff_prover]
pub proof fn law_advice_answer_tells(v: Seq<(SuggestionView, Seq<char>)>)
    ensures
        tells(advice_answer(v), "{\"ok\":1,\"count\":"@, dec(v.len())),
{
    broadcast use group_tells;

    reveal_strlit(",\"suggestions\":[");
    assert(ends(",\"suggestions\":["@));
}

/// The sources of wakeups are told with their own numbers.
pub proof fn law_source_is_told_with_its_number(x: (Seq<char>, u64))
    ensures
        source_text(x) == seq!['"'] + escaped(x.0) + seq!['"', ':'] + dec(x.1 as nat),
{
    reveal_strlit("\"");
    reveal_strlit(":");
    assert(source_text(x) =~= seq!['"'] + escaped(x.0) + seq!['"', ':'] + dec(x.1 as nat));
}

proof fn lemma_preset_items(t: Seq<(Seq<char>, Preset)>, names: Seq<Seq<char>>, i: int)
    requires
        0 <= i < names.len(),
        value_of(t, names[i]) is Some,
    ensures
        preset_items(t, names).contains(preset_item(names[i], value_of(t, names[i])->0)),
    decreases names.len(),
{
    let w = preset_items(t, names);
    let x = preset_item(names[i], value_of(t, names[i])->0);
    if i < names.len() - 1 {
        let k = preset_items(t, names.drop_last());
        lemma_preset_items(t, names.drop_last(), i);
        let j = choose|j: int| 0 <= j < k.len() && k[j] == x;
        assert(w[j] == x);
    } else {
        assert(w[w.len() - 1] == x);
    }
}

/// Every preset is in the list, with its own parameters.
pub proof fn law_every_preset_is_listed(t: Seq<(Seq<char>, Preset)>, name: Seq<char>, p: Preset)
    requires
        value_of(t, name) == Some(p),
    ensures
        preset_items(t, sorted_texts(keys_of(t))).contains(preset_item(name, p)),
{
    let k = keys_of(t);
    let s = sorted_texts(k);
    lemma_key_index(t, name);
    assert(k[key_index(t, name)] == name);
    assert(k.contains(name));
    law_sorted_texts(k);
    assert(s.contains(name)) by {
        broadcast use vstd::seq_lib::group_to_multiset_ensures;

        assert(s.to_multiset().contains(name) == k.to_multiset().contains(name));
    }
    let i = choose|i: int| 0 <= i < s.len() && s[i] == name;
    lemma_preset_items(t, s, i);
}

/// The packages that are told to be frozen are exactly those that are, in order of their names.
pub proof fn law_frozen_packages_are_told(s: EngineView, p: Seq<char>)
    ensures
        sorted_texts(keys_of(s.frozen)).contains(p) <==> has_key(s.frozen, p),
        sorted_texts(keys_of(s.grace)).contains(p) <==> has_key(s.grace, p),
        ascending(sorted_texts(keys_of(s.frozen))),
        ascending(sorted_texts(keys_of(s.grace))),
{
    lemma_names_in_order(s.frozen, p);
    lemma_names_in_order(s.grace, p);
}

proof fn lemma_names_in_order<V>(m: Seq<(Seq<char>, V)>, p: Seq<char>)
    ensures
        sorted_texts(keys_of(m)).contains(p) <==> has_key(m, p),
        ascending(sorted_texts(keys_of(m))),
{
    let k = keys_of(m);
    law_sorted_texts(k);
    lemma_key_index(m, p);
    assert(sorted_texts(k).contains(p) <==> k.contains(p)) by {
        broadcast use vstd::seq_lib::group_to_multiset_ensures;

        assert(sorted_texts(k).to_multiset().contains(p) == k.to_multiset().contains(p));
    }
    if has_key(m, p) {
        assert(k[key_index(m, p)] == p);
    }
    if k.contains(p) {
        let i = choose|i: int| 0 <= i < k.len() && k[i] == p;
        assert(m[i].0 == p);
    }
}

} // verus!
