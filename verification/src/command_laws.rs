//! What the commands of the line protocol do.

use vstd::prelude::*;
use crate::dex::{dex_version, fetch_answer, push_announcement};
use crate::events::{json_array, last_events};
use crate::json::{opt_quoted, string_array};
use crate::names::value_of;
use crate::profile::{by_wakeups, freezes_of, law_ranking_by_wakeups, wakeups_of};
use crate::protocol::{command_of, HandledView};
use crate::report_laws::{
    law_policy_report_tells, law_status_tells_the_counters, law_status_tells_the_daemon,
    law_status_tells_the_policy, tells,
};
use crate::sock::{conn_handled, dex_line_handled, CommandEnvView};
use crate::sock_admin::{subscribe_handled, subscription_of, wish_after, wishes};
use crate::sock_reports::{top_text, usage_text};
use crate::state::{build_of, client_at, everything, law_client_at, DaemonView, SubscriptionView};
use crate::text::{dec, law_dec_reads_back, lemma_index_of_at, pieces, trimmed};
use crate::toml::trimmed_non_empty;

verus! {

proof fn lemma_commands_differ()
    ensures
        "hello-dex"@ != "ping"@,
        "hello-dex"@ != "status"@,
        "ping"@ != "status"@,
        "hello-dex"@ != "events"@,
        "ping"@ != "events"@,
        "status"@ != "events"@,
        "hello-dex"@ != "reload-config"@,
        "ping"@ != "reload-config"@,
        "status"@ != "reload-config"@,
        "events"@ != "reload-config"@,
        "hello-dex"@ != "hello-probe"@,
        "ping"@ != "hello-probe"@,
        "status"@ != "hello-probe"@,
        "events"@ != "hello-probe"@,
        "reload-config"@ != "hello-probe"@,
        "hello-dex"@ != "probe-query"@,
        "ping"@ != "probe-query"@,
        "status"@ != "probe-query"@,
        "events"@ != "probe-query"@,
        "reload-config"@ != "probe-query"@,
        "hello-probe"@ != "probe-query"@,
        "hello-dex"@ != "fetch-dex"@,
        "ping"@ != "fetch-dex"@,
        "status"@ != "fetch-dex"@,
        "events"@ != "fetch-dex"@,
        "reload-config"@ != "fetch-dex"@,
        "hello-probe"@ != "fetch-dex"@,
        "probe-query"@ != "fetch-dex"@,
        "hello-dex"@ != "push-dex"@,
        "ping"@ != "push-dex"@,
        "status"@ != "push-dex"@,
        "events"@ != "push-dex"@,
        "reload-config"@ != "push-dex"@,
        "hello-probe"@ != "push-dex"@,
        "probe-query"@ != "push-dex"@,
        "fetch-dex"@ != "push-dex"@,
        "hello-dex"@ != "policy"@,
        "ping"@ != "policy"@,
        "status"@ != "policy"@,
        "events"@ != "policy"@,
        "reload-config"@ != "policy"@,
        "hello-probe"@ != "policy"@,
        "probe-query"@ != "policy"@,
        "fetch-dex"@ != "policy"@,
        "push-dex"@ != "policy"@,
        "hello-dex"@ != "rules"@,
        "ping"@ != "rules"@,
        "status"@ != "rules"@,
        "events"@ != "rules"@,
        "reload-config"@ != "rules"@,
        "hello-probe"@ != "rules"@,
        "probe-query"@ != "rules"@,
        "fetch-dex"@ != "rules"@,
        "push-dex"@ != "rules"@,
        "policy"@ != "rules"@,
        "hello-dex"@ != "profile"@,
        "ping"@ != "profile"@,
        "status"@ != "profile"@,
        "events"@ != "profile"@,
        "reload-config"@ != "profile"@,
        "hello-probe"@ != "profile"@,
        "probe-query"@ != "profile"@,
        "fetch-dex"@ != "profile"@,
        "push-dex"@ != "profile"@,
        "policy"@ != "profile"@,
        "rules"@ != "profile"@,
        "hello-dex"@ != "analyze"@,
        "ping"@ != "analyze"@,
        "status"@ != "analyze"@,
        "events"@ != "analyze"@,
        "reload-config"@ != "analyze"@,
        "hello-probe"@ != "analyze"@,
        "probe-query"@ != "analyze"@,
        "fetch-dex"@ != "analyze"@,
        "push-dex"@ != "analyze"@,
        "policy"@ != "analyze"@,
        "rules"@ != "analyze"@,
        "profile"@ != "analyze"@,
        "hello-dex"@ != "capability"@,
        "ping"@ != "capability"@,
        "status"@ != "capability"@,
        "events"@ != "capability"@,
        "reload-config"@ != "capability"@,
        "hello-probe"@ != "capability"@,
        "probe-query"@ != "capability"@,
        "fetch-dex"@ != "capability"@,
        "push-dex"@ != "capability"@,
        "policy"@ != "capability"@,
        "rules"@ != "capability"@,
        "profile"@ != "capability"@,
        "analyze"@ != "capability"@,
        "hello-dex"@ != "stop"@,
        "ping"@ != "stop"@,
        "status"@ != "stop"@,
        "events"@ != "stop"@,
        "reload-config"@ != "stop"@,
        "hello-probe"@ != "stop"@,
        "probe-query"@ != "stop"@,
        "fetch-dex"@ != "stop"@,
        "push-dex"@ != "stop"@,
        "policy"@ != "stop"@,
        "rules"@ != "stop"@,
        "profile"@ != "stop"@,
        "analyze"@ != "stop"@,
        "capability"@ != "stop"@,
        "ping"@ != "hello-dex"@,
        "ping"@ != "subscribe"@,
        "hello-dex"@ != "subscribe"@,
        "ping"@ != "report-bridge"@,
        "hello-dex"@ != "report-bridge"@,
        "subscribe"@ != "report-bridge"@,
        "ping"@ != "capability-probe"@,
        "hello-dex"@ != "capability-probe"@,
        "subscribe"@ != "capability-probe"@,
        "report-bridge"@ != "capability-probe"@,
        "ping"@ != "event"@,
        "hello-dex"@ != "event"@,
        "subscribe"@ != "event"@,
        "report-bridge"@ != "event"@,
        "capability-probe"@ != "event"@,
{
    reveal_strlit("hello-dex");
    reveal_strlit("ping");
    reveal_strlit("status");
    reveal_strlit("events");
    reveal_strlit("reload-config");
    reveal_strlit("hello-probe");
    reveal_strlit("probe-query");
    reveal_strlit("fetch-dex");
    reveal_strlit("push-dex");
    reveal_strlit("policy");
    reveal_strlit("rules");
    reveal_strlit("profile");
    reveal_strlit("analyze");
    reveal_strlit("capability");
    reveal_strlit("stop");
    reveal_strlit("subscribe");
    reveal_strlit("report-bridge");
    reveal_strlit("capability-probe");
    reveal_strlit("event");
    assert("hello-dex"@.len() == 9);
    assert("ping"@.len() == 4);
    assert("status"@.len() == 6);
    assert("events"@.len() == 6);
    assert("reload-config"@.len() == 13);
    assert("hello-probe"@.len() == 11);
    assert("probe-query"@.len() == 11);
    assert("fetch-dex"@.len() == 9);
    assert("push-dex"@.len() == 8);
    assert("policy"@.len() == 6);
    assert("rules"@.len() == 5);
    assert("profile"@.len() == 7);
    assert("analyze"@.len() == 7);
    assert("capability"@.len() == 10);
    assert("stop"@.len() == 4);
    assert("subscribe"@.len() == 9);
    assert("report-bridge"@.len() == 13);
    assert("capability-probe"@.len() == 16);
    assert("event"@.len() == 5);
    assert("hello-dex"@ != "ping"@);
    assert("hello-dex"@ != "status"@);
    assert("ping"@ != "status"@);
    assert("hello-dex"@ != "events"@);
    assert("ping"@ != "events"@);
    assert("status"@[0] != "events"@[0]);
    assert("status"@ != "events"@);
    assert("hello-dex"@ != "reload-config"@);
    assert("ping"@ != "reload-config"@);
    assert("status"@ != "reload-config"@);
    assert("events"@ != "reload-config"@);
    assert("hello-dex"@ != "hello-probe"@);
    assert("ping"@ != "hello-probe"@);
    assert("status"@ != "hello-probe"@);
    assert("events"@ != "hello-probe"@);
    assert("reload-config"@ != "hello-probe"@);
    assert("hello-dex"@ != "probe-query"@);
    assert("ping"@ != "probe-query"@);
    assert("status"@ != "probe-query"@);
    assert("events"@ != "probe-query"@);
    assert("reload-config"@ != "probe-query"@);
    assert("hello-probe"@[0] != "probe-query"@[0]);
    assert("hello-probe"@ != "probe-query"@);
    assert("hello-dex"@[0] != "fetch-dex"@[0]);
    assert("hello-dex"@ != "fetch-dex"@);
    assert("ping"@ != "fetch-dex"@);
    assert("status"@ != "fetch-dex"@);
    assert("events"@ != "fetch-dex"@);
    assert("reload-config"@ != "fetch-dex"@);
    assert("hello-probe"@ != "fetch-dex"@);
    assert("probe-query"@ != "fetch-dex"@);
    assert("hello-dex"@ != "push-dex"@);
    assert("ping"@ != "push-dex"@);
    assert("status"@ != "push-dex"@);
    assert("events"@ != "push-dex"@);
    assert("reload-config"@ != "push-dex"@);
    assert("hello-probe"@ != "push-dex"@);
    assert("probe-query"@ != "push-dex"@);
    assert("fetch-dex"@ != "push-dex"@);
    assert("hello-dex"@ != "policy"@);
    assert("ping"@ != "policy"@);
    assert("status"@[0] != "policy"@[0]);
    assert("status"@ != "policy"@);
    assert("events"@[0] != "policy"@[0]);
    assert("events"@ != "policy"@);
    assert("reload-config"@ != "policy"@);
    assert("hello-probe"@ != "policy"@);
    assert("probe-query"@ != "policy"@);
    assert("fetch-dex"@ != "policy"@);
    assert("push-dex"@ != "policy"@);
    assert("hello-dex"@ != "rules"@);
    assert("ping"@ != "rules"@);
    assert("status"@ != "rules"@);
    assert("events"@ != "rules"@);
    assert("reload-config"@ != "rules"@);
    assert("hello-probe"@ != "rules"@);
    assert("probe-query"@ != "rules"@);
    assert("fetch-dex"@ != "rules"@);
    assert("push-dex"@ != "rules"@);
    assert("policy"@ != "rules"@);
    assert("hello-dex"@ != "profile"@);
    assert("ping"@ != "profile"@);
    assert("status"@ != "profile"@);
    assert("events"@ != "profile"@);
    assert("reload-config"@ != "profile"@);
    assert("hello-probe"@ != "profile"@);
    assert("probe-query"@ != "profile"@);
    assert("fetch-dex"@ != "profile"@);
    assert("push-dex"@ != "profile"@);
    assert("policy"@ != "profile"@);
    assert("rules"@ != "profile"@);
    assert("hello-dex"@ != "analyze"@);
    assert("ping"@ != "analyze"@);
    assert("status"@ != "analyze"@);
    assert("events"@ != "analyze"@);
    assert("reload-config"@ != "analyze"@);
    assert("hello-probe"@ != "analyze"@);
    assert("probe-query"@ != "analyze"@);
    assert("fetch-dex"@ != "analyze"@);
    assert("push-dex"@ != "analyze"@);
    assert("policy"@ != "analyze"@);
    assert("rules"@ != "analyze"@);
    assert("profile"@[0] != "analyze"@[0]);
    assert("profile"@ != "analyze"@);
    assert("hello-dex"@ != "capability"@);
    assert("ping"@ != "capability"@);
    assert("status"@ != "capability"@);
    assert("events"@ != "capability"@);
    assert("reload-config"@ != "capability"@);
    assert("hello-probe"@ != "capability"@);
    assert("probe-query"@ != "capability"@);
    assert("fetch-dex"@ != "capability"@);
    assert("push-dex"@ != "capability"@);
    assert("policy"@ != "capability"@);
    assert("rules"@ != "capability"@);
    assert("profile"@ != "capability"@);
    assert("analyze"@ != "capability"@);
    assert("hello-dex"@ != "stop"@);
    assert("ping"@[0] != "stop"@[0]);
    assert("ping"@ != "stop"@);
    assert("status"@ != "stop"@);
    assert("events"@ != "stop"@);
    assert("reload-config"@ != "stop"@);
    assert("hello-probe"@ != "stop"@);
    assert("probe-query"@ != "stop"@);
    assert("fetch-dex"@ != "stop"@);
    assert("push-dex"@ != "stop"@);
    assert("policy"@ != "stop"@);
    assert("rules"@ != "stop"@);
    assert("profile"@ != "stop"@);
    assert("analyze"@ != "stop"@);
    assert("capability"@ != "stop"@);
    assert("ping"@ != "hello-dex"@);
    assert("ping"@ != "subscribe"@);
    assert("hello-dex"@[0] != "subscribe"@[0]);
    assert("hello-dex"@ != "subscribe"@);
    assert("ping"@ != "report-bridge"@);
    assert("hello-dex"@ != "report-bridge"@);
    assert("subscribe"@ != "report-bridge"@);
    assert("ping"@ != "capability-probe"@);
    assert("hello-dex"@ != "capability-probe"@);
    assert("subscribe"@ != "capability-probe"@);
    assert("report-bridge"@ != "capability-probe"@);
    assert("ping"@ != "event"@);
    assert("hello-dex"@ != "event"@);
    assert("subscribe"@ != "event"@);
    assert("report-bridge"@ != "event"@);
    assert("capability-probe"@ != "event"@);
}

/// A command ends at its first space, and its argument is what follows, white space aside.
pub proof fn law_command_and_argument(cmd: Seq<char>, arg: Seq<char>)
    requires
        forall|i: int| 0 <= i < cmd.len() ==> cmd[i] != ' ',
    ensures
        command_of(cmd + seq![' '] + arg) == (cmd, trimmed(arg)),
        command_of(cmd) == (cmd, Seq::<char>::empty()),
{
    let t = cmd + seq![' '] + arg;
    assert forall|i: int| 0 <= i < cmd.len() implies t[i] != ' ' by {
        assert(t[i] == cmd[i]);
    }
    lemma_index_of_at(t, ' ', cmd.len() as int);
    lemma_index_of_at(cmd, ' ', cmd.len() as int);
    assert(t.take(cmd.len() as int) =~= cmd);
    assert(t.skip(cmd.len() as int + 1) =~= arg);
}

/// The status is answered with the counters of the engine, the packages that are frozen and that
/// wait, and the process of the daemon; nothing changes.
pub proof fn law_status_command(d: DaemonView, c: CommandEnvView, mgmt: bool, line: Seq<char>)
    requires
        command_of(trimmed(line)).0 == "status"@,
    ensures
        ({
            let (u, h) = conn_handled(d, c, mgmt, line);
            &&& u == d
            &&& h matches HandledView::Reply(t) && tells(
                t,
                ",\"freeze_ops\":"@,
                dec(d.engine.counters.freeze_ops as nat),
            ) && tells(t, ",\"unfreeze_ops\":"@, dec(d.engine.counters.unfreeze_ops as nat)) && tells(
                t,
                ",\"events_total\":"@,
                dec(d.engine.log.total as nat),
            ) && tells(t, ",\"daemon_running\":1,\"daemon_pid\":"@, dec(c.pid as nat)) && tells(
                t,
                ",\"connections_served\":"@,
                dec(d.connections_served as nat),
            )
        }),
{
    lemma_commands_differ();
    law_status_tells_the_counters(d, c.env.now, c.pid);
    law_status_tells_the_policy(d, c.env.now, c.pid);
    law_status_tells_the_daemon(d, c.env.now, c.pid);
}

/// The events are answered with as many of the last ones as are asked for, and with all of them
/// where no number is given; nothing changes.
pub proof fn law_events_command(d: DaemonView, c: CommandEnvView, mgmt: bool, line: Seq<char>, n: nat)
    requires
        command_of(trimmed(line)).0 == "events"@,
        n <= u32::MAX,
    ensures
        conn_handled(d, c, mgmt, line).0 == d,
        command_of(trimmed(line)).1 == dec(n) ==> conn_handled(d, c, mgmt, line).1
            == HandledView::Reply(json_array(last_events(d.engine.log.events, n as int))),
        command_of(trimmed(line)).1.len() == 0 ==> conn_handled(d, c, mgmt, line).1
            == HandledView::Reply(json_array(d.engine.log.events)),
{
    lemma_commands_differ();
    law_dec_reads_back(n, usize::MAX as int);
    let arg = command_of(trimmed(line)).1;
    if arg.len() == 0 {
        assert(crate::text::without_plus(arg).len() == 0);
    }
}

/// A dex that says hello with its build is listened to from then on and known by that build; a
/// probe is known by its own. Without a build neither is.
pub proof fn law_hello_commands(d: DaemonView, c: CommandEnvView, mgmt: bool, line: Seq<char>)
    ensures
        ({
            let (cmd, arg) = command_of(trimmed(line));
            let (u, h) = conn_handled(d, c, mgmt, line);
            &&& cmd == "hello-dex"@ && arg.len() > 0 ==> h is Listen && build_of(u.dex) == Some(arg)
                && u.probe == d.probe
            &&& cmd == "hello-dex"@ && arg.len() == 0 ==> h is Reply && u == d
            &&& cmd == "hello-probe"@ && arg.len() > 0 ==> h is Reply && build_of(u.probe) == Some(
                arg,
            ) && u.dex == d.dex
            &&& cmd == "hello-probe"@ && arg.len() == 0 ==> h is Reply && u == d
        }),
{
    lemma_commands_differ();
}

/// What is left to do for the commands that the daemon cannot answer by itself: it rereads its
/// configuration, which is counted; it sends the bytes of the dex, or has those of a file sent to
/// the listeners; it ends.
pub proof fn law_commands_that_go_on(d: DaemonView, c: CommandEnvView, line: Seq<char>)
    ensures
        ({
            let (cmd, arg) = command_of(trimmed(line));
            let (u, h) = conn_handled(d, c, true, line);
            &&& cmd == "reload-config"@ ==> h is Reload && u.config_reloads
                == d.config_reloads.wrapping_add(1) && u.engine == d.engine
            &&& cmd == "fetch-dex"@ ==> h is SendDex && u == d
            &&& cmd == "push-dex"@ && arg.len() > 0 ==> h == HandledView::PushDex(arg) && u == d
            &&& cmd == "push-dex"@ && arg.len() == 0 ==> h == HandledView::PushDex(
                crate::paths::PROBE_DEX@,
            ) && u == d
            &&& cmd == "analyze"@ ==> h is Analyze && u == d
            &&& cmd == "stop"@ ==> h is Stop && u == d
        }),
{
    lemma_commands_differ();
}

/// The state of the policy is answered with its parameters and the counters; applying a preset
/// puts it in force, and one that does not exist changes nothing.
pub proof fn law_policy_commands(
    d: DaemonView,
    c: CommandEnvView,
    line: Seq<char>,
    name: Seq<char>,
    arg: Seq<char>,
)
    requires
        command_of(trimmed(line)) == ("policy"@, arg),
    ensures
        ({
            let (u, h) = conn_handled(d, c, true, line);
            let (sub, rest) = command_of(arg);
            &&& sub == "status"@ ==> u == d && (h matches HandledView::Reply(t) && tells(
                t,
                ",\"grace_seconds\":"@,
                dec(d.engine.policy.grace_seconds as nat),
            ) && tells(t, ",\"whitelist\":"@, string_array(d.engine.policy.whitelist)) && tells(
                t,
                ",\"freeze_ops\":"@,
                dec(d.engine.counters.freeze_ops as nat),
            ))
            &&& sub == "reload"@ ==> u == d && h is ReloadPolicy
            &&& sub == "preset"@ && command_of(rest) == ("apply"@, name) && name.len() > 0
                ==> match value_of(d.engine.presets.presets, name) {
                Some(p) => u.engine.active_preset == Some(name) && u.engine.policy.grace_seconds
                    == p.grace_seconds && u.engine.policy.enabled == p.enabled && h is Reply,
                None => u == d && h is Reply,
            }
            &&& sub == "preset"@ && command_of(rest).0 == "clear"@ ==> u == d && h is ClearPreset
            &&& sub == "preset"@ && command_of(rest).0 == "list"@ ==> u == d && h is Reply
        }),
{
    lemma_commands_differ();
    reveal_strlit("preset");
    reveal_strlit("reload");
    reveal_strlit("apply");
    reveal_strlit("clear");
    reveal_strlit("list");
    assert("preset"@.len() == 6);
    assert("reload"@.len() == 6);
    assert("apply"@.len() == 5);
    assert("clear"@.len() == 5);
    assert("list"@.len() == 4);
    assert("preset"@[0] != "reload"@[0]);
    assert("preset"@ != "reload"@);
    assert("apply"@ != "list"@);
    assert("apply"@[0] != "clear"@[0]);
    assert("apply"@ != "clear"@);
    assert("list"@ != "clear"@);
    reveal_strlit("status");
    assert("preset"@[0] != "status"@[0]);
    assert("reload"@[0] != "status"@[0]);
    law_policy_report_tells(d.engine);
}

/// What a listener may say besides its events: its build, that of the bridge, and what it found
/// out of the device; each is known from then on.
pub proof fn law_listener_commands(
    d: DaemonView,
    c: CommandEnvView,
    id: u64,
    found: Option<u32>,
    line: Seq<char>,
)
    ensures
        ({
            let (cmd, arg) = command_of(trimmed(line));
            let (u, h) = dex_line_handled(d, c, id, found, line);
            &&& cmd == "hello-dex"@ && arg.len() > 0 ==> build_of(u.dex) == Some(arg) && h is Reply
            &&& cmd == "report-bridge"@ && arg.len() > 0 ==> build_of(u.hook_bridge) == Some(arg)
                && u.dex == d.dex
            &&& cmd == "capability-probe"@ && arg.len() > 0 ==> u.dex_capability == Some(arg)
            &&& cmd == "subscribe"@ ==> u == subscribe_handled(d, id, arg).0
            &&& cmd == "event"@ ==> (u, h) == crate::sock_event::event_handled(d, c.env, found, arg)
            &&& arg.len() == 0 && (cmd == "hello-dex"@ || cmd == "report-bridge"@ || cmd
                == "capability-probe"@) ==> u == d && h is Reply
            &&& cmd == "ping"@ ==> u == d
        }),
{
    lemma_commands_differ();
}

// ---- What listeners want ----

/// A wish for kinds, and one for packages, is for those that it lists, and leaves the other; a
/// wish for anything else is passed over, and a word without an equals sign is not understood.
pub proof fn law_wishes_are_for_what_they_list(s: SubscriptionView, list: Seq<char>, word: Seq<char>)
    ensures
        wish_after(s, "kinds="@ + list) == Ok::<SubscriptionView, Seq<char>>(
            SubscriptionView { kinds: trimmed_non_empty(pieces(list, ',')), packages: s.packages },
        ),
        wish_after(s, "packages="@ + list) == Ok::<SubscriptionView, Seq<char>>(
            SubscriptionView { kinds: s.kinds, packages: trimmed_non_empty(pieces(list, ',')) },
        ),
        (forall|i: int| 0 <= i < word.len() ==> word[i] != '=') ==> wish_after(s, word) is Err,
{
    reveal_strlit("kinds=");
    reveal_strlit("packages=");
    reveal_strlit("kinds");
    reveal_strlit("packages");
    let a = "kinds="@ + list;
    let b = "packages="@ + list;
    assert forall|i: int| 0 <= i < 5 implies a[i] != '=' by {
        assert(a[i] == "kinds="@[i]);
    }
    assert(a[5] == '=');
    assert forall|i: int| 0 <= i < 8 implies b[i] != '=' by {
        assert(b[i] == "packages="@[i]);
    }
    assert(b[8] == '=');
    lemma_index_of_at(a, '=', 5);
    lemma_index_of_at(b, '=', 8);
    assert(a.take(5) =~= "kinds"@);
    assert(b.take(8) =~= "packages"@);
    assert("kinds"@.len() != "packages"@.len());
    assert(a.skip(6) =~= list);
    assert(b.skip(9) =~= list);
    if forall|i: int| 0 <= i < word.len() ==> word[i] != '=' {
        lemma_index_of_at(word, '=', word.len() as int);
    }
}

/// The wishes of a listener are replaced by what it asks for, and those of the others stay. What
/// it does not ask about counts as wished for; clearing its wishes makes it hear everything.
pub proof fn law_subscribe_replaces_wishes(d: DaemonView, id: u64, arg: Seq<char>, i: int, j: int)
    requires
        client_at(d.clients, id) == Some(i),
        0 <= j < d.clients.len(),
        j != i,
    ensures
        ({
            let u = subscribe_handled(d, id, arg).0;
            &&& u.clients.len() == d.clients.len()
            &&& u.clients[j] == d.clients[j]
            &&& u.clients[i].id == id
            &&& arg.len() == 0 || arg == "clear"@ ==> u.clients[i].wants == everything()
            &&& arg.len() > 0 && arg != "clear"@ && arg != "query"@ ==> match subscription_of(arg) {
                Ok(s) => u.clients[i].wants == s,
                Err(_) => u == d,
            }
            &&& arg == "query"@ ==> u == d
            &&& u.engine == d.engine
        }),
{
    reveal_strlit("clear");
    reveal_strlit("query");
    assert("clear"@[0] != "query"@[0]);
    assert("query"@.len() == 5);
    law_client_at(d.clients, id);
}

/// Wishes follow one another: what comes later replaces what came before, kind by kind.
pub proof fn law_later_wishes_count(ws: Seq<Seq<char>>, list: Seq<char>)
    ensures
        wishes(ws) matches Ok(s) ==> {
            &&& wishes(ws.push("kinds="@ + list)) == Ok::<SubscriptionView, Seq<char>>(
                SubscriptionView {
                    kinds: trimmed_non_empty(pieces(list, ',')),
                    packages: s.packages,
                },
            )
            &&& wishes(ws.push("packages="@ + list)) == Ok::<SubscriptionView, Seq<char>>(
                SubscriptionView {
                    kinds: s.kinds,
                    packages: trimmed_non_empty(pieces(list, ',')),
                },
            )
        },
        wishes(Seq::empty()) == Ok::<SubscriptionView, Seq<char>>(everything()),
        everything().kinds.len() == 0 && everything().packages.len() == 0,
{
    assert(ws.push("kinds="@ + list).drop_last() =~= ws);
    assert(ws.push("packages="@ + list).drop_last() =~= ws);
    if let Ok(s) = wishes(ws) {
        law_wishes_are_for_what_they_list(s, list, list);
    }
}

// ---- Sending the dex ----

/// The bytes of the dex are sent with their number and their build, where that is the expected
/// one, or where it or the expected one is not known; otherwise nothing is sent.
#[verifier::rlimit(30)]
pub proof fn law_dex_is_sent_with_its_build(b: Seq<u8>, expected: Option<Seq<char>>)
    ensures
        ({
            let actual = dex_version(b);
            let goes = expected is None || actual is None || expected == actual;
            &&& fetch_answer(b, expected).1 == goes
            &&& push_announcement(b, expected).1 == goes
            &&& goes ==> tells(fetch_answer(b, expected).0, "{\"ok\":1,\"size\":"@, dec(b.len()))
            &&& goes ==> tells(
                fetch_answer(b, expected).0,
                ",\"expected_hash\":"@,
                opt_quoted(expected),
            )
            &&& goes ==> tells(
                fetch_answer(b, expected).0,
                ",\"actual_hash\":"@,
                opt_quoted(actual),
            )
            &&& goes ==> tells(
                push_announcement(b, expected).0,
                "{\"event\":\"dex-push\",\"size\":"@,
                dec(b.len()),
            )
        }),
{
    let actual = dex_version(b);
    let n = dec(b.len());
    reveal_strlit(",\"expected_hash\":");
    reveal_strlit(",\"actual_hash\":");
    reveal_strlit("}");
    let x = ",\"expected_hash\":"@;
    let y = ",\"actual_hash\":"@;
    let e = opt_quoted(expected);
    let a = opt_quoted(actual);
    let tail = x + e + y + a + "}"@;
    assert(tail[0] == ',');
    let k = "{\"ok\":1,\"size\":"@;
    let none = Seq::<char>::empty();
    let body = crate::dex::size_and_builds(b.len(), expected, actual);
    assert(body =~= n + tail);
    assert(k + body =~= none + k + n + tail);
    assert(crate::report_laws::stands_at(k + body, none, k, n, tail));
    let rest = y + a + "}"@;
    assert(rest[0] == ',');
    assert(k + body =~= (k + n) + x + e + rest);
    assert(crate::report_laws::stands_at(k + body, k + n, x, e, rest));
    assert(k + body =~= (k + n + x + e) + y + a + "}"@);
    assert(crate::report_laws::stands_at(k + body, k + n + x + e, y, a, "}"@));
    let p = "{\"event\":\"dex-push\",\"size\":"@;
    let whole = p + body + "\n"@;
    assert((tail + "\n"@)[0] == ',');
    assert(whole =~= none + p + n + (tail + "\n"@));
    assert(crate::report_laws::stands_at(whole, none, p, n, tail + "\n"@));
}

// ---- Reports on apps ----

/// The summary of the profiles tells how many apps there are, and all wakeups and freezes; the
/// profile of one app is told where it has one.
#[verifier::rlimit(30)]
pub proof fn law_profile_commands(d: DaemonView, c: CommandEnvView, line: Seq<char>)
    requires
        command_of(trimmed(line)).0 == "profile"@,
    ensures
        ({
            let (u, h) = conn_handled(d, c, true, line);
            let (sub, rest) = command_of(trimmed(command_of(trimmed(line)).1));
            let t = d.engine.profile;
            &&& u == d
            &&& sub == "summary"@ ==> (h matches HandledView::Reply(s) && tells(
                s,
                "{\"ok\":1,\"apps\":"@,
                dec(t.len()),
            ) && tells(s, ",\"wakeups\":"@, dec(wakeups_of(t) as nat)) && tells(
                s,
                ",\"freezes\":"@,
                dec(freezes_of(t) as nat),
            ))
            &&& sub == "get"@ ==> (value_of(t, rest) matches Some(p) ==> h == HandledView::Reply(
                "{\"ok\":1,\"profile\":"@ + usage_text((rest, p)) + "}"@,
            ))
            &&& sub == "top"@ && rest.len() == 0 && t.len() <= 10 ==> h == HandledView::Reply(
                top_text(by_wakeups(t)),
            )
        }),
{
    lemma_commands_differ();
    reveal_strlit("top");
    reveal_strlit("summary");
    reveal_strlit("get");
    assert("top"@[0] != "get"@[0]);
    assert("top"@.len() == 3 && "summary"@.len() == 7 && "get"@.len() == 3);
    let t = d.engine.profile;
    law_ranking_by_wakeups(t);
    let k = "{\"ok\":1,\"apps\":"@;
    let x = ",\"wakeups\":"@;
    let y = ",\"freezes\":"@;
    let a = dec(t.len());
    let b = dec(wakeups_of(t) as nat);
    let f = dec(freezes_of(t) as nat);
    let none = Seq::<char>::empty();
    reveal_strlit(",\"wakeups\":");
    reveal_strlit(",\"freezes\":");
    reveal_strlit("}");
    let s = k + a + x + b + y + f + "}"@;
    let r1 = x + b + y + f + "}"@;
    let r2 = y + f + "}"@;
    assert(r1[0] == ',' && r2[0] == ',');
    assert(s =~= none + k + a + r1);
    assert(crate::report_laws::stands_at(s, none, k, a, r1));
    assert(s =~= (k + a) + x + b + r2);
    assert(crate::report_laws::stands_at(s, k + a, x, b, r2));
    assert(crate::report_laws::stands_at(s, k + a + x + b, y, f, "}"@));
    let rest = command_of(trimmed(command_of(trimmed(line)).1)).1;
    if rest.len() == 0 {
        assert(crate::text::without_plus(rest).len() == 0);
    }
}

} // verus!
