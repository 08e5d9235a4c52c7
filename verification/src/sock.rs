//! The two ways in: the management socket, which only root can reach, and the socket of the
//! probe. Commands that change something are for the first alone.

use vstd::prelude::*;
use crate::engine::stamped;
use crate::engine_ops::{Env, EnvView};
use crate::engine_rules::{known_uids, managed_names};
use crate::engine_state::noted_system;
use crate::events::{json_array, last_events, EvAction, EvLevel};
use crate::json::{match_text, number_array, opt_quoted, push_match, push_number_array, push_opt_quoted};
use crate::names::keys_of;
use crate::order::sorted_set;
use crate::paths::{PROBE_DEX, PROBE_DEX_MOUNT};
use crate::protocol::{command_of, ok, ok_text, split_command, Answered, Handled, HandledView};
use crate::sock_admin::{handle_rules, policy_handled, rules_answer, subscribe_handled};
use crate::sock_reports::{capability_handled, handle_profile, profile_answer};
use crate::sock_event::{event_handled, event_pid, event_pid_of};
use crate::state::{build_of, status_text, uptime, DaemonState, DaemonView, ReportView};
use crate::text::{
    chars_of, dec, parse_unsigned, push_dec, same, string_of, trim, trimmed, unsigned_of,
};

verus! {

broadcast use crate::lists::group_texts;

/// What is known of the outside when a command comes.
#[derive(Debug)]
pub struct CommandEnv {
    pub env: Env,
    pub pid: u32,
    /// Whether the probe is where everyone can read it.
    pub dex_present: bool,
}

pub struct CommandEnvView {
    pub env: EnvView,
    pub pid: u32,
    pub dex_present: bool,
}

impl View for CommandEnv {
    type V = CommandEnvView;

    open spec fn view(&self) -> CommandEnvView {
        CommandEnvView { env: self.env@, pid: self.pid, dex_present: self.dex_present }
    }
}

pub open spec fn digit_text(b: bool) -> Seq<char> {
    if b {
        "1"@
    } else {
        "0"@
    }
}

fn push_digit(out: &mut String, b: bool)
    ensures
        final(out)@ == old(out)@ + digit_text(b),
{
    if b {
        out.append("1");
    } else {
        out.append("0");
    }
}

/// What the stub is told. The path is always one that it can read.
pub open spec fn probe_answer(d: DaemonView, dex_present: bool) -> Seq<char> {
    "{\"ok\":1,\"hash_match\":"@ + match_text(d.expected_probe_hash, build_of(d.probe))
        + ",\"expected_hash\":"@ + opt_quoted(d.expected_probe_hash) + ",\"dex_path\":\""@
        + PROBE_DEX_MOUNT@ + "\",\"dex_present\":"@ + digit_text(dex_present) + "}"@
}

/// What the probe is told: besides the builds, the uids that are frozen and those that are
/// managed.
pub open spec fn dex_answer(d: DaemonView, c: CommandEnvView) -> Seq<char> {
    "{\"ok\":1,\"dex_hash_match\":"@ + match_text(d.expected_dex_hash, build_of(d.dex))
        + ",\"expected_dex_hash\":"@ + opt_quoted(d.expected_dex_hash) + ",\"dex_path\":\""@
        + PROBE_DEX_MOUNT@ + "\",\"dex_present\":"@ + digit_text(c.dex_present)
        + ",\"frozen_uids\":"@ + number_array(
        sorted_set(known_uids(d.engine, c.env, keys_of(d.engine.frozen))),
    ) + ",\"candidate_uids\":"@ + number_array(
        sorted_set(known_uids(d.engine, c.env, managed_names(d.engine))),
    ) + "}"@
}

/// What the native library is told.
pub open spec fn bridge_answer(d: DaemonView) -> Seq<char> {
    "{\"ok\":1,\"bridge_hash_match\":"@ + match_text(
        d.expected_hook_hash,
        build_of(d.hook_bridge),
    ) + "}"@
}

/// The daemon after a build was reported to its log.
pub open spec fn report_logged(
    d: DaemonView,
    e: EnvView,
    reason: Seq<char>,
    msg: Seq<char>,
) -> DaemonView {
    DaemonView {
        engine: noted_system(
            stamped(d.engine, e),
            EvLevel::Report,
            EvAction::System,
            reason,
            Some(msg),
        ),
        ..d
    }
}

/// The daemon after the probe reported its build.
pub open spec fn dex_reported(
    d: DaemonView,
    c: CommandEnvView,
    version: Seq<char>,
    reason: Seq<char>,
) -> DaemonView {
    report_logged(
        DaemonView {
            dex: Some(ReportView { build: version, after_secs: uptime(d, c.env.now) }),
            ..d
        },
        c.env,
        reason,
        "version="@ + version,
    )
}

pub open spec fn probe_reported(d: DaemonView, c: CommandEnvView, hash: Seq<char>) -> DaemonView {
    report_logged(
        DaemonView {
            probe: Some(ReportView { build: hash, after_secs: uptime(d, c.env.now) }),
            ..d
        },
        c.env,
        "probe_handshake"@,
        "hash="@ + hash,
    )
}

pub open spec fn bridge_reported(d: DaemonView, c: CommandEnvView, hash: Seq<char>) -> DaemonView {
    report_logged(
        DaemonView {
            hook_bridge: Some(ReportView { build: hash, after_secs: uptime(d, c.env.now) }),
            ..d
        },
        c.env,
        "bridge_report"@,
        "hash="@ + hash,
    )
}

/// The daemon after the probe reported what it found out about the system it runs in.
pub open spec fn findings_reported(d: DaemonView, c: CommandEnvView, text: Seq<char>) -> DaemonView {
    report_logged(
        DaemonView { dex_capability: Some(text), ..d },
        c.env,
        "capability_probe_dex"@,
        "chars="@ + dec(text.len()),
    )
}

pub open spec fn needs(command: Seq<char>, what: Seq<char>) -> Seq<char> {
    "{\"ok\":0,\"error\":\""@ + command + " requires "@ + what + "\"}"@
}

pub open spec fn managers_only(command: Seq<char>) -> HandledView {
    HandledView::Reply(
        "{\"ok\":0,\"error\":\""@ + command + " is management-channel only\"}"@,
    )
}

/// The number of events that is asked for; 0 stands for all.
pub open spec fn event_limit(arg: Seq<char>) -> int {
    match unsigned_of(arg, usize::MAX as int) {
        Some(n) => n,
        None => 0,
    }
}

/// What becomes of the first line of a connection.
pub open spec fn conn_handled(d: DaemonView, c: CommandEnvView, mgmt: bool, line: Seq<char>) -> Answered {
    let (cmd, arg) = command_of(trimmed(line));
    if cmd == "hello-dex"@ {
        if arg.len() == 0 {
            (d, HandledView::Reply(needs("hello-dex"@, "<build_version>"@)))
        } else {
            let d2 = dex_reported(d, c, arg, "dex_handshake"@);
            (d2, HandledView::Listen(dex_answer(d2, c)))
        }
    } else if cmd == "ping"@ {
        (d, HandledView::Reply("{\"ok\":1,\"pong\":1}"@))
    } else if cmd == "status"@ {
        (d, HandledView::Reply(status_text(d, c.env.now, c.pid)))
    } else if cmd == "events"@ {
        (d, HandledView::Reply(json_array(last_events(d.engine.log.events, event_limit(arg)))))
    } else if cmd == "reload-config"@ {
        (
            DaemonView { config_reloads: d.config_reloads.wrapping_add(1), ..d },
            HandledView::Reload("{\"ok\":1,\"reloaded\":1}"@),
        )
    } else if cmd == "hello-probe"@ {
        if arg.len() == 0 {
            (d, HandledView::Reply(needs("hello-probe"@, "<build_hash>"@)))
        } else {
            let d2 = probe_reported(d, c, arg);
            (d2, HandledView::Reply(probe_answer(d2, c.dex_present)))
        }
    } else if cmd == "probe-query"@ {
        (d, HandledView::Reply(probe_answer(d, c.dex_present)))
    } else if cmd == "fetch-dex"@ {
        (d, HandledView::SendDex)
    } else if cmd == "push-dex"@ {
        if !mgmt {
            (d, managers_only("push-dex"@))
        } else if arg.len() == 0 {
            (d, HandledView::PushDex(PROBE_DEX@))
        } else {
            (d, HandledView::PushDex(arg))
        }
    } else if cmd == "policy"@ {
        if !mgmt {
            (d, managers_only("policy"@))
        } else {
            policy_handled(d, c.env.epoch, arg)
        }
    } else if cmd == "rules"@ {
        if !mgmt {
            (d, managers_only("rules"@))
        } else {
            (d, HandledView::Reply(rules_answer(d.engine.rules, arg)))
        }
    } else if cmd == "profile"@ {
        if !mgmt {
            (d, managers_only("profile"@))
        } else {
            (d, HandledView::Reply(profile_answer(d.engine.profile, arg)))
        }
    } else if cmd == "analyze"@ {
        if !mgmt {
            (d, managers_only("analyze"@))
        } else {
            (d, HandledView::Analyze)
        }
    } else if cmd == "capability"@ {
        if !mgmt {
            (d, managers_only("capability"@))
        } else {
            (d, capability_handled(d, arg))
        }
    } else if cmd == "stop"@ {
        (d, HandledView::Stop("{\"ok\":1,\"stopping\":1}"@))
    } else {
        (d, HandledView::Reply("{\"ok\":0,\"error\":\"unknown command: "@ + cmd + "\"}"@))
    }
}

/// What becomes of a line of a listener.
pub open spec fn dex_line_handled(
    d: DaemonView,
    c: CommandEnvView,
    id: u64,
    found: Option<u32>,
    line: Seq<char>,
) -> Answered {
    let (cmd, arg) = command_of(trimmed(line));
    if cmd == "ping"@ {
        (d, HandledView::Reply("{\"ok\":1,\"pong\":1}"@))
    } else if cmd == "hello-dex"@ {
        if arg.len() == 0 {
            (d, HandledView::Reply(needs("hello-dex"@, "<build_version>"@)))
        } else {
            let d2 = dex_reported(d, c, arg, "dex_reregister"@);
            (d2, HandledView::Reply(dex_answer(d2, c)))
        }
    } else if cmd == "subscribe"@ {
        let (d2, s) = subscribe_handled(d, id, arg);
        (d2, HandledView::Reply(s))
    } else if cmd == "report-bridge"@ {
        if arg.len() == 0 {
            (d, HandledView::Reply(needs("report-bridge"@, "<build_hash>"@)))
        } else {
            let d2 = bridge_reported(d, c, arg);
            (d2, HandledView::Reply(bridge_answer(d2)))
        }
    } else if cmd == "capability-probe"@ {
        if arg.len() == 0 {
            (d, HandledView::Reply(needs("capability-probe"@, "<json>"@)))
        } else {
            (findings_reported(d, c, arg), HandledView::Reply(ok_text()))
        }
    } else if cmd == "event"@ {
        event_handled(d, c.env, found, arg)
    } else {
        (
            d,
            HandledView::Reply(
                "{\"ok\":0,\"error\":\"subscription connection: unsupported command: "@ + cmd
                    + "\"}"@,
            ),
        )
    }
}

/// On the socket of the probe no command can change the policy, list the rules, report on the
/// apps or the device, or send bytes to the listeners: the answer is an error, and nothing changes.
pub proof fn law_management_is_closed(d: DaemonView, c: CommandEnvView, line: Seq<char>)
    requires
        ({
            let cmd = command_of(trimmed(line)).0;
            cmd == "push-dex"@ || cmd == "policy"@ || cmd == "rules"@ || cmd == "profile"@
                || cmd == "analyze"@ || cmd == "capability"@
        }),
    ensures
        ({
            let cmd = command_of(trimmed(line)).0;
            conn_handled(d, c, false, line) == (d, managers_only(cmd))
        }),
{
    reveal_strlit("hello-dex");
    reveal_strlit("ping");
    reveal_strlit("status");
    reveal_strlit("events");
    reveal_strlit("reload-config");
    reveal_strlit("hello-probe");
    reveal_strlit("probe-query");
    reveal_strlit("fetch-dex");
    reveal_strlit("push-dex");
    reveal_strlit("policy");
    reveal_strlit("rules");
    reveal_strlit("profile");
    reveal_strlit("analyze");
    reveal_strlit("capability");
    let cmd = command_of(trimmed(line)).0;
    assert(cmd.len() != "hello-dex"@.len() && cmd.len() != "ping"@.len() && cmd.len()
        != "reload-config"@.len() && cmd.len() != "hello-probe"@.len() && cmd.len()
        != "fetch-dex"@.len());
    assert(cmd[1] != "status"@[1]);
    assert(cmd[0] != "events"@[0]);
    assert("push-dex"@[1] != "policy"@[1]);
    assert("push-dex"@[0] != "rules"@[0]);
    assert("policy"@[0] != "rules"@[0]);
    assert("profile"@[0] != "analyze"@[0]);
}

/// Only the report of a build, a reload and a command about the policy change anything; all
/// other lines, known or not, are answered and leave everything as it is.
pub proof fn law_queries_change_nothing(
    d: DaemonView,
    c: CommandEnvView,
    mgmt: bool,
    line: Seq<char>,
)
    requires
        ({
            let cmd = command_of(trimmed(line)).0;
            cmd != "hello-dex"@ && cmd != "hello-probe"@ && cmd != "reload-config"@ && cmd
                != "policy"@
        }),
    ensures
        conn_handled(d, c, mgmt, line).0 == d,
{
}

/// The process whose uid has to be found out for a line of a listener.
pub open spec fn line_pid_of(line: Seq<char>) -> Option<u32> {
    let (cmd, arg) = command_of(trimmed(line));
    if cmd == "event"@ {
        event_pid_of(arg)
    } else {
        None
    }
}

pub fn line_pid(line: &str) -> (r: Option<u32>)
    ensures
        r == line_pid_of(line@),
{
    let v: Vec<char> = chars_of(line);
    let (cmd, arg) = split_command(trim(v.as_slice()));
    if same(cmd, "event") {
        let a: String = string_of(arg);
        event_pid(a.as_str())
    } else {
        None
    }
}

fn required(command: &str, what: &str) -> (r: Handled)
    ensures
        r@ == HandledView::Reply(needs(command@, what@)),
{
    let mut s: String = String::from_str("{\"ok\":0,\"error\":\"");
    s.append(command);
    s.append(" requires ");
    s.append(what);
    s.append("\"}");
    Handled::Reply(s)
}

fn not_here(command: &str) -> (r: Handled)
    ensures
        r@ == managers_only(command@),
{
    let mut s: String = String::from_str("{\"ok\":0,\"error\":\"");
    s.append(command);
    s.append(" is management-channel only\"}");
    Handled::Reply(s)
}

fn joined_text(a: &str, b: &str) -> (r: String)
    ensures
        r@ == a@ + b@,
{
    let mut s: String = String::from_str(a);
    s.append(b);
    s
}

impl DaemonState {
    fn log_report(&mut self, reason: &str, msg: &str, env: &Env)
        ensures
            final(self)@ == report_logged(old(self)@, env@, reason@, msg@),
    {
        self.engine.set_clock(env.epoch);
        self.engine.note_system(EvLevel::Report, EvAction::System, reason, Some(msg));
    }

    /// What the stub is told.
    pub fn probe_response(&self, dex_present: bool) -> (r: String)
        ensures
            r@ == probe_answer(self@, dex_present),
    {
        let mut s: String = String::from_str("{\"ok\":1,\"hash_match\":");
        push_match(&mut s, &self.expected_probe_hash, self.probe_build());
        s.append(",\"expected_hash\":");
        push_opt_quoted(&mut s, &self.expected_probe_hash);
        s.append(",\"dex_path\":\"");
        s.append(PROBE_DEX_MOUNT);
        s.append("\",\"dex_present\":");
        push_digit(&mut s, dex_present);
        s.append("}");
        s
    }

    /// What the probe is told.
    pub fn dex_hello_response(&self, c: &CommandEnv) -> (r: String)
        ensures
            r@ == dex_answer(self@, c@),
    {
        let frozen: Vec<u32> = self.engine.sundown_frozen_uids(&c.env);
        let managed: Vec<u32> = self.engine.sundown_candidate_uids(&c.env);
        let mut s: String = String::from_str("{\"ok\":1,\"dex_hash_match\":");
        push_match(&mut s, &self.expected_dex_hash, self.dex_build());
        s.append(",\"expected_dex_hash\":");
        push_opt_quoted(&mut s, &self.expected_dex_hash);
        s.append(",\"dex_path\":\"");
        s.append(PROBE_DEX_MOUNT);
        s.append("\",\"dex_present\":");
        push_digit(&mut s, c.dex_present);
        s.append(",\"frozen_uids\":");
        push_number_array(&mut s, &frozen);
        s.append(",\"candidate_uids\":");
        push_number_array(&mut s, &managed);
        s.append("}");
        s
    }

    /// What the native library is told.
    pub fn bridge_response(&self) -> (r: String)
        ensures
            r@ == bridge_answer(self@),
    {
        let mut s: String = String::from_str("{\"ok\":1,\"bridge_hash_match\":");
        push_match(&mut s, &self.expected_hook_hash, self.bridge_build());
        s.append("}");
        s
    }

    fn take_dex_report(&mut self, version: &str, reason: &str, c: &CommandEnv) -> (r: String)
        ensures
            final(self)@ == dex_reported(old(self)@, c@, version@, reason@),
            r@ == dex_answer(final(self)@, c@),
    {
        self.record_dex(version, c.env.now);
        let msg: String = joined_text("version=", version);
        self.log_report(reason, msg.as_str(), &c.env);
        self.dex_hello_response(c)
    }

    fn take_probe_report(&mut self, hash: &str, c: &CommandEnv) -> (r: String)
        ensures
            final(self)@ == probe_reported(old(self)@, c@, hash@),
            r@ == probe_answer(final(self)@, c@.dex_present),
    {
        self.record_probe(hash, c.env.now);
        let msg: String = joined_text("hash=", hash);
        self.log_report("probe_handshake", msg.as_str(), &c.env);
        self.probe_response(c.dex_present)
    }

    fn take_bridge_report(&mut self, hash: &str, c: &CommandEnv) -> (r: String)
        ensures
            final(self)@ == bridge_reported(old(self)@, c@, hash@),
            r@ == bridge_answer(final(self)@),
    {
        self.record_bridge(hash, c.env.now);
        let msg: String = joined_text("hash=", hash);
        self.log_report("bridge_report", msg.as_str(), &c.env);
        self.bridge_response()
    }

    fn take_findings(&mut self, text: String, chars: usize, c: &CommandEnv)
        requires
            chars == text@.len(),
        ensures
            final(self)@ == findings_reported(old(self)@, c@, text@),
    {
        let mut msg: String = String::from_str("chars=");
        push_dec(&mut msg, chars as u64);
        self.dex_capability = Some(text);
        self.log_report("capability_probe_dex", msg.as_str(), &c.env);
    }

    fn events_text(&self, arg: &[char]) -> (r: String)
        ensures
            r@ == json_array(last_events(self@.engine.log.events, event_limit(arg@))),
    {
        let limit: usize = match parse_unsigned(arg, usize::MAX as u64) {
            Some(n) => n as usize,
            None => 0,
        };
        self.engine.log_ref().to_json(limit)
    }

    /// Takes up the first line of a connection.
    pub fn handle_conn(&mut self, line: &str, mgmt: bool, c: &CommandEnv) -> (r: Handled)
        ensures
            (final(self)@, r@) == conn_handled(old(self)@, c@, mgmt, line@),
    {
        let v: Vec<char> = chars_of(line);
        let (cmd, rest) = split_command(trim(v.as_slice()));
        let arg: String = string_of(rest);
        if same(cmd, "hello-dex") {
            if rest.len() == 0 {
                required("hello-dex", "<build_version>")
            } else {
                Handled::Listen(self.take_dex_report(arg.as_str(), "dex_handshake", c))
            }
        } else if same(cmd, "ping") {
            Handled::Reply(String::from_str("{\"ok\":1,\"pong\":1}"))
        } else if same(cmd, "status") {
            Handled::Reply(self.status_json(c.env.now, c.pid))
        } else if same(cmd, "events") {
            Handled::Reply(self.events_text(rest))
        } else if same(cmd, "reload-config") {
            self.bump_config_reloads();
            Handled::Reload(String::from_str("{\"ok\":1,\"reloaded\":1}"))
        } else if same(cmd, "hello-probe") {
            if rest.len() == 0 {
                required("hello-probe", "<build_hash>")
            } else {
                Handled::Reply(self.take_probe_report(arg.as_str(), c))
            }
        } else if same(cmd, "probe-query") {
            Handled::Reply(self.probe_response(c.dex_present))
        } else if same(cmd, "fetch-dex") {
            Handled::SendDex
        } else if same(cmd, "push-dex") {
            if !mgmt {
                not_here("push-dex")
            } else if rest.len() == 0 {
                Handled::PushDex(String::from_str(PROBE_DEX))
            } else {
                Handled::PushDex(arg)
            }
        } else if same(cmd, "policy") {
            if !mgmt {
                not_here("policy")
            } else {
                self.handle_policy(arg.as_str(), c.env.epoch)
            }
        } else if same(cmd, "rules") {
            if !mgmt {
                not_here("rules")
            } else {
                Handled::Reply(handle_rules(self.engine.rules_ref(), arg.as_str()))
            }
        } else if same(cmd, "profile") {
            if !mgmt {
                not_here("profile")
            } else {
                Handled::Reply(handle_profile(self.engine.profile_ref(), arg.as_str()))
            }
        } else if same(cmd, "analyze") {
            if !mgmt {
                not_here("analyze")
            } else {
                Handled::Analyze
            }
        } else if same(cmd, "capability") {
            if !mgmt {
                not_here("capability")
            } else {
                self.handle_capability(arg.as_str())
            }
        } else if same(cmd, "stop") {
            Handled::Stop(String::from_str("{\"ok\":1,\"stopping\":1}"))
        } else {
            let mut s: String = String::from_str("{\"ok\":0,\"error\":\"unknown command: ");
            let k: String = string_of(cmd);
            s.append(k.as_str());
            s.append("\"}");
            Handled::Reply(s)
        }
    }

    /// Takes up a line of a listener.
    pub fn handle_dex_line(&mut self, id: u64, line: &str, found: Option<u32>, c: &CommandEnv) -> (r:
        Handled)
        ensures
            (final(self)@, r@) == dex_line_handled(old(self)@, c@, id, found, line@),
    {
        let v: Vec<char> = chars_of(line);
        let (cmd, rest) = split_command(trim(v.as_slice()));
        let arg: String = string_of(rest);
        if same(cmd, "ping") {
            Handled::Reply(String::from_str("{\"ok\":1,\"pong\":1}"))
        } else if same(cmd, "hello-dex") {
            if rest.len() == 0 {
                required("hello-dex", "<build_version>")
            } else {
                Handled::Reply(self.take_dex_report(arg.as_str(), "dex_reregister", c))
            }
        } else if same(cmd, "subscribe") {
            Handled::Reply(self.handle_subscribe(id, arg.as_str()))
        } else if same(cmd, "report-bridge") {
            if rest.len() == 0 {
                required("report-bridge", "<build_hash>")
            } else {
                Handled::Reply(self.take_bridge_report(arg.as_str(), c))
            }
        } else if same(cmd, "capability-probe") {
            if rest.len() == 0 {
                required("capability-probe", "<json>")
            } else {
                self.take_findings(arg, rest.len(), c);
                Handled::Reply(ok())
            }
        } else if same(cmd, "event") {
            self.handle_event(arg.as_str(), found, &c.env)
        } else {
            let mut s: String = String::from_str(
                "{\"ok\":0,\"error\":\"subscription connection: unsupported command: ",
            );
            let k: String = string_of(cmd);
            s.append(k.as_str());
            s.append("\"}");
            Handled::Reply(s)
        }
    }
}

} // verus!
