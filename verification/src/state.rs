//! The state of the daemon around the engine: who reported what, who listens, and the status
//! report.

use vstd::prelude::*;
use crate::engine_admin::system_refreshed;
use crate::capability::{Capability, CapabilityView};
use crate::engine_laws::{
    law_start_is_sound, lemma_loaded_policy, lemma_loaded_presets, lemma_system_names, sound,
};
use crate::engine_rules::{proc_views, ProcText, ProcTextView};
use crate::engine_state::{initial_engine, EngineState, EngineView};
use crate::events::{opt_str, opt_view};
use crate::json::{
    match_text, opt_quoted, push_match, push_opt_quoted, push_string_array, string_array,
};
use crate::lists::{slice_texts, texts};
use crate::names::{contains_name, keys_of};
use crate::network::{elapsed, time_since};
use crate::order::sorted_texts;
use crate::paths::{RELEASE_NO, VERSION_NAME};
use crate::policy::Policy;
use crate::policy_file::loaded_policy;
use crate::preset::{loaded_presets, PresetTable};
use crate::text::{
    bool_text, chars_of, dec, ends_with, head, push_bool, push_dec, same, split_words, starts_with,
    string_of, strip_prefix, trim, trimmed, words,
};

verus! {

broadcast use crate::lists::group_texts;

/// A build that was reported, and how many seconds after the start of the daemon.
pub struct ReportView {
    pub build: Seq<char>,
    pub after_secs: u64,
}

/// What the stub reported.
#[derive(Debug)]
pub struct ProbeReport {
    pub build_hash: String,
    pub reported_after_secs: u64,
}

/// What the probe reported.
#[derive(Debug)]
pub struct DexReport {
    pub build_version: String,
    pub reported_after_secs: u64,
}

/// What the native library reported.
#[derive(Debug)]
pub struct BridgeReport {
    pub build_hash: String,
    pub reported_after_secs: u64,
}

impl View for ProbeReport {
    type V = ReportView;

    open spec fn view(&self) -> ReportView {
        ReportView { build: self.build_hash@, after_secs: self.reported_after_secs }
    }
}

impl View for DexReport {
    type V = ReportView;

    open spec fn view(&self) -> ReportView {
        ReportView { build: self.build_version@, after_secs: self.reported_after_secs }
    }
}

impl View for BridgeReport {
    type V = ReportView;

    open spec fn view(&self) -> ReportView {
        ReportView { build: self.build_hash@, after_secs: self.reported_after_secs }
    }
}

/// What a listener wants to hear of.
#[derive(Debug)]
pub struct Subscription {
    /// The kinds of events; none stands for all.
    pub kinds: Vec<String>,
    /// The packages, where `name.*` stands for the names below `name`, that is those that start
    /// with `name.` and go on; none stands for all. Events without a package are not filtered by it.
    pub packages: Vec<String>,
}

pub struct SubscriptionView {
    pub kinds: Seq<Seq<char>>,
    pub packages: Seq<Seq<char>>,
}

impl View for Subscription {
    type V = SubscriptionView;

    open spec fn view(&self) -> SubscriptionView {
        SubscriptionView { kinds: texts(self.kinds@), packages: texts(self.packages@) }
    }
}

/// To want everything.
pub open spec fn everything() -> SubscriptionView {
    SubscriptionView { kinds: Seq::empty(), packages: Seq::empty() }
}

/// Whether a pattern stands for a package.
pub open spec fn pattern_matches(pattern: Seq<char>, pkg: Seq<char>) -> bool {
    if ".*"@.is_suffix_of(pattern) {
        let prefix = pattern.take(pattern.len() - 1);
        prefix.is_prefix_of(pkg) && pkg.len() > prefix.len()
    } else {
        pattern == pkg
    }
}

pub open spec fn some_pattern_matches(patterns: Seq<Seq<char>>, pkg: Seq<char>) -> bool {
    exists|i: int| 0 <= i < patterns.len() && pattern_matches(#[trigger] patterns[i], pkg)
}

/// Whether a listener wants an event.
pub open spec fn wanted(s: SubscriptionView, kind: Seq<char>, pkg: Option<Seq<char>>) -> bool {
    &&& s.kinds.len() == 0 || s.kinds.contains(kind)
    &&& match pkg {
        Some(p) => s.packages.len() == 0 || some_pattern_matches(s.packages, p),
        None => true,
    }
}

/// A listener that asked for nothing in particular hears of everything.
pub proof fn law_default_wants_everything(kind: Seq<char>, pkg: Option<Seq<char>>)
    ensures
        wanted(everything(), kind, pkg),
{
}

/// The package filter never holds back an event without a package.
pub proof fn law_no_package_no_filter(s: SubscriptionView, kind: Seq<char>)
    ensures
        wanted(s, kind, None) == wanted(
            SubscriptionView { packages: Seq::empty(), ..s },
            kind,
            None,
        ),
{
}

/// The text after `prefix` in the first word that starts with it.
pub open spec fn field_in(ws: Seq<Seq<char>>, prefix: Seq<char>) -> Option<Seq<char>>
    decreases ws.len(),
{
    if ws.len() == 0 {
        None
    } else if prefix.is_prefix_of(ws[0]) {
        Some(ws[0].skip(prefix.len() as int))
    } else {
        field_in(ws.skip(1), prefix)
    }
}

/// Finds the text after `prefix` in the first word that starts with it.
pub fn find_field<'a>(ws: &Vec<&'a [char]>, prefix: &str) -> (r: Option<&'a [char]>)
    ensures
        match r {
            Some(v) => field_in(slice_texts(ws@), prefix@) == Some(v@),
            None => field_in(slice_texts(ws@), prefix@) is None,
        },
{
    let ghost all = slice_texts(ws@);
    let mut i: usize = 0;
    assert(all.skip(0) =~= all);
    while i < ws.len()
        invariant
            i <= ws.len(),
            all == slice_texts(ws@),
            field_in(all, prefix@) == field_in(all.skip(i as int), prefix@),
        decreases ws.len() - i,
    {
        assert(all.skip(i as int)[0] == ws@[i as int]@);
        assert(all.skip(i as int).skip(1) =~= all.skip(i + 1));
        if let Some(v) = strip_prefix(ws[i], prefix) {
            return Some(v);
        }
        i = i + 1;
    }
    None
}

/// The package that an event line names.
pub open spec fn package_in(line: Seq<char>) -> Option<Seq<char>> {
    match field_in(words(line), "pkg="@) {
        Some(p) => if p.len() > 0 {
            Some(p)
        } else {
            None
        },
        None => None,
    }
}

impl Default for Subscription {
    fn default() -> (r: Self)
        ensures
            r@ == everything(),
    {
        let r = Subscription { kinds: Vec::new(), packages: Vec::new() };
        assert(texts(r.kinds@) =~= Seq::empty());
        assert(texts(r.packages@) =~= Seq::empty());
        r
    }
}

fn pattern_hits(pattern: &str, pkg: &[char]) -> (r: bool)
    ensures
        r == pattern_matches(pattern@, pkg@),
{
    let v: Vec<char> = chars_of(pattern);
    let p: &[char] = v.as_slice();
    proof {
        reveal_strlit(".*");
    }
    if ends_with(p, ".*") {
        let prefix: String = string_of(head(p, p.len() - 1));
        starts_with(pkg, prefix.as_str()) && pkg.len() > p.len() - 1
    } else {
        same(pkg, pattern)
    }
}

impl Subscription {
    /// Whether an event is wanted.
    pub fn matches(&self, kind: &str, pkg: Option<&str>) -> (r: bool)
        ensures
            r == wanted(self@, kind@, opt_str(pkg)),
    {
        if self.kinds.len() > 0 && !contains_name(&self.kinds, kind) {
            return false;
        }
        if let Some(p) = pkg {
            if self.packages.len() > 0 {
                let chars: Vec<char> = chars_of(p);
                let ghost all = texts(self.packages@);
                let mut i: usize = 0;
                while i < self.packages.len()
                    invariant
                        i <= self.packages.len(),
                        all == texts(self.packages@),
                        all == self@.packages,
                        chars@ == p@,
                        self@.kinds.len() == 0 || self@.kinds.contains(kind@),
                        pkg == Some(p),
                        forall|j: int| 0 <= j < i ==> !pattern_matches(#[trigger] all[j], p@),
                    decreases self.packages.len() - i,
                {
                    assert(all[i as int] == self.packages@[i as int]@);
                    if pattern_hits(self.packages[i].as_str(), chars.as_slice()) {
                        return true;
                    }
                    i = i + 1;
                }
                return false;
            }
        }
        true
    }

    /// The package that an event line names.
    pub fn pkg_of(line: &str) -> (r: Option<String>)
        ensures
            opt_view(r) == package_in(line@),
    {
        let v: Vec<char> = chars_of(line);
        let ws: Vec<&[char]> = split_words(v.as_slice());
        match find_field(&ws, "pkg=") {
            Some(p) => if p.len() > 0 {
                Some(string_of(p))
            } else {
                None
            },
            None => None,
        }
    }

    /// The same wishes once more.
    pub fn copy(&self) -> (r: Subscription)
        ensures
            r@ == self@,
    {
        Subscription { kinds: copy_names(&self.kinds), packages: copy_names(&self.packages) }
    }
}

fn copy_names(v: &Vec<String>) -> (r: Vec<String>)
    ensures
        texts(r@) == texts(v@),
{
    let mut out: Vec<String> = Vec::new();
    let mut i: usize = 0;
    assert(texts(out@) =~= texts(v@).take(0));
    while i < v.len()
        invariant
            i <= v.len(),
            texts(out@) == texts(v@).take(i as int),
        decreases v.len() - i,
    {
        let ghost done = texts(out@);
        out.push(v[i].clone());
        assert(texts(out@) =~= done.push(v@[i as int]@));
        assert(texts(v@).take(i + 1) =~= texts(v@).take(i as int).push(texts(v@)[i as int]));
        i = i + 1;
    }
    assert(texts(v@).take(v@.len() as int) =~= texts(v@));
    out
}

/// A listener: its number and what it wants.
#[derive(Debug)]
pub struct DexClient {
    pub id: u64,
    pub wants: Subscription,
}

pub struct ClientView {
    pub id: u64,
    pub wants: SubscriptionView,
}

impl View for DexClient {
    type V = ClientView;

    open spec fn view(&self) -> ClientView {
        ClientView { id: self.id, wants: self.wants@ }
    }
}

pub open spec fn client_views(v: Seq<DexClient>) -> Seq<ClientView> {
    Seq::new(v.len(), |i: int| v[i]@)
}

/// The first listener with a number.
pub open spec fn client_at(cs: Seq<ClientView>, id: u64) -> Option<int>
    decreases cs.len(),
{
    if cs.len() == 0 {
        None
    } else {
        match client_at(cs.drop_last(), id) {
            Some(i) => Some(i),
            None => if cs.last().id == id {
                Some(cs.len() - 1)
            } else {
                None
            },
        }
    }
}

/// The listeners without those of a number.
pub open spec fn without_client(cs: Seq<ClientView>, id: u64) -> Seq<ClientView>
    decreases cs.len(),
{
    if cs.len() == 0 {
        cs
    } else if cs.last().id == id {
        without_client(cs.drop_last(), id)
    } else {
        without_client(cs.drop_last(), id).push(cs.last())
    }
}

/// The numbers of the listeners that want an event.
pub open spec fn listeners(cs: Seq<ClientView>, kind: Seq<char>, pkg: Option<Seq<char>>) -> Seq<u64>
    decreases cs.len(),
{
    if cs.len() == 0 {
        Seq::empty()
    } else if wanted(cs.last().wants, kind, pkg) {
        listeners(cs.drop_last(), kind, pkg).push(cs.last().id)
    } else {
        listeners(cs.drop_last(), kind, pkg)
    }
}

/// Whether writing to a listener failed.
pub open spec fn write_failed(targets: Seq<u64>, wrote: Seq<bool>, id: u64) -> bool {
    exists|k: int|
        0 <= k < targets.len() && k < wrote.len() && #[trigger] targets[k] == id && !wrote[k]
}

/// The listeners that could be reached or were not written to.
pub open spec fn reached(cs: Seq<ClientView>, targets: Seq<u64>, wrote: Seq<bool>) -> Seq<
    ClientView,
>
    decreases cs.len(),
{
    if cs.len() == 0 {
        cs
    } else if write_failed(targets, wrote, cs.last().id) {
        reached(cs.drop_last(), targets, wrote)
    } else {
        reached(cs.drop_last(), targets, wrote).push(cs.last())
    }
}

/// How often writing succeeded.
pub open spec fn successes(wrote: Seq<bool>) -> nat
    decreases wrote.len(),
{
    if wrote.len() == 0 {
        0
    } else {
        successes(wrote.drop_last()) + if wrote.last() {
            1nat
        } else {
            0nat
        }
    }
}

/// The listeners have different numbers, none above the last that was given out.
pub open spec fn registry_ok(cs: Seq<ClientView>, last: u64) -> bool {
    &&& forall|i: int| 0 <= i < cs.len() ==> (#[trigger] cs[i]).id <= last
    &&& forall|i: int, j: int| 0 <= i < j < cs.len() ==> (#[trigger] cs[i]).id != (#[trigger] cs[j]).id
}

/// The state of the daemon.
#[derive(Debug)]
pub struct DaemonState {
    /// Nanoseconds of a clock that only goes forward.
    pub started_at: u64,
    pub config_reloads: u64,
    pub connections_served: u64,
    pub probe: Option<ProbeReport>,
    pub expected_probe_hash: Option<String>,
    pub dex: Option<DexReport>,
    pub expected_dex_hash: Option<String>,
    /// Who listens for events.
    pub dex_clients: Vec<DexClient>,
    /// The last number that was given to a listener.
    pub next_dex_client_id: u64,
    pub hook_bridge: Option<BridgeReport>,
    pub expected_hook_hash: Option<String>,
    pub last_focus_pkg: Option<String>,
    pub focus_changes: u64,
    pub wakeup_events: u64,
    pub engine: EngineState,
    /// What the device can do, where that is known.
    pub capability: Option<Capability>,
    /// What the probe found out about the system it runs in, as it said it.
    pub dex_capability: Option<String>,
}

pub struct DaemonView {
    pub started_at: u64,
    pub config_reloads: u64,
    pub connections_served: u64,
    pub probe: Option<ReportView>,
    pub expected_probe_hash: Option<Seq<char>>,
    pub dex: Option<ReportView>,
    pub expected_dex_hash: Option<Seq<char>>,
    pub clients: Seq<ClientView>,
    pub last_client_id: u64,
    pub hook_bridge: Option<ReportView>,
    pub expected_hook_hash: Option<Seq<char>>,
    pub last_focus_pkg: Option<Seq<char>>,
    pub focus_changes: u64,
    pub wakeup_events: u64,
    pub engine: EngineView,
    pub capability: Option<CapabilityView>,
    pub dex_capability: Option<Seq<char>>,
}

impl View for DaemonState {
    type V = DaemonView;

    open spec fn view(&self) -> DaemonView {
        DaemonView {
            started_at: self.started_at,
            config_reloads: self.config_reloads,
            connections_served: self.connections_served,
            probe: match self.probe {
                Some(r) => Some(r@),
                None => None,
            },
            expected_probe_hash: opt_view(self.expected_probe_hash),
            dex: match self.dex {
                Some(r) => Some(r@),
                None => None,
            },
            expected_dex_hash: opt_view(self.expected_dex_hash),
            clients: client_views(self.dex_clients@),
            last_client_id: self.next_dex_client_id,
            hook_bridge: match self.hook_bridge {
                Some(r) => Some(r@),
                None => None,
            },
            expected_hook_hash: opt_view(self.expected_hook_hash),
            last_focus_pkg: opt_view(self.last_focus_pkg),
            focus_changes: self.focus_changes,
            wakeup_events: self.wakeup_events,
            engine: self.engine@,
            capability: match self.capability {
                Some(c) => Some(c@),
                None => None,
            },
            dex_capability: opt_view(self.dex_capability),
        }
    }
}

/// The texts of the files that hold the expected builds.
#[derive(Debug)]
pub struct ExpectedTexts {
    pub probe: Option<String>,
    pub dex: Option<String>,
    pub hook: Option<String>,
}

/// The build in the text of a file; none where it is empty.
pub open spec fn expected_in(text: Option<Seq<char>>) -> Option<Seq<char>> {
    match text {
        Some(t) => if trimmed(t).len() > 0 {
            Some(trimmed(t))
        } else {
            None
        },
        None => None,
    }
}

fn read_expected(text: &Option<String>) -> (r: Option<String>)
    ensures
        opt_view(r) == expected_in(opt_view(*text)),
{
    match text {
        Some(t) => {
            let v: Vec<char> = chars_of(t.as_str());
            let s: &[char] = trim(v.as_slice());
            if s.len() > 0 {
                Some(string_of(s))
            } else {
                None
            }
        },
        None => None,
    }
}

/// What the engine starts with.
#[derive(Debug)]
pub struct StartInput {
    /// The output of the package manager.
    pub pm: Option<String>,
    pub procs: Vec<ProcText>,
    pub policy: Option<String>,
    pub policy_revision: u64,
    pub presets: Option<String>,
    pub presets_revision: u64,
}

/// The engine at the start: without a policy file that parses it only observes.
pub open spec fn started_engine(
    pm: Option<Seq<char>>,
    procs: Seq<ProcTextView>,
    policy: Option<Seq<char>>,
    policy_revision: u64,
    presets: Option<Seq<char>>,
    presets_revision: u64,
) -> EngineView {
    let s = system_refreshed(initial_engine(), pm, procs);
    let s = match loaded_policy(policy, policy_revision) {
        Some(p) => EngineView { policy: p, ..s },
        None => s,
    };
    EngineView { presets: loaded_presets(presets, presets_revision), ..s }
}

/// The engine at the start is sound, whatever its files say.
pub proof fn law_started_engine_is_sound(
    pm: Option<Seq<char>>,
    procs: Seq<ProcTextView>,
    policy: Option<Seq<char>>,
    policy_revision: u64,
    presets: Option<Seq<char>>,
    presets_revision: u64,
)
    ensures
        sound(started_engine(pm, procs, policy, policy_revision, presets, presets_revision)),
{
    law_start_is_sound();
    lemma_loaded_policy(policy, policy_revision);
    lemma_loaded_presets(presets, presets_revision);
    if let Some(t) = pm {
        lemma_system_names(crate::text::line_texts(t));
    }
}

/// The builds that a daemon and its parts are expected to have.
pub open spec fn with_expected(
    d: DaemonView,
    probe: Option<Seq<char>>,
    dex: Option<Seq<char>>,
    hook: Option<Seq<char>>,
) -> DaemonView {
    DaemonView {
        expected_probe_hash: expected_in(probe),
        expected_dex_hash: expected_in(dex),
        expected_hook_hash: expected_in(hook),
        ..d
    }
}

/// A daemon that has just started.
pub open spec fn started_daemon(now: u64, engine: EngineView) -> DaemonView {
    DaemonView {
        started_at: now,
        config_reloads: 0,
        connections_served: 0,
        probe: None,
        expected_probe_hash: None,
        dex: None,
        expected_dex_hash: None,
        clients: Seq::empty(),
        last_client_id: 0,
        hook_bridge: None,
        expected_hook_hash: None,
        last_focus_pkg: None,
        focus_changes: 0,
        wakeup_events: 0,
        engine,
        capability: None,
        dex_capability: None,
    }
}

/// Whole seconds since the start.
pub open spec fn uptime(d: DaemonView, now: u64) -> u64 {
    (elapsed(now, d.started_at) / 1_000_000_000) as u64
}

fn str_opt(s: &Option<String>) -> (r: Option<&str>)
    ensures
        opt_str(r) == opt_view(*s),
{
    match s {
        Some(t) => Some(t.as_str()),
        None => None,
    }
}

impl DaemonState {
    /// The engine at the start.
    pub fn init_engine(input: &StartInput) -> (r: EngineState)
        ensures
            r@ == started_engine(
                opt_view(input.pm),
                proc_views(input.procs@),
                opt_view(input.policy),
                input.policy_revision,
                opt_view(input.presets),
                input.presets_revision,
            ),
    {
        let mut e: EngineState = EngineState::default();
        e.refresh_system_apps(str_opt(&input.pm), &input.procs);
        if let Some(p) = Policy::load(str_opt(&input.policy), input.policy_revision) {
            e.set_policy(p);
        }
        e.set_presets(PresetTable::load(str_opt(&input.presets), input.presets_revision));
        e
    }

    pub fn new(now: u64, expected: &ExpectedTexts, engine: EngineState) -> (r: Self)
        ensures
            r@ == with_expected(
                started_daemon(now, engine@),
                opt_view(expected.probe),
                opt_view(expected.dex),
                opt_view(expected.hook),
            ),
    {
        let r = DaemonState {
            started_at: now,
            config_reloads: 0,
            connections_served: 0,
            probe: None,
            expected_probe_hash: read_expected(&expected.probe),
            dex: None,
            expected_dex_hash: read_expected(&expected.dex),
            dex_clients: Vec::new(),
            next_dex_client_id: 0,
            hook_bridge: None,
            expected_hook_hash: read_expected(&expected.hook),
            last_focus_pkg: None,
            focus_changes: 0,
            wakeup_events: 0,
            engine,
            capability: None,
            dex_capability: None,
        };
        assert(r@.clients =~= Seq::empty());
        r
    }

    pub fn uptime_secs(&self, now: u64) -> (r: u64)
        ensures
            r == uptime(self@, now),
    {
        time_since(now, self.started_at) / 1_000_000_000
    }

    pub fn bump_config_reloads(&mut self)
        ensures
            final(self)@ == (DaemonView {
                config_reloads: old(self)@.config_reloads.wrapping_add(1),
                ..old(self)@
            }),
    {
        self.config_reloads = self.config_reloads.wrapping_add(1);
    }

    pub fn bump_connections(&mut self)
        ensures
            final(self)@ == (DaemonView {
                connections_served: old(self)@.connections_served.wrapping_add(1),
                ..old(self)@
            }),
    {
        self.connections_served = self.connections_served.wrapping_add(1);
    }

    /// The stub reported its build.
    pub fn record_probe(&mut self, hash: &str, now: u64)
        ensures
            final(self)@ == (DaemonView {
                probe: Some(ReportView { build: hash@, after_secs: uptime(old(self)@, now) }),
                ..old(self)@
            }),
    {
        let after: u64 = self.uptime_secs(now);
        self.probe = Some(
            ProbeReport { build_hash: String::from_str(hash), reported_after_secs: after },
        );
    }

    pub fn expected_hash(&self) -> (r: Option<String>)
        ensures
            opt_view(r) == self@.expected_probe_hash,
    {
        match &self.expected_probe_hash {
            Some(s) => Some(s.clone()),
            None => None,
        }
    }

    /// Reads the expected builds anew.
    pub fn refresh_expected_hash(&mut self, expected: &ExpectedTexts)
        ensures
            final(self)@ == with_expected(
                old(self)@,
                opt_view(expected.probe),
                opt_view(expected.dex),
                opt_view(expected.hook),
            ),
    {
        self.expected_probe_hash = read_expected(&expected.probe);
        self.expected_dex_hash = read_expected(&expected.dex);
        self.expected_hook_hash = read_expected(&expected.hook);
    }

    /// The probe reported its build.
    pub fn record_dex(&mut self, version: &str, now: u64)
        ensures
            final(self)@ == (DaemonView {
                dex: Some(ReportView { build: version@, after_secs: uptime(old(self)@, now) }),
                ..old(self)@
            }),
    {
        let after: u64 = self.uptime_secs(now);
        self.dex = Some(
            DexReport { build_version: String::from_str(version), reported_after_secs: after },
        );
    }

    pub fn expected_dex_hash(&self) -> (r: Option<String>)
        ensures
            opt_view(r) == self@.expected_dex_hash,
    {
        match &self.expected_dex_hash {
            Some(s) => Some(s.clone()),
            None => None,
        }
    }

    /// The native library reported its build.
    pub fn record_bridge(&mut self, hash: &str, now: u64)
        ensures
            final(self)@ == (DaemonView {
                hook_bridge: Some(ReportView { build: hash@, after_secs: uptime(old(self)@, now) }),
                ..old(self)@
            }),
    {
        let after: u64 = self.uptime_secs(now);
        self.hook_bridge = Some(
            BridgeReport { build_hash: String::from_str(hash), reported_after_secs: after },
        );
    }

    pub fn expected_hook_hash(&self) -> (r: Option<String>)
        ensures
            opt_view(r) == self@.expected_hook_hash,
    {
        match &self.expected_hook_hash {
            Some(s) => Some(s.clone()),
            None => None,
        }
    }

    /// An app came to the foreground.
    pub fn record_focus(&mut self, pkg: &str)
        ensures
            final(self)@ == (DaemonView {
                last_focus_pkg: Some(pkg@),
                focus_changes: old(self)@.focus_changes.wrapping_add(1),
                ..old(self)@
            }),
    {
        self.last_focus_pkg = Some(String::from_str(pkg));
        self.focus_changes = self.focus_changes.wrapping_add(1);
    }

    /// An app was woken.
    pub fn bump_wakeup(&mut self)
        ensures
            final(self)@ == (DaemonView {
                wakeup_events: old(self)@.wakeup_events.wrapping_add(1),
                ..old(self)@
            }),
    {
        self.wakeup_events = self.wakeup_events.wrapping_add(1);
    }

    /// Adds a listener that wants everything, and gives its number.
    pub fn register_dex_client(&mut self) -> (r: u64)
        ensures
            r == old(self)@.last_client_id.wrapping_add(1),
            final(self)@ == (DaemonView {
                last_client_id: r,
                clients: old(self)@.clients.push(ClientView { id: r, wants: everything() }),
                ..old(self)@
            }),
    {
        let ghost before = self@.clients;
        let id: u64 = self.next_dex_client_id.wrapping_add(1);
        self.next_dex_client_id = id;
        self.dex_clients.push(DexClient { id, wants: Subscription::default() });
        assert(self@.clients =~= before.push(ClientView { id, wants: everything() }));
        id
    }

    /// Removes a listener.
    pub fn unregister_dex_client(&mut self, id: u64)
        ensures
            final(self)@ == (DaemonView {
                clients: without_client(old(self)@.clients, id),
                ..old(self)@
            }),
    {
        let ghost before = self@;
        let ghost all = self@.clients;
        let mut kept: Vec<DexClient> = Vec::new();
        let ghost mut done: int = 0;
        assert(client_views(kept@) =~= without_client(all.take(0), id));
        assert(all.skip(0) =~= all);
        while self.dex_clients.len() > 0
            invariant
                0 <= done <= all.len(),
                client_views(self.dex_clients@) == all.skip(done),
                client_views(kept@) == without_client(all.take(done), id),
                self@ == (DaemonView { clients: all.skip(done), ..before }),
            decreases self.dex_clients.len(),
        {
            let ghost rest = client_views(self.dex_clients@);
            let ghost so_far = client_views(kept@);
            assert(rest.len() == all.len() - done);
            let c: DexClient = self.dex_clients.remove(0);
            let ghost x = c@;
            proof {
                assert(rest[0] == x && rest[0] == all[done]);
                assert(all.take(done + 1).drop_last() =~= all.take(done));
                assert(client_views(self.dex_clients@) =~= rest.skip(1));
                assert(rest.skip(1) =~= all.skip(done + 1));
            }
            if c.id != id {
                kept.push(c);
                assert(client_views(kept@) =~= so_far.push(x));
            }
            proof {
                done = done + 1;
            }
        }
        assert(client_views(self.dex_clients@).len() == all.len() - done);
        assert(all.take(all.len() as int) =~= all);
        self.dex_clients = kept;
    }

    fn find_client(&self, id: u64) -> (r: Option<usize>)
        ensures
            match r {
                Some(i) => i < self.dex_clients.len() && client_at(self@.clients, id) == Some(
                    i as int,
                ),
                None => client_at(self@.clients, id) is None,
            },
    {
        let ghost all = self@.clients;
        let mut found: Option<usize> = None;
        let mut i: usize = 0;
        while i < self.dex_clients.len()
            invariant
                i <= self.dex_clients.len(),
                all == self@.clients,
                match found {
                    Some(k) => k < i && client_at(all.take(i as int), id) == Some(k as int),
                    None => client_at(all.take(i as int), id) is None,
                },
            decreases self.dex_clients.len() - i,
        {
            assert(all.take(i + 1).drop_last() =~= all.take(i as int));
            if found.is_none() && self.dex_clients[i].id == id {
                found = Some(i);
            }
            i = i + 1;
        }
        assert(all.take(all.len() as int) =~= all);
        found
    }

    /// Changes what a listener wants; says whether there is such a listener.
    pub fn update_dex_subscription(&mut self, id: u64, sub: Subscription) -> (r: bool)
        ensures
            match client_at(old(self)@.clients, id) {
                Some(i) => r && final(self)@ == (DaemonView {
                    clients: old(self)@.clients.update(i, ClientView { id, wants: sub@ }),
                    ..old(self)@
                }),
                None => !r && final(self)@ == old(self)@,
            },
    {
        match self.find_client(id) {
            Some(i) => {
                let ghost before = self@.clients;
                proof {
                    law_client_at(before, id);
                }
                self.dex_clients[i].wants = sub;
                assert(self@.clients =~= before.update(
                    i as int,
                    ClientView { id, wants: sub@ },
                ));
                true
            },
            None => false,
        }
    }

    /// What a listener wants.
    pub fn dex_subscription(&self, id: u64) -> (r: Option<Subscription>)
        ensures
            match client_at(self@.clients, id) {
                Some(i) => r matches Some(s) && s@ == self@.clients[i].wants,
                None => r is None,
            },
    {
        match self.find_client(id) {
            Some(i) => Some(self.dex_clients[i].wants.copy()),
            None => None,
        }
    }

    fn listeners_for(&self, kind: &str, pkg: Option<&str>) -> (r: Vec<u64>)
        ensures
            r@ == listeners(self@.clients, kind@, opt_str(pkg)),
    {
        let ghost all = self@.clients;
        let mut out: Vec<u64> = Vec::new();
        let mut i: usize = 0;
        assert(out@ =~= listeners(all.take(0), kind@, opt_str(pkg)));
        while i < self.dex_clients.len()
            invariant
                i <= self.dex_clients.len(),
                all == self@.clients,
                out@ == listeners(all.take(i as int), kind@, opt_str(pkg)),
            decreases self.dex_clients.len() - i,
        {
            assert(all.take(i + 1).drop_last() =~= all.take(i as int));
            if self.dex_clients[i].wants.matches(kind, pkg) {
                out.push(self.dex_clients[i].id);
            }
            i = i + 1;
        }
        assert(all.take(all.len() as int) =~= all);
        out
    }

    /// The listeners to which new bytes of the probe are sent.
    pub fn broadcast_dex(&self) -> (r: Vec<u64>)
        ensures
            r@ == listeners(self@.clients, "dex-push"@, None),
    {
        self.listeners_for("dex-push", None)
    }

    /// The listeners to which an event line is sent.
    pub fn broadcast_line(&self, kind: &str, line: &str) -> (r: Vec<u64>)
        ensures
            r@ == listeners(self@.clients, kind@, package_in(line@)),
    {
        let pkg: Option<String> = Subscription::pkg_of(line);
        self.listeners_for(kind, str_opt(&pkg))
    }

    /// Takes up what came of writing to listeners: those that could not be reached are removed.
    /// Gives the number of those that could.
    pub fn settle_broadcast(&mut self, targets: &Vec<u64>, wrote: &Vec<bool>) -> (r: usize)
        ensures
            r == successes(wrote@),
            final(self)@ == (DaemonView {
                clients: reached(old(self)@.clients, targets@, wrote@),
                ..old(self)@
            }),
    {
        let ghost before = self@;
        let ghost all = self@.clients;
        let mut kept: Vec<DexClient> = Vec::new();
        let ghost mut done: int = 0;
        assert(client_views(kept@) =~= reached(all.take(0), targets@, wrote@));
        assert(all.skip(0) =~= all);
        while self.dex_clients.len() > 0
            invariant
                0 <= done <= all.len(),
                client_views(self.dex_clients@) == all.skip(done),
                client_views(kept@) == reached(all.take(done), targets@, wrote@),
                self@ == (DaemonView { clients: all.skip(done), ..before }),
            decreases self.dex_clients.len(),
        {
            let ghost rest = client_views(self.dex_clients@);
            let ghost so_far = client_views(kept@);
            assert(rest.len() == all.len() - done);
            let c: DexClient = self.dex_clients.remove(0);
            let ghost x = c@;
            proof {
                assert(rest[0] == x && rest[0] == all[done]);
                assert(all.take(done + 1).drop_last() =~= all.take(done));
                assert(client_views(self.dex_clients@) =~= rest.skip(1));
                assert(rest.skip(1) =~= all.skip(done + 1));
            }
            if !failed(targets, wrote, c.id) {
                kept.push(c);
                assert(client_views(kept@) =~= so_far.push(x));
            }
            proof {
                done = done + 1;
            }
        }
        assert(client_views(self.dex_clients@).len() == all.len() - done);
        assert(all.take(all.len() as int) =~= all);
        self.dex_clients = kept;
        let mut n: usize = 0;
        let mut i: usize = 0;
        while i < wrote.len()
            invariant
                i <= wrote.len(),
                n <= i,
                n == successes(wrote@.take(i as int)),
            decreases wrote.len() - i,
        {
            assert(wrote@.take(i + 1).drop_last() =~= wrote@.take(i as int));
            if wrote[i] {
                n = n + 1;
            }
            i = i + 1;
        }
        assert(wrote@.take(wrote@.len() as int) =~= wrote@);
        n
    }
}

fn failed(targets: &Vec<u64>, wrote: &Vec<bool>, id: u64) -> (r: bool)
    ensures
        r == write_failed(targets@, wrote@, id),
{
    let mut k: usize = 0;
    while k < targets.len() && k < wrote.len()
        invariant
            k <= targets.len(),
            k <= wrote.len(),
            forall|j: int| 0 <= j < k ==> !(#[trigger] targets@[j] == id && !wrote@[j]),
        decreases targets.len() - k,
    {
        if targets[k] == id && !wrote[k] {
            assert(targets@[k as int] == id && !wrote@[k as int]);
            return true;
        }
        k = k + 1;
    }
    false
}

/// The listener that is found has the number; where none is found, none has it.
pub proof fn law_client_at(cs: Seq<ClientView>, id: u64)
    ensures
        match client_at(cs, id) {
            Some(i) => 0 <= i < cs.len() && cs[i].id == id,
            None => forall|i: int| 0 <= i < cs.len() ==> (#[trigger] cs[i]).id != id,
        },
    decreases cs.len(),
{
    if cs.len() > 0 {
        law_client_at(cs.drop_last(), id);
        assert forall|i: int| 0 <= i < cs.len() && client_at(cs, id) is None implies (
        #[trigger] cs[i]).id != id by {
            if i < cs.len() - 1 {
                assert(cs.drop_last()[i] == cs[i]);
            }
        }
    }
}

/// A new listener gets a number that no other has, and the numbers stay different.
pub proof fn law_new_listener(cs: Seq<ClientView>, last: u64)
    requires
        registry_ok(cs, last),
        last < u64::MAX,
    ensures
        client_at(cs, (last + 1) as u64) is None,
        registry_ok(
            cs.push(ClientView { id: (last + 1) as u64, wants: everything() }),
            (last + 1) as u64,
        ),
{
    law_client_at(cs, (last + 1) as u64);
}

/// Removing a listener takes out that one and no other, and leaves the numbers different.
pub proof fn law_listener_leaves(cs: Seq<ClientView>, last: u64, id: u64)
    requires
        registry_ok(cs, last),
    ensures
        registry_ok(without_client(cs, id), last),
        forall|c: ClientView|
            #[trigger] without_client(cs, id).contains(c) <==> cs.contains(c) && c.id != id,
    decreases cs.len(),
{
    if cs.len() > 0 {
        let d = cs.drop_last();
        assert forall|i: int, j: int| 0 <= i < j < d.len() implies (#[trigger] d[i]).id != (
        #[trigger] d[j]).id by {
            assert(cs[i].id != cs[j].id);
        }
        assert forall|i: int| 0 <= i < d.len() implies (#[trigger] d[i]).id <= last by {
            assert(cs[i].id <= last);
        }
        law_listener_leaves(d, last, id);
        let w = without_client(cs, id);
        let wd = without_client(d, id);
        assert forall|c: ClientView| #[trigger] w.contains(c) <==> cs.contains(c) && c.id != id by {
            assert(wd.contains(c) <==> d.contains(c) && c.id != id);
            if cs.contains(c) {
                let k = choose|k: int| 0 <= k < cs.len() && cs[k] == c;
                if k < d.len() {
                    assert(d[k] == c);
                } else if c.id != id {
                    assert(w.last() == c);
                    assert(w[w.len() - 1] == c);
                }
            }
            if d.contains(c) {
                let k = choose|k: int| 0 <= k < d.len() && d[k] == c;
                assert(cs[k] == c);
            }
            if w.contains(c) {
                let k = choose|k: int| 0 <= k < w.len() && w[k] == c;
                if cs.last().id == id || k < wd.len() {
                    assert(wd[k] == c);
                } else {
                    assert(cs[cs.len() - 1] == c);
                }
            }
            if wd.contains(c) {
                let k = choose|k: int| 0 <= k < wd.len() && wd[k] == c;
                assert(w[k] == c);
            }
        }
        if cs.last().id != id {
            assert forall|i: int, j: int| 0 <= i < j < w.len() implies (#[trigger] w[i]).id != (
            #[trigger] w[j]).id by {
                if j == wd.len() {
                    assert(wd.contains(wd[i]));
                    assert(d.contains(wd[i]));
                    let k = choose|k: int| 0 <= k < d.len() && d[k] == wd[i];
                    assert(cs[k].id != cs[cs.len() - 1].id);
                } else {
                    assert(wd[i].id != wd[j].id);
                }
            }
            assert forall|i: int| 0 <= i < w.len() implies (#[trigger] w[i]).id <= last by {
                if i < wd.len() {
                    assert(wd[i].id <= last);
                } else {
                    assert(cs[cs.len() - 1].id <= last);
                }
            }
        }
    }
}

/// A broadcast goes to exactly the listeners that want it.
pub proof fn law_broadcast_reaches(
    cs: Seq<ClientView>,
    kind: Seq<char>,
    pkg: Option<Seq<char>>,
    id: u64,
)
    ensures
        listeners(cs, kind, pkg).contains(id) <==> exists|i: int|
            0 <= i < cs.len() && (#[trigger] cs[i]).id == id && wanted(cs[i].wants, kind, pkg),
    decreases cs.len(),
{
    if cs.len() > 0 {
        let d = cs.drop_last();
        law_broadcast_reaches(d, kind, pkg, id);
        let l = listeners(cs, kind, pkg);
        let ld = listeners(d, kind, pkg);
        if l.contains(id) {
            let k = choose|k: int| 0 <= k < l.len() && l[k] == id;
            if k < ld.len() {
                assert(ld[k] == id);
                let i = choose|i: int|
                    0 <= i < d.len() && (#[trigger] d[i]).id == id && wanted(d[i].wants, kind, pkg);
                assert(cs[i].id == id);
            } else {
                assert(cs[cs.len() - 1].id == id);
            }
        }
        if exists|i: int|
            0 <= i < cs.len() && (#[trigger] cs[i]).id == id && wanted(cs[i].wants, kind, pkg) {
            let i = choose|i: int|
                0 <= i < cs.len() && (#[trigger] cs[i]).id == id && wanted(cs[i].wants, kind, pkg);
            if i < d.len() {
                assert(d[i].id == id);
                assert(ld.contains(id));
                let k = choose|k: int| 0 <= k < ld.len() && ld[k] == id;
                assert(l[k] == id);
            } else {
                assert(l[l.len() - 1] == id);
            }
        }
    }
}

/// Where every write succeeds, nobody is removed.
pub proof fn law_reached_listeners_stay(cs: Seq<ClientView>, targets: Seq<u64>, wrote: Seq<bool>)
    requires
        forall|k: int| 0 <= k < wrote.len() ==> #[trigger] wrote[k],
    ensures
        reached(cs, targets, wrote) == cs,
    decreases cs.len(),
{
    if cs.len() > 0 {
        law_reached_listeners_stay(cs.drop_last(), targets, wrote);
        assert(!write_failed(targets, wrote, cs.last().id));
        assert(cs.drop_last().push(cs.last()) =~= cs);
    }
}

pub open spec fn build_of(r: Option<ReportView>) -> Option<Seq<char>> {
    match r {
        Some(r) => Some(r.build),
        None => None,
    }
}

pub open spec fn status_head(pid: u32) -> Seq<char> {
    "{\"module\":\"sundown\",\"version\":\""@ + VERSION_NAME@ + "\",\"release_no\":"@ + dec(
        RELEASE_NO as nat,
    ) + ",\"daemon_running\":1,\"daemon_pid\":"@ + dec(pid as nat)
        + ",\"daemon_ready\":1,\"zygisk_provider\":null,"@
}

pub open spec fn status_probe(d: DaemonView) -> Seq<char> {
    "\"probe_stub_loaded\":"@ + (if d.probe is Some {
        "1"@
    } else {
        "0"@
    }) + ",\"probe_stub_build_hash\":"@ + opt_quoted(build_of(d.probe))
        + ",\"probe_dex_version\":"@ + opt_quoted(build_of(d.dex)) + ",\"probe_dex_hash_match\":"@
        + match_text(d.expected_dex_hash, build_of(d.dex)) + ",\"probe_hook_bridge_hash\":"@
        + opt_quoted(build_of(d.hook_bridge)) + ",\"probe_hook_bridge_hash_match\":"@
        + match_text(d.expected_hook_hash, build_of(d.hook_bridge)) + ",\"focus_pkg\":"@
        + opt_quoted(d.last_focus_pkg) + ",\"focus_changes\":"@ + dec(d.focus_changes as nat)
        + ",\"wakeup_events\":"@ + dec(d.wakeup_events as nat)
}

pub open spec fn status_policy(s: EngineView) -> Seq<char> {
    ",\"policy_enabled\":"@ + bool_text(s.policy.enabled) + ",\"policy_revision\":"@ + dec(
        s.policy.revision as nat,
    ) + ",\"policy_apps\":"@ + dec(s.policy.apps.len()) + ",\"events_count\":"@ + dec(
        s.log.events.len(),
    ) + ",\"events_total\":"@ + dec(s.log.total as nat) + ",\"frozen_packages\":"@ + string_array(
        sorted_texts(keys_of(s.frozen)),
    ) + ",\"grace_pending\":"@ + string_array(sorted_texts(keys_of(s.grace)))
}

pub open spec fn status_counts(s: EngineView) -> Seq<char> {
    ",\"freeze_ops\":"@ + dec(s.counters.freeze_ops as nat) + ",\"unfreeze_ops\":"@ + dec(
        s.counters.unfreeze_ops as nat,
    ) + ",\"wakeup_thaws\":"@ + dec(s.counters.wakeup_thaws as nat) + ",\"wake_throttled\":"@ + dec(
        s.counters.wake_throttled as nat,
    ) + ",\"discard_ops\":"@ + dec(s.counters.discard_ops as nat)
        + ",\"discard_reasons\":{\"frozen_timeout\":"@ + dec(
        s.counters.discard_frozen_timeout as nat,
    ) + ",\"mem_watermark\":"@ + dec(s.counters.discard_mem_watermark as nat)
        + ",\"boot_reclaim\":"@ + dec(s.counters.discard_boot_reclaim as nat)
        + "},\"discarded_packages\":"@ + string_array(s.discarded) + ",\"discard_timeout_s\":"@
        + dec(s.policy.discard_frozen_timeout_seconds as nat)
}

pub open spec fn status_tail(d: DaemonView, now: u64) -> Seq<char> {
    ",\"uptime_s\":"@ + dec(uptime(d, now) as nat) + ",\"config_reloads\":"@ + dec(
        d.config_reloads as nat,
    ) + ",\"connections_served\":"@ + dec(d.connections_served as nat) + "}"@
}

/// The status report.
pub open spec fn status_text(d: DaemonView, now: u64, pid: u32) -> Seq<char> {
    status_head(pid) + status_probe(d) + status_policy(d.engine) + status_counts(d.engine)
        + status_tail(d, now)
}

fn push_status_policy(out: &mut String, e: &EngineState)
    ensures
        final(out)@ == old(out)@ + status_policy(e@),
{
    let ghost before = out@;
    let p: &Policy = e.policy_ref();
    proof {
        p.lemma_fields();
    }
    let mut s: String = String::from_str(",\"policy_enabled\":");
    push_bool(&mut s, p.enabled);
    s.append(",\"policy_revision\":");
    push_dec(&mut s, p.revision);
    s.append(",\"policy_apps\":");
    push_dec(&mut s, p.apps.len() as u64);
    s.append(",\"events_count\":");
    push_dec(&mut s, e.log_ref().len() as u64);
    s.append(",\"events_total\":");
    push_dec(&mut s, e.log_ref().count());
    s.append(",\"frozen_packages\":");
    push_string_array(&mut s, &e.frozen_packages());
    s.append(",\"grace_pending\":");
    push_string_array(&mut s, &e.grace_pending());
    out.append(s.as_str());
}

fn push_status_counts(out: &mut String, e: &EngineState)
    ensures
        final(out)@ == old(out)@ + status_counts(e@),
{
    let p: &Policy = e.policy_ref();
    proof {
        p.lemma_fields();
    }
    let c = e.counters();
    let mut s: String = String::from_str(",\"freeze_ops\":");
    push_dec(&mut s, c.freeze_ops);
    s.append(",\"unfreeze_ops\":");
    push_dec(&mut s, c.unfreeze_ops);
    s.append(",\"wakeup_thaws\":");
    push_dec(&mut s, c.wakeup_thaws);
    s.append(",\"wake_throttled\":");
    push_dec(&mut s, c.wake_throttled);
    s.append(",\"discard_ops\":");
    push_dec(&mut s, c.discard_ops);
    s.append(",\"discard_reasons\":{\"frozen_timeout\":");
    push_dec(&mut s, c.discard_frozen_timeout);
    s.append(",\"mem_watermark\":");
    push_dec(&mut s, c.discard_mem_watermark);
    s.append(",\"boot_reclaim\":");
    push_dec(&mut s, c.discard_boot_reclaim);
    s.append("},\"discarded_packages\":");
    push_string_array(&mut s, e.discarded_ref());
    s.append(",\"discard_timeout_s\":");
    push_dec(&mut s, p.discard_frozen_timeout_seconds);
    out.append(s.as_str());
}

impl DaemonState {
    pub(crate) fn probe_build(&self) -> (r: Option<&str>)
        ensures
            opt_str(r) == build_of(self@.probe),
    {
        match &self.probe {
            Some(p) => Some(p.build_hash.as_str()),
            None => None,
        }
    }

    pub(crate) fn dex_build(&self) -> (r: Option<&str>)
        ensures
            opt_str(r) == build_of(self@.dex),
    {
        match &self.dex {
            Some(p) => Some(p.build_version.as_str()),
            None => None,
        }
    }

    pub(crate) fn bridge_build(&self) -> (r: Option<&str>)
        ensures
            opt_str(r) == build_of(self@.hook_bridge),
    {
        match &self.hook_bridge {
            Some(p) => Some(p.build_hash.as_str()),
            None => None,
        }
    }

    fn status_probe_text(&self) -> (r: String)
        ensures
            r@ == status_probe(self@),
    {
        let mut s: String = String::from_str("\"probe_stub_loaded\":");
        if self.probe.is_some() {
            s.append("1");
        } else {
            s.append("0");
        }
        s.append(",\"probe_stub_build_hash\":");
        push_opt_str(&mut s, self.probe_build());
        s.append(",\"probe_dex_version\":");
        push_opt_str(&mut s, self.dex_build());
        s.append(",\"probe_dex_hash_match\":");
        push_match(&mut s, &self.expected_dex_hash, self.dex_build());
        s.append(",\"probe_hook_bridge_hash\":");
        push_opt_str(&mut s, self.bridge_build());
        s.append(",\"probe_hook_bridge_hash_match\":");
        push_match(&mut s, &self.expected_hook_hash, self.bridge_build());
        s.append(",\"focus_pkg\":");
        push_opt_quoted(&mut s, &self.last_focus_pkg);
        s.append(",\"focus_changes\":");
        push_dec(&mut s, self.focus_changes);
        s.append(",\"wakeup_events\":");
        push_dec(&mut s, self.wakeup_events);
        s
    }

    /// The status report.
    pub fn status_json(&self, now: u64, pid: u32) -> (r: String)
        ensures
            r@ == status_text(self@, now, pid),
    {
        let mut s: String = String::from_str("{\"module\":\"sundown\",\"version\":\"");
        s.append(VERSION_NAME);
        s.append("\",\"release_no\":");
        push_dec(&mut s, RELEASE_NO as u64);
        s.append(",\"daemon_running\":1,\"daemon_pid\":");
        push_dec(&mut s, pid as u64);
        s.append(",\"daemon_ready\":1,\"zygisk_provider\":null,");
        let probe: String = self.status_probe_text();
        s.append(probe.as_str());
        push_status_policy(&mut s, &self.engine);
        push_status_counts(&mut s, &self.engine);
        let mut t: String = String::from_str(",\"uptime_s\":");
        push_dec(&mut t, self.uptime_secs(now));
        t.append(",\"config_reloads\":");
        push_dec(&mut t, self.config_reloads);
        t.append(",\"connections_served\":");
        push_dec(&mut t, self.connections_served);
        t.append("}");
        s.append(t.as_str());
        s
    }
}

fn push_opt_str(out: &mut String, s: Option<&str>)
    ensures
        final(out)@ == old(out)@ + opt_quoted(opt_str(s)),
{
    match s {
        Some(t) => crate::json::push_quoted(out, t),
        None => out.append("null"),
    }
}

} // verus!
