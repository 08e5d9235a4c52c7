//! Commands about subscriptions, the policy, the presets and the rules.

use vstd::prelude::*;
use crate::engine_admin::{preset_applied, preset_cleared, preset_missing};
use crate::engine_state::{EngineState, EngineView};
use crate::events::{opt_str, opt_view};
use crate::json::{opt_quoted, push_opt_quoted, push_string_array, string_array};
use crate::lists::{slice_texts, texts};
use crate::names::{keys_of, value_of};
use crate::order::sorted_texts;
use crate::policy::{Policy, PolicyView};
use crate::preset::{Preset, PresetTable, PresetsView};
use crate::protocol::{command_of, split_command, Answered, Handled, HandledView};
use crate::rules::{RuleTable, RuleView, RulesView};
use crate::state::{
    client_at, everything, ClientView, DaemonState, DaemonView, Subscription, SubscriptionView,
};
use crate::text::{
    bool_text, chars_of, dec, find, head, index_of, join, joined, pieces, push_bool, push_dec,
    same, split_words, string_of, tail, trim, trimmed, words,
};
use crate::toml::{split_trimmed, trimmed_non_empty};

verus! {

broadcast use crate::lists::group_texts;

/// What is wanted after one more word of the command, or why it is not understood. Words for
/// other keys are passed over.
pub open spec fn wish_after(s: SubscriptionView, word: Seq<char>) -> Result<
    SubscriptionView,
    Seq<char>,
> {
    let p = index_of(word, '=');
    if p >= word.len() {
        Err("无法识别参数: "@ + word)
    } else {
        let items = trimmed_non_empty(pieces(word.skip(p + 1), ','));
        if word.take(p) == "kinds"@ {
            Ok(SubscriptionView { kinds: items, ..s })
        } else if word.take(p) == "packages"@ {
            Ok(SubscriptionView { packages: items, ..s })
        } else {
            Ok(s)
        }
    }
}

pub open spec fn wishes(ws: Seq<Seq<char>>) -> Result<SubscriptionView, Seq<char>>
    decreases ws.len(),
{
    if ws.len() == 0 {
        Ok(everything())
    } else {
        match wishes(ws.drop_last()) {
            Ok(s) => wish_after(s, ws.last()),
            Err(e) => Err(e),
        }
    }
}

/// What a command asks for: `kinds=a,b` and `packages=x,y`, where what is left out stands for
/// everything.
pub open spec fn subscription_of(arg: Seq<char>) -> Result<SubscriptionView, Seq<char>> {
    if words(arg).len() == 0 {
        Err("缺少 kinds=/packages= 参数"@)
    } else {
        wishes(words(arg))
    }
}

fn strings_of_slices(v: &Vec<&[char]>) -> (r: Vec<String>)
    ensures
        texts(r@) == slice_texts(v@),
{
    let ghost all = slice_texts(v@);
    let mut out: Vec<String> = Vec::new();
    let mut i: usize = 0;
    assert(texts(out@) =~= all.take(0));
    while i < v.len()
        invariant
            i <= v.len(),
            all == slice_texts(v@),
            texts(out@) == all.take(i as int),
        decreases v.len() - i,
    {
        let ghost done = texts(out@);
        out.push(string_of(v[i]));
        assert(texts(out@) =~= done.push(v@[i as int]@));
        assert(all.take(i + 1) =~= all.take(i as int).push(all[i as int]));
        i = i + 1;
    }
    assert(all.take(all.len() as int) =~= all);
    out
}

fn add_wish(s: &mut Subscription, word: &[char]) -> (r: Result<(), String>)
    ensures
        match wish_after(old(s)@, word@) {
            Ok(t) => r is Ok && final(s)@ == t,
            Err(e) => r matches Err(m) && m@ == e,
        },
{
    let p: usize = find(word, '=');
    if p >= word.len() {
        let mut m: String = String::from_str("无法识别参数: ");
        let w: String = string_of(word);
        m.append(w.as_str());
        return Err(m);
    }
    let items: Vec<&[char]> = split_trimmed(tail(word, p + 1), ',');
    let key: &[char] = head(word, p);
    if same(key, "kinds") {
        s.kinds = strings_of_slices(&items);
    } else if same(key, "packages") {
        s.packages = strings_of_slices(&items);
    }
    Ok(())
}

/// Reads what a command asks for.
pub fn parse_subscription(arg: &str) -> (r: Result<Subscription, String>)
    ensures
        match r {
            Ok(s) => subscription_of(arg@) == Ok::<SubscriptionView, Seq<char>>(s@),
            Err(m) => subscription_of(arg@) == Err::<SubscriptionView, Seq<char>>(m@),
        },
{
    let v: Vec<char> = chars_of(arg);
    let ws: Vec<&[char]> = split_words(v.as_slice());
    let ghost all = slice_texts(ws@);
    if ws.len() == 0 {
        return Err(String::from_str("缺少 kinds=/packages= 参数"));
    }
    let mut s: Subscription = Subscription::default();
    let mut i: usize = 0;
    assert(all.take(0).len() == 0);
    while i < ws.len()
        invariant
            i <= ws.len(),
            ws.len() > 0,
            all == slice_texts(ws@),
            all == words(arg@),
            wishes(all.take(i as int)) == Ok::<SubscriptionView, Seq<char>>(s@),
        decreases ws.len() - i,
    {
        assert(all.take(i + 1).drop_last() =~= all.take(i as int));
        assert(all.take(i + 1).last() == ws@[i as int]@);
        match add_wish(&mut s, ws[i]) {
            Ok(_) => {},
            Err(m) => {
                proof {
                    lemma_first_error(all, i + 1);
                }
                return Err(m);
            },
        }
        i = i + 1;
    }
    assert(all.take(all.len() as int) =~= all);
    Ok(s)
}

/// The first word that is not understood decides.
proof fn lemma_first_error(ws: Seq<Seq<char>>, n: int)
    requires
        0 <= n <= ws.len(),
        wishes(ws.take(n)) is Err,
    ensures
        wishes(ws) == wishes(ws.take(n)),
    decreases ws.len(),
{
    if n == ws.len() {
        assert(ws.take(n) =~= ws);
    } else {
        assert(ws.drop_last().take(n) =~= ws.take(n));
        lemma_first_error(ws.drop_last(), n);
    }
}

/// A command that names neither kinds nor packages asks for everything, as no command does.
pub proof fn law_empty_wishes_are_everything(ws: Seq<Seq<char>>)
    requires
        forall|i: int|
            0 <= i < ws.len() ==> {
                let p = index_of(#[trigger] ws[i], '=');
                &&& p < ws[i].len()
                &&& ws[i].take(p) != "kinds"@
                &&& ws[i].take(p) != "packages"@
            },
    ensures
        wishes(ws) == Ok::<SubscriptionView, Seq<char>>(everything()),
    decreases ws.len(),
{
    if ws.len() > 0 {
        let d = ws.drop_last();
        assert forall|i: int| 0 <= i < d.len() implies {
            let p = index_of(#[trigger] d[i], '=');
            &&& p < d[i].len()
            &&& d[i].take(p) != "kinds"@
            &&& d[i].take(p) != "packages"@
        } by {
            assert(d[i] == ws[i]);
        }
        law_empty_wishes_are_everything(d);
        assert(ws.last() == ws[ws.len() - 1]);
    }
}

/// The daemon with the wishes of a listener changed, if there is such a listener.
pub open spec fn with_wishes(d: DaemonView, id: u64, s: SubscriptionView) -> DaemonView {
    match client_at(d.clients, id) {
        Some(i) => DaemonView { clients: d.clients.update(i, ClientView { id, wants: s }), ..d },
        None => d,
    }
}

pub open spec fn no_listener() -> Seq<char> {
    "{\"ok\":0,\"error\":\"subscription not found\"}"@
}

/// What becomes of a command about a subscription.
pub open spec fn subscribe_handled(d: DaemonView, id: u64, arg: Seq<char>) -> (
    DaemonView,
    Seq<char>,
) {
    if arg.len() == 0 || arg == "clear"@ {
        (with_wishes(d, id, everything()), "{\"ok\":1,\"subscription\":\"all\"}"@)
    } else if arg == "query"@ {
        match client_at(d.clients, id) {
            Some(i) => (
                d,
                "{\"ok\":1,\"kinds\":"@ + string_array(d.clients[i].wants.kinds)
                    + ",\"packages\":"@ + string_array(d.clients[i].wants.packages) + "}"@,
            ),
            None => (d, no_listener()),
        }
    } else {
        match subscription_of(arg) {
            Ok(s) => (
                with_wishes(d, id, s),
                if client_at(d.clients, id) is Some {
                    "{\"ok\":1,\"subscription\":\"updated\"}"@
                } else {
                    no_listener()
                },
            ),
            Err(e) => (d, "{\"ok\":0,\"error\":\"subscribe: "@ + e + "\"}"@),
        }
    }
}

/// A command that is not understood leaves the wishes of every listener as they are, and so
/// does a query.
pub proof fn law_bad_wish_changes_nothing(d: DaemonView, id: u64, arg: Seq<char>)
    requires
        arg.len() > 0,
        arg != "clear"@,
        arg == "query"@ || subscription_of(arg) is Err,
    ensures
        subscribe_handled(d, id, arg).0 == d,
{
}

/// The rest of the fields of a preset.
pub open spec fn preset_fields(
    enabled: bool,
    grace: u64,
    cooldown: u64,
    fg: bool,
    media: bool,
) -> Seq<char> {
    "\",\"enabled\":"@ + bool_text(enabled) + ",\"grace_seconds\":"@ + dec(grace as nat)
        + ",\"cooldown_seconds\":"@ + dec(cooldown as nat) + ",\"keep_fg_service\":"@ + bool_text(
        fg,
    ) + ",\"keep_media\":"@ + bool_text(media) + "}"@
}

fn push_preset_fields(
    out: &mut String,
    enabled: bool,
    grace: u64,
    cooldown: u64,
    fg: bool,
    media: bool,
)
    ensures
        final(out)@ == old(out)@ + preset_fields(enabled, grace, cooldown, fg, media),
{
    let mut s: String = String::from_str("\",\"enabled\":");
    push_bool(&mut s, enabled);
    s.append(",\"grace_seconds\":");
    push_dec(&mut s, grace);
    s.append(",\"cooldown_seconds\":");
    push_dec(&mut s, cooldown);
    s.append(",\"keep_fg_service\":");
    push_bool(&mut s, fg);
    s.append(",\"keep_media\":");
    push_bool(&mut s, media);
    s.append("}");
    out.append(s.as_str());
}

/// A preset in the list.
pub open spec fn preset_item(name: Seq<char>, p: Preset) -> Seq<char> {
    "{\"name\":\""@ + name + preset_fields(
        p.enabled,
        p.grace_seconds,
        p.cooldown_seconds,
        p.keep_fg_service,
        p.keep_media,
    )
}

/// The presets with some names.
pub open spec fn preset_items(t: Seq<(Seq<char>, Preset)>, names: Seq<Seq<char>>) -> Seq<Seq<char>>
    decreases names.len(),
{
    if names.len() == 0 {
        Seq::empty()
    } else {
        let before = preset_items(t, names.drop_last());
        match value_of(t, names.last()) {
            Some(p) => before.push(preset_item(names.last(), p)),
            None => before,
        }
    }
}

pub open spec fn or_empty(s: Option<Seq<char>>) -> Seq<char> {
    match s {
        Some(t) => t,
        None => Seq::empty(),
    }
}

/// The list of the presets, by name.
pub open spec fn preset_list(t: PresetsView, active: Option<Seq<char>>) -> Seq<char> {
    "{\"ok\":1,\"presets\":["@ + joined(
        preset_items(t.presets, sorted_texts(keys_of(t.presets))),
        ","@,
    ) + "],\"active\":\""@ + or_empty(active) + "\",\"revision\":"@ + dec(t.revision as nat)
        + "}"@
}

fn push_or_empty(out: &mut String, s: &Option<String>)
    ensures
        final(out)@ == old(out)@ + or_empty(opt_view(*s)),
{
    match s {
        Some(t) => out.append(t.as_str()),
        None => {
            assert(out@ + Seq::<char>::empty() =~= out@);
        },
    }
}

fn list_presets(t: &PresetTable, active: &Option<String>) -> (r: String)
    ensures
        r@ == preset_list(t@, opt_view(*active)),
{
    let names: Vec<String> = t.names();
    let ghost all = texts(names@);
    let mut items: Vec<String> = Vec::new();
    let mut i: usize = 0;
    assert(texts(items@) =~= preset_items(t@.presets, all.take(0)));
    while i < names.len()
        invariant
            i <= names.len(),
            all == texts(names@),
            texts(items@) == preset_items(t@.presets, all.take(i as int)),
        decreases names.len() - i,
    {
        assert(all.take(i + 1).drop_last() =~= all.take(i as int));
        assert(all.take(i + 1).last() == names@[i as int]@);
        if let Some(p) = t.presets.get(names[i].as_str()) {
            let ghost done = texts(items@);
            let mut s: String = String::from_str("{\"name\":\"");
            s.append(names[i].as_str());
            push_preset_fields(
                &mut s,
                p.enabled,
                p.grace_seconds,
                p.cooldown_seconds,
                p.keep_fg_service,
                p.keep_media,
            );
            let ghost x = s@;
            items.push(s);
            assert(texts(items@) =~= done.push(x));
        }
        i = i + 1;
    }
    assert(all.take(all.len() as int) =~= all);
    let inner: String = join(&items, ",");
    let mut s: String = String::from_str("{\"ok\":1,\"presets\":[");
    s.append(inner.as_str());
    s.append("],\"active\":\"");
    push_or_empty(&mut s, active);
    s.append("\",\"revision\":");
    push_dec(&mut s, t.revision);
    s.append("}");
    s
}

/// A text in which quotes do not end a string.
pub open spec fn unquoted(s: Seq<char>) -> Seq<char> {
    s.map_values(
        |c: char|
            if c == '"' {
                '\''
            } else {
                c
            },
    )
}

fn push_unquoted(out: &mut String, s: &str)
    ensures
        final(out)@ == old(out)@ + unquoted(s@),
{
    let v: Vec<char> = chars_of(s);
    let ghost before = out@;
    let mut i: usize = 0;
    assert(before + unquoted(s@).take(0) =~= before);
    while i < v.len()
        invariant
            i <= v.len(),
            v@ == s@,
            out@ == before + unquoted(s@).take(i as int),
        decreases v.len() - i,
    {
        if v[i] == '"' {
            out.push('\'');
        } else {
            out.push(v[i]);
        }
        assert(unquoted(s@).take(i + 1) =~= unquoted(s@).take(i as int).push(
            unquoted(s@)[i as int],
        ));
        i = i + 1;
    }
    assert(unquoted(s@).take(v.len() as int) =~= unquoted(s@));
}

/// What is said when a preset was applied.
pub open spec fn preset_set(name: Seq<char>, p: PolicyView) -> Seq<char> {
    "{\"ok\":1,\"applied\":\""@ + name + preset_fields(
        p.enabled,
        p.grace_seconds,
        p.cooldown_seconds,
        p.keep_fg_service,
        p.keep_media,
    )
}

/// What becomes of a command about the presets.
pub open spec fn preset_handled(d: DaemonView, epoch: u64, arg: Seq<char>) -> Answered {
    let (sub, name) = command_of(arg);
    if sub == "list"@ {
        (d, HandledView::Reply(preset_list(d.engine.presets, d.engine.active_preset)))
    } else if sub == "apply"@ {
        if name.len() == 0 {
            (
                d,
                HandledView::Reply(
                    "{\"ok\":0,\"error\":\"preset apply 缺少预设名（用法: policy preset apply <name>）\"}"@,
                ),
            )
        } else {
            match value_of(d.engine.presets.presets, name) {
                Some(p) => {
                    let s = preset_applied(d.engine, epoch, name, p);
                    (
                        DaemonView { engine: s, ..d },
                        HandledView::Reply(preset_set(name, s.policy)),
                    )
                },
                None => (
                    d,
                    HandledView::Reply(
                        "{\"ok\":0,\"error\":\""@ + unquoted(
                            preset_missing(d.engine.presets, name),
                        ) + "\"}"@,
                    ),
                ),
            }
        }
    } else if sub == "clear"@ {
        (d, HandledView::ClearPreset)
    } else {
        (d, HandledView::Reply("{\"ok\":0,\"error\":\"preset: 用法 list | apply <name> | clear\"}"@))
    }
}

/// The state of the policy.
pub open spec fn policy_status(s: EngineView) -> Seq<char> {
    "{\"ok\":1,\"enabled\":"@ + bool_text(s.policy.enabled) + ",\"revision\":"@ + dec(
        s.policy.revision as nat,
    ) + ",\"grace_seconds\":"@ + dec(s.policy.grace_seconds as nat) + ",\"cooldown_seconds\":"@
        + dec(s.policy.cooldown_seconds as nat) + ",\"whitelist\":"@ + string_array(
        s.policy.whitelist,
    ) + ",\"force\":"@ + string_array(s.policy.force) + ",\"frozen_packages\":"@ + string_array(
        sorted_texts(keys_of(s.frozen)),
    ) + ",\"grace_pending\":"@ + string_array(sorted_texts(keys_of(s.grace))) + ",\"freeze_ops\":"@
        + dec(s.counters.freeze_ops as nat) + ",\"unfreeze_ops\":"@ + dec(
        s.counters.unfreeze_ops as nat,
    ) + ",\"wakeup_thaws\":"@ + dec(s.counters.wakeup_thaws as nat) + ",\"last_focus\":"@
        + opt_quoted(s.last_focus) + "}"@
}

fn policy_status_text(e: &EngineState) -> (r: String)
    ensures
        r@ == policy_status(e@),
{
    let p: &Policy = e.policy_ref();
    proof {
        p.lemma_fields();
    }
    let c = e.counters();
    let mut s: String = String::from_str("{\"ok\":1,\"enabled\":");
    push_bool(&mut s, p.enabled);
    s.append(",\"revision\":");
    push_dec(&mut s, p.revision);
    s.append(",\"grace_seconds\":");
    push_dec(&mut s, p.grace_seconds);
    s.append(",\"cooldown_seconds\":");
    push_dec(&mut s, p.cooldown_seconds);
    s.append(",\"whitelist\":");
    push_string_array(&mut s, &p.whitelist);
    s.append(",\"force\":");
    push_string_array(&mut s, &p.force);
    s.append(",\"frozen_packages\":");
    push_string_array(&mut s, &e.frozen_packages());
    s.append(",\"grace_pending\":");
    push_string_array(&mut s, &e.grace_pending());
    s.append(",\"freeze_ops\":");
    push_dec(&mut s, c.freeze_ops);
    s.append(",\"unfreeze_ops\":");
    push_dec(&mut s, c.unfreeze_ops);
    s.append(",\"wakeup_thaws\":");
    push_dec(&mut s, c.wakeup_thaws);
    s.append(",\"last_focus\":");
    push_opt_quoted(&mut s, e.focus_ref());
    s.append("}");
    s
}

/// What becomes of a command about the policy.
pub open spec fn policy_handled(d: DaemonView, epoch: u64, arg: Seq<char>) -> Answered {
    let (sub, rest) = command_of(arg);
    if sub == "preset"@ {
        preset_handled(d, epoch, rest)
    } else if sub == "status"@ {
        (d, HandledView::Reply(policy_status(d.engine)))
    } else if sub == "reload"@ {
        (d, HandledView::ReloadPolicy)
    } else {
        (
            d,
            HandledView::Reply("{\"ok\":0,\"error\":\"policy: unknown subcommand: "@ + sub + "\"}"@),
        )
    }
}

/// What is said after the policy was read anew.
pub open spec fn policy_reloaded(p: PolicyView) -> Seq<char> {
    "{\"ok\":1,\"enabled\":"@ + bool_text(p.enabled) + ",\"revision\":"@ + dec(p.revision as nat)
        + "}"@
}

/// What is said after the preset was dropped.
pub open spec fn preset_dropped(s: EngineView) -> Seq<char> {
    "{\"ok\":1,\"active\":\""@ + or_empty(s.active_preset) + "\",\"enabled\":"@ + bool_text(
        s.policy.enabled,
    ) + ",\"grace_seconds\":"@ + dec(s.policy.grace_seconds as nat) + "}"@
}

/// What is said in answer to a command about the rules.
pub open spec fn rules_answer(t: RulesView, arg: Seq<char>) -> Seq<char> {
    let sub = trimmed(arg);
    if sub == "list"@ {
        "{\"ok\":1,\"count\":"@ + dec(t.rules.len()) + ",\"rules\":"@ + string_array(
            sorted_texts(t.rules.map_values(|x: RuleView| x.id)),
        ) + "}"@
    } else if sub == "status"@ {
        "{\"ok\":1,\"count\":"@ + dec(t.rules.len()) + ",\"revision\":"@ + dec(t.revision as nat)
            + ",\"hits\":"@ + dec(t.hits as nat) + "}"@
    } else {
        "{\"ok\":0,\"error\":\"rules: unknown subcommand: "@ + sub + "\"}"@
    }
}

/// Answers a command about the rules.
pub fn handle_rules(rules: &RuleTable, arg: &str) -> (r: String)
    ensures
        r@ == rules_answer(rules@, arg@),
{
    let v: Vec<char> = chars_of(arg);
    let sub: &[char] = trim(v.as_slice());
    if same(sub, "list") {
        let ids: Vec<String> = rules.ids();
        let mut s: String = String::from_str("{\"ok\":1,\"count\":");
        push_dec(&mut s, rules.len() as u64);
        s.append(",\"rules\":");
        push_string_array(&mut s, &ids);
        s.append("}");
        s
    } else if same(sub, "status") {
        let mut s: String = String::from_str("{\"ok\":1,\"count\":");
        push_dec(&mut s, rules.len() as u64);
        s.append(",\"revision\":");
        push_dec(&mut s, rules.revision);
        s.append(",\"hits\":");
        push_dec(&mut s, rules.hits);
        s.append("}");
        s
    } else {
        let mut s: String = String::from_str("{\"ok\":0,\"error\":\"rules: unknown subcommand: ");
        let k: String = string_of(sub);
        s.append(k.as_str());
        s.append("\"}");
        s
    }
}

impl DaemonState {
    /// Takes up a command of a listener about what it wants.
    pub fn handle_subscribe(&mut self, id: u64, arg: &str) -> (r: String)
        ensures
            (final(self)@, r@) == subscribe_handled(old(self)@, id, arg@),
    {
        let v: Vec<char> = chars_of(arg);
        let a: &[char] = v.as_slice();
        if a.len() == 0 || same(a, "clear") {
            self.update_dex_subscription(id, Subscription::default());
            return String::from_str("{\"ok\":1,\"subscription\":\"all\"}");
        }
        if same(a, "query") {
            return match self.dex_subscription(id) {
                Some(sub) => {
                    let mut s: String = String::from_str("{\"ok\":1,\"kinds\":");
                    push_string_array(&mut s, &sub.kinds);
                    s.append(",\"packages\":");
                    push_string_array(&mut s, &sub.packages);
                    s.append("}");
                    s
                },
                None => String::from_str("{\"ok\":0,\"error\":\"subscription not found\"}"),
            };
        }
        match parse_subscription(arg) {
            Ok(sub) => if self.update_dex_subscription(id, sub) {
                String::from_str("{\"ok\":1,\"subscription\":\"updated\"}")
            } else {
                String::from_str("{\"ok\":0,\"error\":\"subscription not found\"}")
            },
            Err(e) => {
                let mut s: String = String::from_str("{\"ok\":0,\"error\":\"subscribe: ");
                s.append(e.as_str());
                s.append("\"}");
                s
            },
        }
    }

    fn preset_apply(&mut self, name: &str, epoch: u64) -> (r: String)
        ensures
            match value_of(old(self)@.engine.presets.presets, name@) {
                Some(p) => {
                    let s = preset_applied(old(self)@.engine, epoch, name@, p);
                    &&& final(self)@ == (DaemonView { engine: s, ..old(self)@ })
                    &&& r@ == preset_set(name@, s.policy)
                },
                None => {
                    &&& final(self)@ == old(self)@
                    &&& r@ == "{\"ok\":0,\"error\":\""@ + unquoted(
                        preset_missing(old(self)@.engine.presets, name@),
                    ) + "\"}"@
                },
            },
    {
        match self.engine.apply_preset(name, epoch) {
            Ok(_) => {
                let p: &Policy = self.engine.policy_ref();
                proof {
                    p.lemma_fields();
                }
                let mut s: String = String::from_str("{\"ok\":1,\"applied\":\"");
                s.append(name);
                push_preset_fields(
                    &mut s,
                    p.enabled,
                    p.grace_seconds,
                    p.cooldown_seconds,
                    p.keep_fg_service,
                    p.keep_media,
                );
                s
            },
            Err(e) => {
                let mut s: String = String::from_str("{\"ok\":0,\"error\":\"");
                push_unquoted(&mut s, e.as_str());
                s.append("\"}");
                s
            },
        }
    }

    fn handle_preset(&mut self, arg: &[char], epoch: u64) -> (r: Handled)
        ensures
            (final(self)@, r@) == preset_handled(old(self)@, epoch, arg@),
    {
        let (sub, name) = split_command(arg);
        if same(sub, "list") {
            Handled::Reply(list_presets(self.engine.presets_ref(), self.engine.active_ref()))
        } else if same(sub, "apply") {
            if name.len() == 0 {
                Handled::Reply(
                    String::from_str(
                        "{\"ok\":0,\"error\":\"preset apply 缺少预设名（用法: policy preset apply <name>）\"}",
                    ),
                )
            } else {
                let n: String = string_of(name);
                Handled::Reply(self.preset_apply(n.as_str(), epoch))
            }
        } else if same(sub, "clear") {
            Handled::ClearPreset
        } else {
            Handled::Reply(
                String::from_str("{\"ok\":0,\"error\":\"preset: 用法 list | apply <name> | clear\"}"),
            )
        }
    }

    /// Takes up a command about the policy.
    pub fn handle_policy(&mut self, arg: &str, epoch: u64) -> (r: Handled)
        ensures
            (final(self)@, r@) == policy_handled(old(self)@, epoch, arg@),
    {
        let v: Vec<char> = chars_of(arg);
        let (sub, rest) = split_command(v.as_slice());
        if same(sub, "preset") {
            self.handle_preset(rest, epoch)
        } else if same(sub, "status") {
            Handled::Reply(policy_status_text(&self.engine))
        } else if same(sub, "reload") {
            Handled::ReloadPolicy
        } else {
            let mut s: String = String::from_str(
                "{\"ok\":0,\"error\":\"policy: unknown subcommand: ",
            );
            let k: String = string_of(sub);
            s.append(k.as_str());
            s.append("\"}");
            Handled::Reply(s)
        }
    }

    /// What is said after the policy was read anew.
    pub fn policy_reload_reply(&self) -> (r: String)
        ensures
            r@ == policy_reloaded(self@.engine.policy),
    {
        let p: &Policy = self.engine.policy_ref();
        proof {
            p.lemma_fields();
        }
        let mut s: String = String::from_str("{\"ok\":1,\"enabled\":");
        push_bool(&mut s, p.enabled);
        s.append(",\"revision\":");
        push_dec(&mut s, p.revision);
        s.append("}");
        s
    }

    /// Drops the preset; the parameters are those of the policy file again.
    pub fn finish_clear_preset(&mut self, policy: Option<&str>, revision: u64, epoch: u64) -> (r:
        String)
        ensures
            final(self)@ == (DaemonView {
                engine: preset_cleared(old(self)@.engine, epoch, opt_str(policy), revision),
                ..old(self)@
            }),
            r@ == preset_dropped(final(self)@.engine),
    {
        self.engine.clear_preset(policy, revision, epoch);
        let p: &Policy = self.engine.policy_ref();
        proof {
            p.lemma_fields();
        }
        let mut s: String = String::from_str("{\"ok\":1,\"active\":\"");
        push_or_empty(&mut s, self.engine.active_ref());
        s.append("\",\"enabled\":");
        push_bool(&mut s, p.enabled);
        s.append(",\"grace_seconds\":");
        push_dec(&mut s, p.grace_seconds);
        s.append("}");
        s
    }
}

} // verus!
