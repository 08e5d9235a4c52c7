//! Declarative rules: what to do about an app at a focus change, a wakeup or a leave, read
//! from a file with one table `[rules."<id>"]` for each rule.
//!
//! The rule with the highest priority applies; of several with the same priority, the one
//! that comes first in the file.

use vstd::prelude::*;
use crate::events::{opt_str, opt_view};
use crate::lists::{slice_texts, texts};
use crate::names::{contains_name, value_of, with_key, NameMap};
use crate::network::{elapsed, time_since};
use crate::order::{sort_texts, sorted_texts};
use crate::policy::{
    count_of_value, count_view, string_of_value, string_view, strings_of, strings_view,
};
use crate::policy_file::{fault_message, fault_text};
use crate::text::{chars_of, join, parse_u32, split, str_eq, string_of, strip_prefix, trim};
use crate::toml::{entry_views, parse, EntryView, TomlEntry, TomlValue, ValueView};

verus! {

broadcast use crate::lists::group_texts;

/// When a rule is looked at.
#[derive(Clone, Copy, Debug, PartialEq, Eq, Structural)]
pub enum RuleCondition {
    /// At every point.
    Always,
    /// When an app leaves the foreground.
    Leave,
    /// When an app is woken.
    Wakeup,
    /// When an app comes to the foreground.
    Focus,
}

/// What a rule does.
#[derive(Clone, Copy, Debug, PartialEq, Eq, Structural)]
pub enum RuleAction {
    /// The wakeup is ignored.
    Suppress,
    /// The app is not frozen.
    Exempt,
    /// The app is frozen at once.
    Freeze,
    /// The frozen app is discarded.
    Discard,
}

impl RuleCondition {
    pub open spec fn name(self) -> Seq<char> {
        match self {
            RuleCondition::Always => "always"@,
            RuleCondition::Leave => "leave"@,
            RuleCondition::Wakeup => "wakeup"@,
            RuleCondition::Focus => "focus"@,
        }
    }

    pub open spec fn named(s: Seq<char>) -> Option<RuleCondition> {
        if s == "always"@ {
            Some(RuleCondition::Always)
        } else if s == "leave"@ {
            Some(RuleCondition::Leave)
        } else if s == "wakeup"@ {
            Some(RuleCondition::Wakeup)
        } else if s == "focus"@ {
            Some(RuleCondition::Focus)
        } else {
            None
        }
    }

    pub fn parse(s: &str) -> (r: Option<RuleCondition>)
        ensures
            r == RuleCondition::named(s@),
    {
        if str_eq(s, "always") {
            Some(RuleCondition::Always)
        } else if str_eq(s, "leave") {
            Some(RuleCondition::Leave)
        } else if str_eq(s, "wakeup") {
            Some(RuleCondition::Wakeup)
        } else if str_eq(s, "focus") {
            Some(RuleCondition::Focus)
        } else {
            None
        }
    }

    pub fn as_str(&self) -> (r: &'static str)
        ensures
            r@ == self.name(),
    {
        match *self {
            RuleCondition::Always => "always",
            RuleCondition::Leave => "leave",
            RuleCondition::Wakeup => "wakeup",
            RuleCondition::Focus => "focus",
        }
    }
}

impl RuleAction {
    pub open spec fn name(self) -> Seq<char> {
        match self {
            RuleAction::Suppress => "suppress"@,
            RuleAction::Exempt => "exempt"@,
            RuleAction::Freeze => "freeze"@,
            RuleAction::Discard => "discard"@,
        }
    }

    pub open spec fn named(s: Seq<char>) -> Option<RuleAction> {
        if s == "suppress"@ {
            Some(RuleAction::Suppress)
        } else if s == "exempt"@ {
            Some(RuleAction::Exempt)
        } else if s == "freeze"@ {
            Some(RuleAction::Freeze)
        } else if s == "discard"@ {
            Some(RuleAction::Discard)
        } else {
            None
        }
    }

    pub fn parse(s: &str) -> (r: Option<RuleAction>)
        ensures
            r == RuleAction::named(s@),
    {
        if str_eq(s, "suppress") {
            Some(RuleAction::Suppress)
        } else if str_eq(s, "exempt") {
            Some(RuleAction::Exempt)
        } else if str_eq(s, "freeze") {
            Some(RuleAction::Freeze)
        } else if str_eq(s, "discard") {
            Some(RuleAction::Discard)
        } else {
            None
        }
    }

    pub fn as_str(&self) -> (r: &'static str)
        ensures
            r@ == self.name(),
    {
        match *self {
            RuleAction::Suppress => "suppress",
            RuleAction::Exempt => "exempt",
            RuleAction::Freeze => "freeze",
            RuleAction::Discard => "discard",
        }
    }
}

/// The name of a condition or an action is read back as that condition or action.
pub proof fn law_rule_words_read_back(c: RuleCondition, a: RuleAction)
    ensures
        RuleCondition::named(c.name()) == Some(c),
        RuleAction::named(a.name()) == Some(a),
{
    reveal_strlit("always");
    reveal_strlit("leave");
    reveal_strlit("wakeup");
    reveal_strlit("focus");
    reveal_strlit("suppress");
    reveal_strlit("exempt");
    reveal_strlit("freeze");
    reveal_strlit("discard");
    assert("leave"@ != "always"@ && "wakeup"@ != "always"@ && "focus"@ != "always"@) by {
        assert("leave"@[0] != "always"@[0]);
        assert("wakeup"@[0] != "always"@[0]);
        assert("focus"@[0] != "always"@[0]);
    }
    assert("wakeup"@[0] != "leave"@[0]);
    assert("focus"@[0] != "leave"@[0]);
    assert("focus"@[0] != "wakeup"@[0]);
    assert("exempt"@[0] != "suppress"@[0]);
    assert("freeze"@[0] != "suppress"@[0]);
    assert("discard"@[0] != "suppress"@[0]);
    assert("freeze"@[0] != "exempt"@[0]);
    assert("discard"@[0] != "exempt"@[0]);
    assert("discard"@[0] != "freeze"@[0]);
}

/// One rule.
#[derive(Debug)]
pub struct Rule {
    pub id: String,
    /// The highest one applies.
    pub priority: i64,
    /// The packages it is for; none, or `*`, stands for all.
    pub applies_to: Vec<String>,
    pub condition: RuleCondition,
    /// The source that a rule for wakeups is for; none stands for all, and rules of other
    /// conditions take no notice of it.
    pub source: Option<String>,
    pub action: RuleAction,
    /// How long the rule rests for a package after it applied, in seconds; 0 is not at all.
    pub throttle_seconds: u64,
    /// How long an app is frozen before it is discarded.
    pub after_seconds: Option<u64>,
    /// The last day (year, month, day) on which the rule holds.
    pub expires_at: Option<(u32, u32, u32)>,
    /// When it last applied to a package, in nanoseconds.
    pub last_hit: NameMap<u64>,
    /// Whether the file names an action.
    pub action_set: bool,
}

pub struct RuleView {
    pub id: Seq<char>,
    pub priority: int,
    pub applies_to: Seq<Seq<char>>,
    pub condition: RuleCondition,
    pub source: Option<Seq<char>>,
    pub action: RuleAction,
    pub throttle_seconds: u64,
    pub after_seconds: Option<u64>,
    pub expires_at: Option<(u32, u32, u32)>,
    pub last_hit: Seq<(Seq<char>, u64)>,
    pub action_set: bool,
}

impl View for Rule {
    type V = RuleView;

    open spec fn view(&self) -> RuleView {
        RuleView {
            id: self.id@,
            priority: self.priority as int,
            applies_to: texts(self.applies_to@),
            condition: self.condition,
            source: opt_view(self.source),
            action: self.action,
            throttle_seconds: self.throttle_seconds,
            after_seconds: self.after_seconds,
            expires_at: self.expires_at,
            last_hit: self.last_hit@,
            action_set: self.action_set,
        }
    }
}

/// What applied.
#[derive(Debug)]
pub struct RuleHit {
    pub id: String,
    pub action: RuleAction,
    pub after_seconds: Option<u64>,
}

pub struct HitView {
    pub id: Seq<char>,
    pub action: RuleAction,
    pub after_seconds: Option<u64>,
}

impl View for RuleHit {
    type V = HitView;

    open spec fn view(&self) -> HitView {
        HitView { id: self.id@, action: self.action, after_seconds: self.after_seconds }
    }
}

pub open spec fn hit_view(h: Option<RuleHit>) -> Option<HitView> {
    match h {
        Some(h) => Some(h@),
        None => None,
    }
}

/// The rules of a file.
#[derive(Debug)]
pub struct RuleTable {
    pub rules: Vec<Rule>,
    /// Modification time of the file, in seconds.
    pub revision: u64,
    /// How often a rule applied.
    pub hits: u64,
}

pub struct RulesView {
    pub rules: Seq<RuleView>,
    pub revision: u64,
    pub hits: u64,
}

pub open spec fn rule_views(v: Seq<Rule>) -> Seq<RuleView> {
    Seq::new(v.len(), |i: int| v[i]@)
}

impl View for RuleTable {
    type V = RulesView;

    open spec fn view(&self) -> RulesView {
        RulesView {
            rules: rule_views(self.rules@),
            revision: self.revision,
            hits: self.hits,
        }
    }
}

/// A rule of which only the name is known.
pub open spec fn blank_rule(id: Seq<char>) -> RuleView {
    RuleView {
        id,
        priority: 0,
        applies_to: Seq::empty(),
        condition: RuleCondition::Always,
        source: None,
        action: RuleAction::Suppress,
        throttle_seconds: 0,
        after_seconds: None,
        expires_at: None,
        last_hit: Seq::empty(),
        action_set: false,
    }
}

pub open spec fn known_source(s: Seq<char>) -> bool {
    s == "broadcast"@ || s == "service"@ || s == "pendingintent"@
}

/// The date that `YYYY-MM-DD` names: a year, a month up to 12 and a day up to 31.
pub open spec fn date_of(s: Seq<char>) -> Option<(u32, u32, u32)> {
    let p = crate::text::pieces(crate::text::trimmed(s), '-');
    if p.len() != 3 {
        None
    } else {
        match (
            crate::text::unsigned_of(p[0], u32::MAX as int),
            crate::text::unsigned_of(p[1], u32::MAX as int),
            crate::text::unsigned_of(p[2], u32::MAX as int),
        ) {
            (Some(y), Some(m), Some(d)) => if 1 <= m <= 12 && 1 <= d <= 31 {
                Some((y as u32, m as u32, d as u32))
            } else {
                None
            },
            _ => None,
        }
    }
}

/// Reads a date `YYYY-MM-DD`.
pub fn parse_date(s: &str) -> (r: Option<(u32, u32, u32)>)
    ensures
        r == date_of(s@),
{
    let v: Vec<char> = chars_of(s);
    let parts: Vec<&[char]> = split(trim(v.as_slice()), '-');
    let ghost p = slice_texts(parts@);
    assert(p.len() == parts.len());
    if parts.len() != 3 {
        return None;
    }
    assert(p[0] == parts@[0]@ && p[1] == parts@[1]@ && p[2] == parts@[2]@);
    match (parse_u32(parts[0]), parse_u32(parts[1]), parse_u32(parts[2])) {
        (Some(y), Some(m), Some(d)) => if m >= 1 && m <= 12 && d >= 1 && d <= 31 {
            Some((y, m, d))
        } else {
            None
        },
        _ => None,
    }
}

/// The integer of a value; 0 where it has another type.
pub open spec fn integer_view(v: ValueView) -> int {
    match v {
        ValueView::Int(n) => n,
        _ => 0,
    }
}

fn integer_of(v: &TomlValue) -> (r: i64)
    ensures
        r == integer_view(v@),
{
    match v {
        TomlValue::Int(n) => *n,
        _ => 0,
    }
}

/// A rule after one more entry of its table. What is not understood changes nothing.
pub open spec fn rule_after(r: RuleView, key: Seq<char>, v: ValueView) -> RuleView {
    if key == "priority"@ {
        RuleView { priority: integer_view(v), ..r }
    } else if key == "applies_to"@ {
        RuleView { applies_to: strings_view(v), ..r }
    } else if key == "condition"@ {
        match string_view(v) {
            Some(s) => match RuleCondition::named(s) {
                Some(c) => RuleView { condition: c, ..r },
                None => r,
            },
            None => r,
        }
    } else if key == "source"@ {
        match string_view(v) {
            Some(s) => if known_source(s) {
                RuleView { source: Some(s), ..r }
            } else {
                r
            },
            None => r,
        }
    } else if key == "action"@ {
        match string_view(v) {
            Some(s) => match RuleAction::named(s) {
                Some(a) => RuleView { action: a, action_set: true, ..r },
                None => r,
            },
            None => r,
        }
    } else if key == "throttle"@ {
        RuleView { throttle_seconds: count_view(v, 0), ..r }
    } else if key == "after_seconds"@ {
        RuleView { after_seconds: Some(count_view(v, 0)), ..r }
    } else if key == "expires_at"@ {
        match string_view(v) {
            Some(s) => match date_of(s) {
                Some(d) => RuleView { expires_at: Some(d), ..r },
                None => r,
            },
            None => r,
        }
    } else {
        r
    }
}

/// Where the rule with a name stands.
pub open spec fn rule_named(rules: Seq<RuleView>, id: Seq<char>) -> Option<int>
    decreases rules.len(),
{
    if rules.len() == 0 {
        None
    } else {
        match rule_named(rules.drop_last(), id) {
            Some(i) => Some(i),
            None => if rules.last().id == id {
                Some(rules.len() - 1)
            } else {
                None
            },
        }
    }
}

/// The rules after one more entry of the file.
pub open spec fn rules_after(rules: Seq<RuleView>, e: EntryView) -> Seq<RuleView> {
    let section = crate::text::joined(e.table, "."@);
    if "rules."@.is_prefix_of(section) && section.len() > "rules."@.len() {
        let id = section.skip("rules."@.len() as int);
        match rule_named(rules, id) {
            Some(i) => rules.update(i, rule_after(rules[i], e.key, e.value)),
            None => rules.push(rule_after(blank_rule(id), e.key, e.value)),
        }
    } else {
        rules
    }
}

/// The rules of a list of entries, with those that name no action.
pub open spec fn drafts(es: Seq<EntryView>) -> Seq<RuleView>
    decreases es.len(),
{
    if es.len() == 0 {
        Seq::empty()
    } else {
        rules_after(drafts(es.drop_last()), es.last())
    }
}

/// The rules that name an action.
pub open spec fn with_action(rules: Seq<RuleView>) -> Seq<RuleView>
    decreases rules.len(),
{
    if rules.len() == 0 {
        Seq::empty()
    } else if rules.last().action_set {
        with_action(rules.drop_last()).push(rules.last())
    } else {
        with_action(rules.drop_last())
    }
}

/// What a file denotes.
pub open spec fn table_of(es: Seq<EntryView>, revision: u64) -> RulesView {
    RulesView { rules: with_action(drafts(es)), revision, hits: 0 }
}

/// What is loaded from the text of the file.
pub open spec fn loaded_rules(text: Option<Seq<char>>, revision: u64) -> Option<RulesView> {
    match text {
        Some(s) => match crate::toml::parsed(s) {
            Ok(es) => Some(table_of(es, revision)),
            Err(_) => None,
        },
        None => None,
    }
}

/// Every rule of a table was given an action by its file.
pub proof fn law_rules_have_actions(rules: Seq<RuleView>)
    ensures
        forall|i: int|
            0 <= i < with_action(rules).len() ==> (#[trigger] with_action(rules)[i]).action_set
                && rules.contains(with_action(rules)[i]),
        forall|i: int|
            0 <= i < rules.len() && (#[trigger] rules[i]).action_set ==> with_action(
                rules,
            ).contains(rules[i]),
    decreases rules.len(),
{
    if rules.len() > 0 {
        let d = rules.drop_last();
        law_rules_have_actions(d);
        let w = with_action(rules);
        let wd = with_action(d);
        assert forall|i: int| 0 <= i < w.len() implies (#[trigger] w[i]).action_set
            && rules.contains(w[i]) by {
            if i < wd.len() {
                assert(w[i] == wd[i]);
                assert(d.contains(wd[i]));
                let j = choose|j: int| 0 <= j < d.len() && d[j] == wd[i];
                assert(rules[j] == w[i]);
            } else {
                assert(rules[rules.len() - 1] == w[i]);
            }
        }
        assert forall|i: int| 0 <= i < rules.len() && (#[trigger] rules[i]).action_set implies
            w.contains(rules[i]) by {
            if i < d.len() {
                assert(d[i] == rules[i]);
                assert(wd.contains(d[i]));
                let j = choose|j: int| 0 <= j < wd.len() && wd[j] == d[i];
                assert(w[j] == rules[i]);
            } else {
                assert(w[w.len() - 1] == rules[i]);
            }
        }
    }
}

/// Whether day `a` comes after day `b`.
pub open spec fn day_after(a: (u32, u32, u32), b: (u32, u32, u32)) -> bool {
    a.0 > b.0 || (a.0 == b.0 && (a.1 > b.1 || (a.1 == b.1 && a.2 > b.2)))
}

/// Whether a rule is over; where the day is not known, it is not.
pub open spec fn is_over(r: RuleView, today: Option<(u32, u32, u32)>) -> bool {
    match (r.expires_at, today) {
        (Some(last), Some(day)) => day_after(day, last),
        _ => false,
    }
}

/// Whether a rule rests for a package.
pub open spec fn is_resting(r: RuleView, pkg: Seq<char>, now: u64) -> bool {
    match value_of(r.last_hit, pkg) {
        Some(at) => r.throttle_seconds > 0 && elapsed(now, at) < r.throttle_seconds * 1_000_000_000,
        None => false,
    }
}

/// Whether a rule applies.
pub open spec fn applies(
    r: RuleView,
    pkg: Seq<char>,
    cond: RuleCondition,
    source: Option<Seq<char>>,
    now: u64,
    today: Option<(u32, u32, u32)>,
) -> bool {
    &&& r.applies_to.len() == 0 || r.applies_to.contains("*"@) || r.applies_to.contains(pkg)
    &&& r.condition == RuleCondition::Always || r.condition == cond
    &&& r.condition == RuleCondition::Wakeup && r.source is Some ==> r.source == source
    &&& !is_over(r, today)
    &&& !is_resting(r, pkg, now)
}

/// The rule that applies: the one with the highest priority, the first of several.
pub open spec fn chosen(
    rules: Seq<RuleView>,
    pkg: Seq<char>,
    cond: RuleCondition,
    source: Option<Seq<char>>,
    now: u64,
    today: Option<(u32, u32, u32)>,
) -> Option<int>
    decreases rules.len(),
{
    if rules.len() == 0 {
        None
    } else {
        let best = chosen(rules.drop_last(), pkg, cond, source, now, today);
        if applies(rules.last(), pkg, cond, source, now, today) && (best is None
            || rules.last().priority > rules[best->0].priority) {
            Some(rules.len() - 1)
        } else {
            best
        }
    }
}

/// The chosen rule applies, no other that applies has a higher priority, and none before it
/// has the same. There is one whenever any rule applies.
pub proof fn law_chosen_rule(
    rules: Seq<RuleView>,
    pkg: Seq<char>,
    cond: RuleCondition,
    source: Option<Seq<char>>,
    now: u64,
    today: Option<(u32, u32, u32)>,
)
    ensures
        match chosen(rules, pkg, cond, source, now, today) {
            Some(i) => {
                &&& 0 <= i < rules.len()
                &&& applies(rules[i], pkg, cond, source, now, today)
                &&& forall|j: int|
                    0 <= j < rules.len() && #[trigger] applies(
                        rules[j],
                        pkg,
                        cond,
                        source,
                        now,
                        today,
                    ) ==> rules[j].priority < rules[i].priority || (rules[j].priority
                        == rules[i].priority && i <= j)
            },
            None => forall|j: int|
                0 <= j < rules.len() ==> !#[trigger] applies(
                    rules[j],
                    pkg,
                    cond,
                    source,
                    now,
                    today,
                ),
        },
    decreases rules.len(),
{
    if rules.len() > 0 {
        let d = rules.drop_last();
        law_chosen_rule(d, pkg, cond, source, now, today);
        assert forall|j: int| 0 <= j < d.len() implies rules[j] == d[j] by {}
        assert forall|j: int|
            0 <= j < d.len() && applies(rules[j], pkg, cond, source, now, today) implies applies(
            d[j],
            pkg,
            cond,
            source,
            now,
            today,
        ) by {}
    }
}

/// A rule holds to the end of its last day, and not on the day after.
pub proof fn law_last_day_counts(r: RuleView, day: (u32, u32, u32))
    requires
        r.expires_at is Some,
    ensures
        !is_over(r, r.expires_at),
        is_over(r, Some(day)) <==> day_after(day, r.expires_at->0),
        !is_over(r, None),
{
}

pub open spec fn what_hit(r: RuleView) -> HitView {
    HitView { id: r.id, action: r.action, after_seconds: r.after_seconds }
}

/// What is said to apply.
pub open spec fn peeked(
    t: RulesView,
    pkg: Seq<char>,
    cond: RuleCondition,
    source: Option<Seq<char>>,
    now: u64,
    today: Option<(u32, u32, u32)>,
) -> Option<HitView> {
    match chosen(t.rules, pkg, cond, source, now, today) {
        Some(i) => Some(what_hit(t.rules[i])),
        None => None,
    }
}

/// A rule after it applied to a package.
pub open spec fn rested(r: RuleView, pkg: Seq<char>, now: u64) -> RuleView {
    if r.throttle_seconds > 0 {
        RuleView { last_hit: with_key(r.last_hit, pkg, now), ..r }
    } else {
        r
    }
}

/// The table after a rule was applied.
pub open spec fn after_hit(
    t: RulesView,
    pkg: Seq<char>,
    cond: RuleCondition,
    source: Option<Seq<char>>,
    now: u64,
    today: Option<(u32, u32, u32)>,
) -> RulesView {
    match chosen(t.rules, pkg, cond, source, now, today) {
        Some(i) => RulesView {
            rules: t.rules.update(i, rested(t.rules[i], pkg, now)),
            hits: t.hits.wrapping_add(1),
            ..t
        },
        None => t,
    }
}

/// After a rule with a throttle applied to a package, it does not apply to that package again
/// until the throttle is over, and then it can; to other packages it applies as before.
pub proof fn law_throttle(
    r: RuleView,
    pkg: Seq<char>,
    at: u64,
    other: Seq<char>,
    cond: RuleCondition,
    source: Option<Seq<char>>,
    now: u64,
    today: Option<(u32, u32, u32)>,
)
    requires
        r.throttle_seconds > 0,
        now >= at,
    ensures
        applies(rested(r, pkg, at), pkg, cond, source, now, today) ==> now - at
            >= r.throttle_seconds * 1_000_000_000,
        now - at >= r.throttle_seconds * 1_000_000_000 ==> !is_resting(
            rested(r, pkg, at),
            pkg,
            now,
        ),
        other != pkg ==> applies(rested(r, pkg, at), other, cond, source, now, today) == applies(
            r,
            other,
            cond,
            source,
            now,
            today,
        ),
{
    crate::names::lemma_with_key(r.last_hit, pkg, at, pkg);
    crate::names::lemma_with_key(r.last_hit, pkg, at, other);
}

/// A rule without a throttle never rests: applying it changes nothing of it.
pub proof fn law_no_throttle(r: RuleView, pkg: Seq<char>, at: u64, now: u64)
    requires
        r.throttle_seconds == 0,
    ensures
        rested(r, pkg, at) == r,
        !is_resting(r, pkg, now),
{
}

fn later_day(a: (u32, u32, u32), b: (u32, u32, u32)) -> (r: bool)
    ensures
        r == day_after(a, b),
{
    a.0 > b.0 || (a.0 == b.0 && (a.1 > b.1 || (a.1 == b.1 && a.2 > b.2)))
}

fn apply_key(r: &mut Rule, e: &TomlEntry)
    ensures
        final(r)@ == rule_after(old(r)@, e.key@, e.value@),
{
    let key: &str = e.key.as_str();
    let v: &TomlValue = &e.value;
    if str_eq(key, "priority") {
        r.priority = integer_of(v);
    } else if str_eq(key, "applies_to") {
        r.applies_to = strings_of(v);
    } else if str_eq(key, "condition") {
        if let Some(s) = string_of_value(v) {
            if let Some(c) = RuleCondition::parse(s.as_str()) {
                r.condition = c;
            }
        }
    } else if str_eq(key, "source") {
        if let Some(s) = string_of_value(v) {
            if str_eq(s.as_str(), "broadcast") || str_eq(s.as_str(), "service") || str_eq(
                s.as_str(),
                "pendingintent",
            ) {
                r.source = Some(s);
            }
        }
    } else if str_eq(key, "action") {
        if let Some(s) = string_of_value(v) {
            if let Some(a) = RuleAction::parse(s.as_str()) {
                r.action = a;
                r.action_set = true;
            }
        }
    } else if str_eq(key, "throttle") {
        r.throttle_seconds = count_of_value(v, 0);
    } else if str_eq(key, "after_seconds") {
        r.after_seconds = Some(count_of_value(v, 0));
    } else if str_eq(key, "expires_at") {
        if let Some(s) = string_of_value(v) {
            if let Some(d) = parse_date(s.as_str()) {
                r.expires_at = Some(d);
            }
        }
    }
}

fn find_rule(rules: &Vec<Rule>, id: &str) -> (r: Option<usize>)
    ensures
        match r {
            Some(i) => i < rules.len() && rule_named(rule_views(rules@), id@) == Some(i as int),
            None => rule_named(rule_views(rules@), id@) is None,
        },
{
    let ghost all = rule_views(rules@);
    let mut found: Option<usize> = None;
    let mut i: usize = 0;
    while i < rules.len()
        invariant
            i <= rules.len(),
            all == rule_views(rules@),
            match found {
                Some(k) => k < i && rule_named(all.take(i as int), id@) == Some(k as int),
                None => rule_named(all.take(i as int), id@) is None,
            },
        decreases rules.len() - i,
    {
        assert(all.take(i + 1).drop_last() =~= all.take(i as int));
        if found.is_none() && str_eq(rules[i].id.as_str(), id) {
            found = Some(i);
        }
        i = i + 1;
    }
    assert(all.take(all.len() as int) =~= all);
    found
}

fn blank(id: String) -> (r: Rule)
    ensures
        r@ == blank_rule(id@),
{
    let r = Rule {
        id,
        priority: 0,
        applies_to: Vec::new(),
        condition: RuleCondition::Always,
        source: None,
        action: RuleAction::Suppress,
        throttle_seconds: 0,
        after_seconds: None,
        expires_at: None,
        last_hit: NameMap::new(),
        action_set: false,
    };
    assert(texts(r.applies_to@) =~= Seq::empty());
    r
}

fn apply_entry(rules: &mut Vec<Rule>, e: &TomlEntry)
    ensures
        rule_views(final(rules)@) == rules_after(rule_views(old(rules)@), e@),
{
    let ghost before = rule_views(rules@);
    let section: String = join(&e.table, ".");
    let chars: Vec<char> = chars_of(section.as_str());
    if let Some(rest) = strip_prefix(chars.as_slice(), "rules.") {
        if rest.len() > 0 {
            let id: String = string_of(rest);
            match find_rule(rules, id.as_str()) {
                Some(i) => {
                    apply_key(&mut rules[i], e);
                    assert(rule_views(rules@) =~= before.update(
                        i as int,
                        rule_after(before[i as int], e.key@, e.value@),
                    ));
                },
                None => {
                    let ghost name = id@;
                    let mut r: Rule = blank(id);
                    apply_key(&mut r, e);
                    rules.push(r);
                    assert(rule_views(rules@) =~= before.push(
                        rule_after(blank_rule(name), e.key@, e.value@),
                    ));
                },
            }
        }
    }
}

fn drop_undeclared(rules: Vec<Rule>) -> (r: Vec<Rule>)
    ensures
        rule_views(r@) == with_action(rule_views(rules@)),
{
    let ghost all = rule_views(rules@);
    let mut rest: Vec<Rule> = rules;
    let mut out: Vec<Rule> = Vec::new();
    let ghost mut done: int = 0;
    assert(rule_views(out@) =~= with_action(all.take(0)));
    assert(all.skip(0) =~= all);
    while rest.len() > 0
        invariant
            0 <= done <= all.len(),
            rule_views(rest@) == all.skip(done),
            rule_views(out@) == with_action(all.take(done)),
        decreases rest.len(),
    {
        let ghost before = rest@;
        let ghost kept = rule_views(out@);
        assert(rule_views(before).len() == all.len() - done);
        let r: Rule = rest.remove(0);
        let ghost x = r@;
        proof {
            assert(rule_views(before)[0] == x);
            assert(all.skip(done)[0] == all[done]);
            assert(all.take(done + 1).drop_last() =~= all.take(done));
            assert(rule_views(rest@) =~= all.skip(done + 1)) by {
                assert forall|j: int| 0 <= j < rest@.len() implies rule_views(rest@)[j]
                    == all.skip(done + 1)[j] by {
                    assert(rule_views(before)[j + 1] == before[j + 1]@);
                    assert(rule_views(rest@)[j] == rest@[j]@);
                    assert(all.skip(done)[j + 1] == all[done + j + 1]);
                }
            }
        }
        if r.action_set {
            out.push(r);
            assert(rule_views(out@) =~= kept.push(x));
        }
        proof {
            done = done + 1;
        }
    }
    assert(all.take(all.len() as int) =~= all);
    out
}

impl Default for RuleTable {
    fn default() -> (r: Self)
        ensures
            r@ == (RulesView { rules: Seq::empty(), revision: 0, hits: 0 }),
    {
        let r = RuleTable { rules: Vec::new(), revision: 0, hits: 0 };
        assert(rule_views(r.rules@) =~= Seq::empty());
        r
    }
}

impl Rule {
    /// Whether the rule applies.
    pub fn matches(
        &self,
        pkg: &str,
        cond: RuleCondition,
        source: Option<&str>,
        now: u64,
        today: Option<(u32, u32, u32)>,
    ) -> (r: bool)
        ensures
            r == applies(self@, pkg@, cond, opt_str(source), now, today),
    {
        if self.applies_to.len() > 0 && !contains_name(&self.applies_to, "*") && !contains_name(
            &self.applies_to,
            pkg,
        ) {
            return false;
        }
        if self.condition != RuleCondition::Always && self.condition != cond {
            return false;
        }
        if self.condition == RuleCondition::Wakeup {
            if let Some(s) = &self.source {
                let same: bool = match source {
                    Some(t) => str_eq(s.as_str(), t),
                    None => false,
                };
                if !same {
                    return false;
                }
            }
        }
        if let Some(last) = self.expires_at {
            if let Some(day) = today {
                if later_day(day, last) {
                    return false;
                }
            }
        }
        if self.throttle_seconds > 0 {
            if let Some(at) = self.last_hit.get(pkg) {
                if (time_since(now, *at) as u128) < (self.throttle_seconds as u128)
                    * 1_000_000_000 {
                    return false;
                }
            }
        }
        true
    }
}

impl RuleTable {
    /// The rules of a file, or why it does not parse.
    pub fn from_toml(src: &str, revision: u64) -> (r: Result<RuleTable, String>)
        ensures
            match r {
                Ok(t) => crate::toml::parsed(src@) matches Ok(es) && t@ == table_of(es, revision),
                Err(m) => crate::toml::parsed(src@) matches Err(e) && m@ == fault_text(e.0, e.1),
            },
    {
        let entries: Vec<TomlEntry> = match parse(src) {
            Ok(v) => v,
            Err(e) => {
                return Err(fault_message(e.0, e.1.as_str()));
            },
        };
        let mut rules: Vec<Rule> = Vec::new();
        let ghost es = entry_views(entries@);
        let mut i: usize = 0;
        assert(rule_views(rules@) =~= drafts(es.take(0)));
        while i < entries.len()
            invariant
                i <= entries.len(),
                es == entry_views(entries@),
                rule_views(rules@) == drafts(es.take(i as int)),
            decreases entries.len() - i,
        {
            apply_entry(&mut rules, &entries[i]);
            assert(es.take(i + 1).drop_last() =~= es.take(i as int));
            i = i + 1;
        }
        assert(es.take(es.len() as int) =~= es);
        Ok(RuleTable { rules: drop_undeclared(rules), revision, hits: 0 })
    }

    /// The rules of a file with its text; none where there is no file or it does not parse, and
    /// then the rules in force stay.
    pub fn load(text: Option<&str>, revision: u64) -> (r: Option<(RuleTable, String)>)
        ensures
            match r {
                Some((t, s)) => loaded_rules(opt_str(text), revision) == Some(t@) && Some(s@)
                    == opt_str(text),
                None => loaded_rules(opt_str(text), revision) is None,
            },
    {
        match text {
            Some(s) => match RuleTable::from_toml(s, revision) {
                Ok(t) => Some((t, String::from_str(s))),
                Err(_) => None,
            },
            None => None,
        }
    }

    fn find_index(
        &self,
        pkg: &str,
        cond: RuleCondition,
        source: Option<&str>,
        now: u64,
        today: Option<(u32, u32, u32)>,
    ) -> (r: Option<usize>)
        ensures
            match r {
                Some(i) => i < self.rules.len() && chosen(
                    self@.rules,
                    pkg@,
                    cond,
                    opt_str(source),
                    now,
                    today,
                ) == Some(i as int),
                None => chosen(self@.rules, pkg@, cond, opt_str(source), now, today) is None,
            },
    {
        let ghost all = self@.rules;
        let mut best: Option<usize> = None;
        let mut i: usize = 0;
        while i < self.rules.len()
            invariant
                i <= self.rules.len(),
                all == self@.rules,
                match best {
                    Some(k) => k < i && chosen(
                        all.take(i as int),
                        pkg@,
                        cond,
                        opt_str(source),
                        now,
                        today,
                    ) == Some(k as int),
                    None => chosen(all.take(i as int), pkg@, cond, opt_str(source), now, today) is None,
                },
            decreases self.rules.len() - i,
        {
            let ghost upto = all.take(i + 1);
            assert(upto.drop_last() =~= all.take(i as int));
            assert(upto.last() == self.rules@[i as int]@);
            if self.rules[i].matches(pkg, cond, source, now, today) {
                let higher: bool = match best {
                    Some(k) => {
                        assert(upto[k as int] == self.rules@[k as int]@);
                        self.rules[i].priority > self.rules[k].priority
                    },
                    None => true,
                };
                if higher {
                    best = Some(i);
                }
            }
            i = i + 1;
        }
        assert(all.take(all.len() as int) =~= all);
        best
    }

    /// What applies, without applying it.
    pub fn peek(
        &self,
        pkg: &str,
        cond: RuleCondition,
        source: Option<&str>,
        now: u64,
        today: Option<(u32, u32, u32)>,
    ) -> (r: Option<RuleHit>)
        ensures
            hit_view(r) == peeked(self@, pkg@, cond, opt_str(source), now, today),
    {
        match self.find_index(pkg, cond, source, now, today) {
            Some(i) => {
                let rule: &Rule = &self.rules[i];
                Some(
                    RuleHit {
                        id: rule.id.clone(),
                        action: rule.action,
                        after_seconds: rule.after_seconds,
                    },
                )
            },
            None => None,
        }
    }

    /// Applies what applies: it is counted, and rests where it has a throttle.
    pub fn hit(
        &mut self,
        pkg: &str,
        cond: RuleCondition,
        source: Option<&str>,
        now: u64,
        today: Option<(u32, u32, u32)>,
    ) -> (r: Option<RuleHit>)
        ensures
            hit_view(r) == peeked(old(self)@, pkg@, cond, opt_str(source), now, today),
            final(self)@ == after_hit(old(self)@, pkg@, cond, opt_str(source), now, today),
    {
        let ghost before = self@;
        match self.find_index(pkg, cond, source, now, today) {
            Some(i) => {
                self.hits = self.hits.wrapping_add(1);
                if self.rules[i].throttle_seconds > 0 {
                    self.rules[i].last_hit.insert(String::from_str(pkg), now);
                }
                let rule: &Rule = &self.rules[i];
                let r = Some(
                    RuleHit {
                        id: rule.id.clone(),
                        action: rule.action,
                        after_seconds: rule.after_seconds,
                    },
                );
                assert(self@.rules =~= before.rules.update(
                    i as int,
                    rested(before.rules[i as int], pkg@, now),
                ));
                r
            },
            None => None,
        }
    }

    pub fn len(&self) -> (r: usize)
        ensures
            r == self@.rules.len(),
    {
        self.rules.len()
    }

    /// The names of the rules in ascending order.
    pub fn ids(&self) -> (r: Vec<String>)
        ensures
            texts(r@) == sorted_texts(self@.rules.map_values(|x: RuleView| x.id)),
    {
        let ghost all = self@.rules.map_values(|x: RuleView| x.id);
        let mut v: Vec<String> = Vec::new();
        let mut i: usize = 0;
        assert(texts(v@) =~= all.take(0));
        while i < self.rules.len()
            invariant
                i <= self.rules.len(),
                all == self@.rules.map_values(|x: RuleView| x.id),
                texts(v@) == all.take(i as int),
            decreases self.rules.len() - i,
        {
            let ghost done = texts(v@);
            v.push(self.rules[i].id.clone());
            assert(texts(v@) =~= done.push(self.rules@[i as int].id@));
            assert(all.take(i + 1) =~= all.take(i as int).push(all[i as int]));
            i = i + 1;
        }
        assert(all.take(all.len() as int) =~= all);
        sort_texts(&v)
    }
}

} // verus!
